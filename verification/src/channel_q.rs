//! Q-frame layer: 96 subcode symbols read as a 96-bit value, with generic
//! field extraction and the three mode-specific payload decoders.

use vstd::arithmetic::power2::{
    lemma2_to64, lemma_pow2_strictly_increases, lemma_pow2_unfold, pow2,
};
use vstd::prelude::*;

use crate::subcode::{bit_of, SubcodeBit, SubcodeSymbol};

verus! {

/// A Q-channel frame spans exactly this many subcode symbols (one bit each).
pub const CHANNEL_Q_LEN_SYMBOLS: usize = 96;

/// The data-q payload spans this many of the frame's bits.
pub const DATA_Q_LEN_SYMBOLS: usize = 72;

/// The frame-relative bit offset where the data-q payload begins.
pub const DATA_Q_FIRST: usize = 8;

/// The bytes backing a sequence of subcode symbols.
pub open spec fn bytes_of(symbols: Seq<SubcodeSymbol>) -> Seq<u8> {
    symbols.map_values(|s: SubcodeSymbol| s.0)
}

/// The Q-plane bit (0 or 1) contributed by symbol `i` of the frame.
pub open spec fn q_bit(bytes: Seq<u8>, i: int) -> u8
    recommends
        0 <= i < bytes.len(),
{
    bit_of(bytes[i], SubcodeBit::Q.position())
}

/// The unsigned value of `len` consecutive Q-plane bits starting at symbol
/// `first`, read most-significant-bit first (big-endian).
pub open spec fn field_val(bytes: Seq<u8>, first: int, len: nat) -> nat
    recommends
        0 <= first,
        first + len <= bytes.len(),
    decreases len,
{
    if len == 0 {
        0
    } else {
        (2 * field_val(bytes, first, (len - 1) as nat) + q_bit(bytes, first + len - 1)) as nat
    }
}

/// A field of the data-q payload, addressed relative to the payload's own
/// first bit.
pub open spec fn payload_field(bytes: Seq<u8>, first: int, len: nat) -> nat
    recommends
        0 <= first,
        first + len <= DATA_Q_LEN_SYMBOLS,
{
    field_val(bytes, DATA_Q_FIRST + first, len)
}

/// Every Q-plane bit is 0 or 1, so a `len`-bit field is below `pow2(len)`.
pub proof fn lemma_field_val_bound(bytes: Seq<u8>, first: int, len: nat)
    ensures
        field_val(bytes, first, len) < pow2(len),
    decreases len,
{
    if len == 0 {
        lemma2_to64();
    } else {
        lemma_field_val_bound(bytes, first, (len - 1) as nat);
        let b = bytes[first + len - 1];
        assert((b >> 6u32) & 1 <= 1) by (bit_vector);
        lemma_pow2_unfold(len);
    }
}

/// Law: a 4-bit field is its four Q-plane bits weighted as a big-endian
/// binary number, so the decoded control and address nibbles can be checked
/// bit for bit against the raw layout.
pub proof fn lemma_nibble_from_bits(bytes: Seq<u8>, first: int)
    ensures
        field_val(bytes, first, 4) == 8 * q_bit(bytes, first) + 4 * q_bit(bytes, first + 1) + 2
            * q_bit(bytes, first + 2) + q_bit(bytes, first + 3),
{
    assert(field_val(bytes, first, 0) == 0);
    assert(field_val(bytes, first, 1) == 2 * field_val(bytes, first, 0) + q_bit(bytes, first));
    assert(field_val(bytes, first, 2) == 2 * field_val(bytes, first, 1) + q_bit(bytes, first + 1));
    assert(field_val(bytes, first, 3) == 2 * field_val(bytes, first, 2) + q_bit(bytes, first + 2));
    assert(field_val(bytes, first, 4) == 2 * field_val(bytes, first, 3) + q_bit(bytes, first + 3));
}

/// The tens nibble (bits 7-4) of an 8-bit value.
pub open spec fn bcd_tens(v: nat) -> nat {
    (v / 16) % 16
}

/// The ones nibble (bits 3-0) of an 8-bit value.
pub open spec fn bcd_ones(v: nat) -> nat {
    v % 16
}

/// Both nibbles of the value are decimal digits, as binary-coded decimal
/// demands.
pub open spec fn is_bcd_byte(v: nat) -> bool {
    bcd_tens(v) <= 9 && bcd_ones(v) <= 9
}

/// The two-digit decimal value a BCD byte encodes.
pub open spec fn bcd_decimal(v: nat) -> nat
    recommends
        is_bcd_byte(v),
{
    10 * bcd_tens(v) + bcd_ones(v)
}

/// The printable character for one decimal digit.
pub open spec fn digit_char(d: nat) -> char
    recommends
        d <= 9,
{
    ((48 + d) as u8) as char
}

/// The value is in the restricted six-bit alphabet: a decimal digit code or
/// a letter code (the codes between and above are unassigned).
pub open spec fn is_six_bit_char(x: nat) -> bool {
    x <= 9 || (17 <= x && x <= 42)
}

/// The character a six-bit alphabet code stands for: 0-9 are '0'-'9' and
/// 17-42 are 'A'-'Z'.
pub open spec fn six_bit_char(x: nat) -> char
    recommends
        is_six_bit_char(x),
{
    if x <= 9 {
        ((48 + x) as u8) as char
    } else {
        ((65 + (x - 17)) as u8) as char
    }
}

/// Maps a single BCD digit to its printable decimal character.
pub fn bcd_digit_to_char(bcd_digit: u8) -> (c: char)
    requires
        bcd_digit <= 9,
    ensures
        c == digit_char(bcd_digit as nat),
{
    (48u8 + bcd_digit) as char
}

/// Decodes a byte of two 4-bit BCD digits into its two-digit decimal value.
pub fn two_digit_bcd_to_decimal(x: u8) -> (r: u8)
    requires
        is_bcd_byte(x as nat),
    ensures
        r == bcd_decimal(x as nat),
        r <= 99,
{
    let tens = (x >> 4) & 0xF;
    let ones = x & 0xF;
    proof {
        assert((x >> 4) & 0xF == (x / 16) % 16 && (x & 0xF) == x % 16) by (bit_vector);
    }

    tens * 10 + ones
}

/// Decodes a six-bit alphabet code into its character.
pub fn six_bit_char_to_char(x: u8) -> (c: char)
    requires
        is_six_bit_char(x as nat),
    ensures
        c == six_bit_char(x as nat),
{
    if x <= 9 {
        (48u8 + x) as char
    } else {
        (65u8 + (x - 17)) as char
    }
}

/// Law: every byte whose nibbles are the digits `tens` and `ones` is valid
/// BCD and decodes to exactly `10 * tens + ones`; so decoding is total and
/// exact on the bytes 0x00-0x09, 0x10-0x19, ..., 0x90-0x99.
pub proof fn lemma_bcd_decode_exact(tens: nat, ones: nat)
    requires
        tens <= 9,
        ones <= 9,
    ensures
        is_bcd_byte(16 * tens + ones),
        bcd_decimal(16 * tens + ones) == 10 * tens + ones,
{
    assert((16 * tens + ones) / 16 == tens && (16 * tens + ones) % 16 == ones) by (nonlinear_arith)
        requires
            tens <= 9,
            ones <= 9,
    ;
}

/// The address (mode) of a frame, decoded from the 4-bit field at bit 4.
/// Modes 4 and up (CD-Video among them) are not supported and read as
/// `Unknown`.
pub open spec fn address_of(bytes: Seq<u8>) -> Address {
    let adr = field_val(bytes, 4, 4);
    if adr == 0 {
        Address::Mode0
    } else if adr == 1 {
        Address::Mode1
    } else if adr == 2 {
        Address::Mode2
    } else if adr == 3 {
        Address::Mode3
    } else {
        Address::Unknown
    }
}

/// The mode a frame's payload is structured by, decoded from the 4-bit
/// address field. Mode 4 (CD-Video) is not supported and reads as `Unknown`,
/// as does every other unrecognized value.
#[derive(Debug, PartialEq, Eq, Structural)]
pub enum Address {
    Mode0,
    Mode1,
    Mode2,
    Mode3,
    Unknown,
}

/// A Q-channel frame: a read-only view over exactly 96 caller-owned subcode
/// symbols.
pub struct ChannelQ<'a> {
    symbols: &'a [SubcodeSymbol],
}

impl View for ChannelQ<'_> {
    type V = Seq<u8>;

    closed spec fn view(&self) -> Seq<u8> {
        bytes_of(self.symbols@)
    }
}

impl<'a> ChannelQ<'a> {
    /// A frame is backed by exactly 96 symbols.
    pub open spec fn wf(&self) -> bool {
        self@.len() == CHANNEL_Q_LEN_SYMBOLS
    }

    pub fn new(symbols: &'a [SubcodeSymbol]) -> (r: ChannelQ<'a>)
        requires
            symbols@.len() == CHANNEL_Q_LEN_SYMBOLS,
        ensures
            r@ == bytes_of(symbols@),
            r.wf(),
    {
        ChannelQ { symbols }
    }

    /// The unsigned integer formed by `len` consecutive Q-plane bits starting
    /// at frame bit `first`, most significant bit first.
    pub fn value(&self, first: usize, len: usize) -> (r: u32)
        requires
            self.wf(),
            1 <= len <= 32,
            first + len <= CHANNEL_Q_LEN_SYMBOLS,
        ensures
            r as nat == field_val(self@, first as int, len as nat),
    {
        let mut acc: u64 = 0;
        let mut i: usize = 0;
        proof {
            lemma2_to64();
        }
        while i < len
            invariant
                self.wf(),
                i <= len,
                len <= 32,
                first + len <= CHANNEL_Q_LEN_SYMBOLS,
                acc as nat == field_val(self@, first as int, i as nat),
                acc < pow2(i as nat),
            decreases len - i,
        {
            let b = self.symbols[first + i].get_bit_value(SubcodeBit::Q);
            proof {
                lemma_pow2_unfold((i + 1) as nat);
                if i + 1 < 32 {
                    lemma_pow2_strictly_increases((i + 1) as nat, 32);
                }
                lemma2_to64();
            }
            acc = 2 * acc + (b as u64);
            i = i + 1;
        }
        proof {
            if (len as nat) < 32 {
                lemma_pow2_strictly_increases(len as nat, 32);
            }
            lemma2_to64();
        }
        acc as u32
    }

    /// The same extraction, addressed relative to the first bit of the 72-bit
    /// data-q payload.
    pub fn value_data_q(&self, first: usize, len: usize) -> (r: u32)
        requires
            self.wf(),
            1 <= len <= 32,
            first + len <= DATA_Q_LEN_SYMBOLS,
        ensures
            r as nat == payload_field(self@, first as int, len as nat),
    {
        self.value(DATA_Q_FIRST + first, len)
    }

    /// The control nibble: frame bits 0-3.
    pub fn control(&self) -> (r: u8)
        requires
            self.wf(),
        ensures
            r as nat == field_val(self@, 0, 4),
            r < 16,
    {
        proof {
            lemma_field_val_bound(self@, 0, 4);
            lemma2_to64();
        }
        self.value(0, 4) as u8
    }

    /// The address (mode) nibble: frame bits 4-7, mapped through the closed
    /// `Address` enumeration.
    pub fn adr(&self) -> (r: Address)
        requires
            self.wf(),
        ensures
            r == address_of(self@),
    {
        proof {
            lemma_field_val_bound(self@, 4, 4);
            lemma2_to64();
        }
        let adr = self.value(4, 4) as u8;

        match adr {
            0b0000 => Address::Mode0,
            0b0001 => Address::Mode1,
            0b0010 => Address::Mode2,
            0b0011 => Address::Mode3,
            _ => Address::Unknown,
        }
    }

    /// The trailing 16-bit check value: frame bits 80-95, returned raw and
    /// unvalidated.
    pub fn crc(&self) -> (r: u16)
        requires
            self.wf(),
        ensures
            r as nat == field_val(self@, 80, 16),
    {
        proof {
            lemma_field_val_bound(self@, 80, 16);
            lemma2_to64();
        }
        self.value(80, 16) as u16
    }

    /// Returns the Mode 1 (TOC) view of this frame, present exactly when the
    /// frame's address is Mode 1.
    pub fn as_mode1(&self) -> (r: Option<ChannelQMode1<'_>>)
        requires
            self.wf(),
        ensures
            (r is Some) == (address_of(self@) == Address::Mode1),
            r matches Some(m) ==> m@ == self@ && m.wf(),
    {
        if self.adr() == Address::Mode1 {
            Some(ChannelQMode1(self))
        } else {
            None
        }
    }

    /// Returns the Mode 2 (catalogue number) view of this frame, present
    /// exactly when the frame's address is Mode 2.
    pub fn as_mode2(&self) -> (r: Option<ChannelQMode2<'_>>)
        requires
            self.wf(),
        ensures
            (r is Some) == (address_of(self@) == Address::Mode2),
            r matches Some(m) ==> m@ == self@ && m.wf(),
    {
        if self.adr() == Address::Mode2 {
            Some(ChannelQMode2(self))
        } else {
            None
        }
    }

    /// Returns the Mode 3 (ISRC) view of this frame, present exactly when
    /// the frame's address is Mode 3.
    pub fn as_mode3(&self) -> (r: Option<ChannelQMode3<'_>>)
        requires
            self.wf(),
        ensures
            (r is Some) == (address_of(self@) == Address::Mode3),
            r matches Some(m) ==> m@ == self@ && m.wf(),
    {
        if self.adr() == Address::Mode3 {
            Some(ChannelQMode3(self))
        } else {
            None
        }
    }
}

/// Mode 1 view: TOC/running-time fields, eight two-digit BCD bytes at fixed
/// payload offsets.
pub struct ChannelQMode1<'a>(&'a ChannelQ<'a>);

impl View for ChannelQMode1<'_> {
    type V = Seq<u8>;

    closed spec fn view(&self) -> Seq<u8> {
        self.0@
    }
}

impl<'a> ChannelQMode1<'a> {
    /// The view is over a whole frame whose address field selects Mode 1.
    pub open spec fn wf(&self) -> bool {
        self@.len() == CHANNEL_Q_LEN_SYMBOLS && address_of(self@) == Address::Mode1
    }

    /// The track number: payload bits 0-7 as two-digit BCD.
    pub fn tno(&self) -> (r: u8)
        requires
            self.wf(),
            is_bcd_byte(payload_field(self@, 0, 8)),
        ensures
            r == bcd_decimal(payload_field(self@, 0, 8)),
    {
        proof {
            lemma_field_val_bound(self@, DATA_Q_FIRST + 0, 8);
            lemma2_to64();
        }
        two_digit_bcd_to_decimal(self.0.value_data_q(0, 8) as u8)
    }

    /// The point field: payload bits 8-15 as two-digit BCD (meaningful in the
    /// lead-in area, where the track number is 0; exposed unconditionally).
    pub fn point(&self) -> (r: u8)
        requires
            self.wf(),
            is_bcd_byte(payload_field(self@, 8, 8)),
        ensures
            r == bcd_decimal(payload_field(self@, 8, 8)),
    {
        proof {
            lemma_field_val_bound(self@, DATA_Q_FIRST + 8, 8);
            lemma2_to64();
        }
        two_digit_bcd_to_decimal(self.0.value_data_q(8, 8) as u8)
    }

    /// The running-time minute: payload bits 16-23 as two-digit BCD.
    pub fn min(&self) -> (r: u8)
        requires
            self.wf(),
            is_bcd_byte(payload_field(self@, 16, 8)),
        ensures
            r == bcd_decimal(payload_field(self@, 16, 8)),
    {
        proof {
            lemma_field_val_bound(self@, DATA_Q_FIRST + 16, 8);
            lemma2_to64();
        }
        two_digit_bcd_to_decimal(self.0.value_data_q(16, 8) as u8)
    }

    /// The running-time second: payload bits 24-31 as two-digit BCD.
    pub fn sec(&self) -> (r: u8)
        requires
            self.wf(),
            is_bcd_byte(payload_field(self@, 24, 8)),
        ensures
            r == bcd_decimal(payload_field(self@, 24, 8)),
    {
        proof {
            lemma_field_val_bound(self@, DATA_Q_FIRST + 24, 8);
            lemma2_to64();
        }
        two_digit_bcd_to_decimal(self.0.value_data_q(24, 8) as u8)
    }

    /// The running-time frame: payload bits 32-39 as two-digit BCD.
    pub fn frame(&self) -> (r: u8)
        requires
            self.wf(),
            is_bcd_byte(payload_field(self@, 32, 8)),
        ensures
            r == bcd_decimal(payload_field(self@, 32, 8)),
    {
        proof {
            lemma_field_val_bound(self@, DATA_Q_FIRST + 32, 8);
            lemma2_to64();
        }
        two_digit_bcd_to_decimal(self.0.value_data_q(32, 8) as u8)
    }

    /// The absolute-point minute: payload bits 48-55 as two-digit BCD.
    pub fn a_p_min(&self) -> (r: u8)
        requires
            self.wf(),
            is_bcd_byte(payload_field(self@, 48, 8)),
        ensures
            r == bcd_decimal(payload_field(self@, 48, 8)),
    {
        proof {
            lemma_field_val_bound(self@, DATA_Q_FIRST + 48, 8);
            lemma2_to64();
        }
        two_digit_bcd_to_decimal(self.0.value_data_q(48, 8) as u8)
    }

    /// The absolute-point second: payload bits 56-63 as two-digit BCD.
    pub fn a_p_sec(&self) -> (r: u8)
        requires
            self.wf(),
            is_bcd_byte(payload_field(self@, 56, 8)),
        ensures
            r == bcd_decimal(payload_field(self@, 56, 8)),
    {
        proof {
            lemma_field_val_bound(self@, DATA_Q_FIRST + 56, 8);
            lemma2_to64();
        }
        two_digit_bcd_to_decimal(self.0.value_data_q(56, 8) as u8)
    }

    /// The absolute-point frame: payload bits 64-71 as two-digit BCD.
    pub fn a_p_frame(&self) -> (r: u8)
        requires
            self.wf(),
            is_bcd_byte(payload_field(self@, 64, 8)),
        ensures
            r == bcd_decimal(payload_field(self@, 64, 8)),
    {
        proof {
            lemma_field_val_bound(self@, DATA_Q_FIRST + 64, 8);
            lemma2_to64();
        }
        two_digit_bcd_to_decimal(self.0.value_data_q(64, 8) as u8)
    }
}

/// Every one of the thirteen 4-bit catalogue digit fields is a decimal digit.
pub open spec fn catalogue_valid(bytes: Seq<u8>) -> bool {
    forall|n: int| 0 <= n < 13 ==> #[trigger] payload_field(bytes, 4 * n, 4) <= 9
}

/// The 13-character catalogue number: the thirteen consecutive 4-bit BCD
/// digit fields of the payload, in field order.
pub open spec fn catalogue_string(bytes: Seq<u8>) -> Seq<char> {
    Seq::new(13, |n: int| digit_char(payload_field(bytes, 4 * n, 4)))
}

/// Mode 2 view: the catalogue number, thirteen consecutive 4-bit BCD digits.
pub struct ChannelQMode2<'a>(&'a ChannelQ<'a>);

impl View for ChannelQMode2<'_> {
    type V = Seq<u8>;

    closed spec fn view(&self) -> Seq<u8> {
        self.0@
    }
}

impl<'a> ChannelQMode2<'a> {
    /// The view is over a whole frame whose address field selects Mode 2.
    pub open spec fn wf(&self) -> bool {
        self@.len() == CHANNEL_Q_LEN_SYMBOLS && address_of(self@) == Address::Mode2
    }

    /// Catalogue digit field `n` (fields are numbered 1 to 13): the 4-bit
    /// value at payload bits `(n-1)*4` onward.
    fn field_n(&self, n: usize) -> (r: u8)
        requires
            self.wf(),
            1 <= n <= 13,
        ensures
            r as nat == payload_field(self@, 4 * (n - 1), 4),
            r < 16,
    {
        proof {
            lemma_field_val_bound(self@, DATA_Q_FIRST + 4 * (n - 1), 4);
            lemma2_to64();
        }
        self.0.value_data_q((n - 1) * 4, 4) as u8
    }

    /// The 13-character decimal catalogue number string.
    pub fn catalogue_number(&self) -> (r: String)
        requires
            self.wf(),
            catalogue_valid(self@),
        ensures
            r@ == catalogue_string(self@),
    {
        let mut s = String::new();
        let mut k: usize = 0;
        while k < 13
            invariant
                self.wf(),
                catalogue_valid(self@),
                k <= 13,
                s@ == catalogue_string(self@).subrange(0, k as int),
            decreases 13 - k,
        {
            assert(payload_field(self@, 4 * (k as int), 4) <= 9);
            let d = self.field_n(k + 1);
            let c = bcd_digit_to_char(d);
            crate::push_char(&mut s, c);
            k = k + 1;
            assert(s@ =~= catalogue_string(self@).subrange(0, k as int));
        }
        proof {
            assert(catalogue_string(self@).subrange(0, 13) =~= catalogue_string(self@));
        }
        s
    }
}

/// ISRC field `i` (fields are numbered 1 to 12): fields 1-5 are consecutive
/// 6-bit values from payload bit 0; after a 2-bit gap, fields 6-12 are
/// consecutive 4-bit BCD digits from payload bit 32.
pub open spec fn isrc_field(bytes: Seq<u8>, i: int) -> nat
    recommends
        1 <= i <= 12,
{
    if i <= 5 {
        payload_field(bytes, 6 * (i - 1), 6)
    } else {
        payload_field(bytes, 32 + 4 * (i - 6), 4)
    }
}

/// Fields 1-2 hold six-bit alphabet codes.
pub open spec fn country_valid(bytes: Seq<u8>) -> bool {
    is_six_bit_char(isrc_field(bytes, 1)) && is_six_bit_char(isrc_field(bytes, 2))
}

/// The 2-character country code, from fields 1-2.
pub open spec fn country_string(bytes: Seq<u8>) -> Seq<char> {
    seq![six_bit_char(isrc_field(bytes, 1)), six_bit_char(isrc_field(bytes, 2))]
}

/// Fields 3-5 hold six-bit alphabet codes.
pub open spec fn owner_valid(bytes: Seq<u8>) -> bool {
    is_six_bit_char(isrc_field(bytes, 3)) && is_six_bit_char(isrc_field(bytes, 4))
        && is_six_bit_char(isrc_field(bytes, 5))
}

/// The 3-character owner code, from fields 3-5.
pub open spec fn owner_string(bytes: Seq<u8>) -> Seq<char> {
    seq![
        six_bit_char(isrc_field(bytes, 3)),
        six_bit_char(isrc_field(bytes, 4)),
        six_bit_char(isrc_field(bytes, 5)),
    ]
}

/// Fields 6-7 hold BCD digits.
pub open spec fn year_valid(bytes: Seq<u8>) -> bool {
    isrc_field(bytes, 6) <= 9 && isrc_field(bytes, 7) <= 9
}

/// The 2-digit year, from fields 6-7.
pub open spec fn year_string(bytes: Seq<u8>) -> Seq<char> {
    seq![digit_char(isrc_field(bytes, 6)), digit_char(isrc_field(bytes, 7))]
}

/// Fields 8-12 hold BCD digits.
pub open spec fn serial_valid(bytes: Seq<u8>) -> bool {
    forall|i: int| 8 <= i <= 12 ==> #[trigger] isrc_field(bytes, i) <= 9
}

/// The 5-digit serial number, from fields 8-12.
pub open spec fn serial_string(bytes: Seq<u8>) -> Seq<char> {
    Seq::new(5, |k: int| digit_char(isrc_field(bytes, 8 + k)))
}

/// The 12-character ISRC: country code, owner code, year and serial number
/// concatenated in that order, with no separators.
pub open spec fn isrc_string(bytes: Seq<u8>) -> Seq<char> {
    country_string(bytes) + owner_string(bytes) + year_string(bytes) + serial_string(bytes)
}

/// Mode 3 view: the ISRC, five 6-bit character fields and seven 4-bit BCD
/// digit fields.
pub struct ChannelQMode3<'a>(&'a ChannelQ<'a>);

impl View for ChannelQMode3<'_> {
    type V = Seq<u8>;

    closed spec fn view(&self) -> Seq<u8> {
        self.0@
    }
}

impl<'a> ChannelQMode3<'a> {
    /// The view is over a whole frame whose address field selects Mode 3.
    pub open spec fn wf(&self) -> bool {
        self@.len() == CHANNEL_Q_LEN_SYMBOLS && address_of(self@) == Address::Mode3
    }

    fn field_i(&self, i: usize) -> (r: u8)
        requires
            self.wf(),
            1 <= i <= 12,
        ensures
            r as nat == isrc_field(self@, i as int),
            r < 64,
    {
        if i <= 5 {
            proof {
                lemma_field_val_bound(self@, DATA_Q_FIRST + 6 * (i - 1), 6);
                lemma2_to64();
            }
            self.0.value_data_q((i - 1) * 6, 6) as u8
        } else {
            proof {
                lemma_field_val_bound(self@, DATA_Q_FIRST + 32 + 4 * (i - 6), 4);
                lemma2_to64();
            }
            self.0.value_data_q(5 * 6 + 2 + (i - 6) * 4, 4) as u8
        }
    }

    /// The 2-character country code: fields 1-2 through the six-bit alphabet.
    pub fn country_code(&self) -> (r: String)
        requires
            self.wf(),
            country_valid(self@),
        ensures
            r@ == country_string(self@),
    {
        let mut s = String::new();
        crate::push_char(&mut s, six_bit_char_to_char(self.field_i(1)));
        crate::push_char(&mut s, six_bit_char_to_char(self.field_i(2)));
        proof {
            assert(s@ =~= country_string(self@));
        }
        s
    }

    /// The 3-character owner code: fields 3-5 through the six-bit alphabet.
    pub fn owner_code(&self) -> (r: String)
        requires
            self.wf(),
            owner_valid(self@),
        ensures
            r@ == owner_string(self@),
    {
        let mut s = String::new();
        crate::push_char(&mut s, six_bit_char_to_char(self.field_i(3)));
        crate::push_char(&mut s, six_bit_char_to_char(self.field_i(4)));
        crate::push_char(&mut s, six_bit_char_to_char(self.field_i(5)));
        proof {
            assert(s@ =~= owner_string(self@));
        }
        s
    }

    /// The 2-digit year: fields 6-7 as BCD digits.
    pub fn year(&self) -> (r: String)
        requires
            self.wf(),
            year_valid(self@),
        ensures
            r@ == year_string(self@),
    {
        let mut s = String::new();
        crate::push_char(&mut s, bcd_digit_to_char(self.field_i(6)));
        crate::push_char(&mut s, bcd_digit_to_char(self.field_i(7)));
        proof {
            assert(s@ =~= year_string(self@));
        }
        s
    }

    /// The 5-digit serial number: fields 8-12 as BCD digits.
    pub fn serial_number(&self) -> (r: String)
        requires
            self.wf(),
            serial_valid(self@),
        ensures
            r@ == serial_string(self@),
    {
        let mut s = String::new();
        let mut k: usize = 0;
        while k < 5
            invariant
                self.wf(),
                serial_valid(self@),
                k <= 5,
                s@ == serial_string(self@).subrange(0, k as int),
            decreases 5 - k,
        {
            assert(isrc_field(self@, 8 + k as int) <= 9);
            let c = bcd_digit_to_char(self.field_i(8 + k));
            crate::push_char(&mut s, c);
            k = k + 1;
            assert(s@ =~= serial_string(self@).subrange(0, k as int));
        }
        proof {
            assert(serial_string(self@).subrange(0, 5) =~= serial_string(self@));
        }
        s
    }

    /// The 12-character ISRC: country code, owner code, year and serial
    /// number concatenated in that order.
    pub fn isrc(&self) -> (r: String)
        requires
            self.wf(),
            country_valid(self@),
            owner_valid(self@),
            year_valid(self@),
            serial_valid(self@),
        ensures
            r@ == isrc_string(self@),
    {
        let mut s = self.country_code();
        s.append(self.owner_code().as_str());
        s.append(self.year().as_str());
        s.append(self.serial_number().as_str());
        proof {
            assert(s@ =~= isrc_string(self@));
        }
        s
    }
}

} // verus!
