//! Symbol layer: one raw subcode byte and its eight named bit-planes.

use vstd::prelude::*;

verus! {

/// Names for the eight bit-planes of a subcode symbol, most significant
/// (bit 7) first.
#[derive(Debug, Clone, Copy)]
pub enum SubcodeBit {
    P,
    Q,
    R,
    S,
    T,
    U,
    V,
    W,
}

impl SubcodeBit {
    /// The position within the byte that this bit-plane occupies:
    /// P is bit 7 down to W at bit 0.
    pub open spec fn position(self) -> u32 {
        match self {
            SubcodeBit::P => 7,
            SubcodeBit::Q => 6,
            SubcodeBit::R => 5,
            SubcodeBit::S => 4,
            SubcodeBit::T => 3,
            SubcodeBit::U => 2,
            SubcodeBit::V => 1,
            SubcodeBit::W => 0,
        }
    }
}

/// The single bit of `byte` at position `pos`, as 0 or 1.
pub open spec fn bit_of(byte: u8, pos: u32) -> u8
    recommends
        pos < 8,
{
    (byte >> pos) & 1
}

/// One raw subchannel byte.
pub struct SubcodeSymbol(pub u8);

impl SubcodeSymbol {
    /// Retrieves the value of a bit within the subcode symbol, as 0 or 1.
    pub fn get_bit_value(&self, subcode_bit: SubcodeBit) -> (r: u8)
        ensures
            r == bit_of(self.0, subcode_bit.position()),
            r <= 1,
    {
        let bit: u32 = match subcode_bit {
            SubcodeBit::P => 7,
            SubcodeBit::Q => 6,
            SubcodeBit::R => 5,
            SubcodeBit::S => 4,
            SubcodeBit::T => 3,
            SubcodeBit::U => 2,
            SubcodeBit::V => 1,
            SubcodeBit::W => 0,
        };

        let byte = self.0;
        proof {
            assert((byte >> bit) & 1 <= 1) by (bit_vector);
        }
        (byte >> bit) & 1
    }

    /// Retrieves the value of a bit within the subcode symbol, as a bool.
    ///
    /// Returns true for a 1 bit, false for a 0 bit.
    pub fn get_bit(&self, subcode_bit: SubcodeBit) -> (r: bool)
        ensures
            r == (bit_of(self.0, subcode_bit.position()) == 1),
    {
        self.get_bit_value(subcode_bit) == 1
    }

    /// The names of this symbol's set bit-planes, in fixed plane order.
    #[verifier::rlimit(100)]
    fn letters_string(&self) -> (r: String)
        ensures
            r@ == plane_letters(self.0),
    {
        let b = self.0;
        let mut s = String::new();
        if self.get_bit(SubcodeBit::P) {
            crate::push_char(&mut s, 'P');
        }
        let ghost l7 = s@;
        if self.get_bit(SubcodeBit::Q) {
            crate::push_char(&mut s, 'Q');
        }
        let ghost l6 = s@;
        if self.get_bit(SubcodeBit::R) {
            crate::push_char(&mut s, 'R');
        }
        let ghost l5 = s@;
        if self.get_bit(SubcodeBit::S) {
            crate::push_char(&mut s, 'S');
        }
        let ghost l4 = s@;
        if self.get_bit(SubcodeBit::T) {
            crate::push_char(&mut s, 'T');
        }
        let ghost l3 = s@;
        if self.get_bit(SubcodeBit::U) {
            crate::push_char(&mut s, 'U');
        }
        let ghost l2 = s@;
        if self.get_bit(SubcodeBit::V) {
            crate::push_char(&mut s, 'V');
        }
        let ghost l1 = s@;
        if self.get_bit(SubcodeBit::W) {
            crate::push_char(&mut s, 'W');
        }
        proof {
            assert(l7 =~= (if bit_of(b, 7) == 1 {
                seq!['P']
            } else {
                Seq::<char>::empty()
            }));
            assert(l6 =~= l7 + (if bit_of(b, 6) == 1 {
                seq!['Q']
            } else {
                Seq::<char>::empty()
            }));
            assert(l5 =~= l6 + (if bit_of(b, 5) == 1 {
                seq!['R']
            } else {
                Seq::<char>::empty()
            }));
            assert(l4 =~= l5 + (if bit_of(b, 4) == 1 {
                seq!['S']
            } else {
                Seq::<char>::empty()
            }));
            assert(l3 =~= l4 + (if bit_of(b, 3) == 1 {
                seq!['T']
            } else {
                Seq::<char>::empty()
            }));
            assert(l2 =~= l3 + (if bit_of(b, 2) == 1 {
                seq!['U']
            } else {
                Seq::<char>::empty()
            }));
            assert(l1 =~= l2 + (if bit_of(b, 1) == 1 {
                seq!['V']
            } else {
                Seq::<char>::empty()
            }));
            assert(s@ =~= l1 + (if bit_of(b, 0) == 1 {
                seq!['W']
            } else {
                Seq::<char>::empty()
            }));
            assert(s@ =~= plane_letters(b));
        }
        s
    }

    /// Renders the symbol for humans: the raw byte in binary, then the names
    /// of all set bit-planes; the letter suffix is omitted entirely for a
    /// zero byte.
    pub fn debug_string(&self) -> (r: String)
        ensures
            r@ == rendered(self.0),
    {
        let b = self.0;
        let mut s = String::from_str("SubcodeSymbol(0b");
        assert(s@ =~= "SubcodeSymbol(0b"@ + bin_chars(b).subrange(0, 0));
        let mut i: usize = 0;
        while i < 8
            invariant
                b == self.0,
                i <= 8,
                s@ == "SubcodeSymbol(0b"@ + bin_chars(b).subrange(0, i as int),
            decreases 8 - i,
        {
            let pos: u32 = 7 - (i as u32);
            let bit = (b >> pos) & 1;
            let c = if bit == 1 {
                '1'
            } else {
                '0'
            };
            crate::push_char(&mut s, c);
            i = i + 1;
            assert(s@ =~= "SubcodeSymbol(0b"@ + bin_chars(b).subrange(0, i as int));
        }
        assert(s@ =~= "SubcodeSymbol(0b"@ + bin_chars(b));

        if b != 0 {
            crate::push_char(&mut s, ' ');
            s.append(self.letters_string().as_str());
        }
        crate::push_char(&mut s, ')');
        assert(s@ =~= rendered(b));
        s
    }
}

/// The character for a single binary digit.
pub open spec fn bin_char(bit: u8) -> char {
    if bit == 1 {
        '1'
    } else {
        '0'
    }
}

/// The byte's eight binary digits, most significant first.
pub open spec fn bin_chars(b: u8) -> Seq<char> {
    Seq::new(8, |i: int| bin_char(bit_of(b, (7 - i) as u32)))
}

/// The names of the set bit-planes, in fixed P,Q,R,S,T,U,V,W order.
pub open spec fn plane_letters(b: u8) -> Seq<char> {
    (if bit_of(b, 7) == 1 {
        seq!['P']
    } else {
        Seq::<char>::empty()
    }) + (if bit_of(b, 6) == 1 {
        seq!['Q']
    } else {
        Seq::<char>::empty()
    }) + (if bit_of(b, 5) == 1 {
        seq!['R']
    } else {
        Seq::<char>::empty()
    }) + (if bit_of(b, 4) == 1 {
        seq!['S']
    } else {
        Seq::<char>::empty()
    }) + (if bit_of(b, 3) == 1 {
        seq!['T']
    } else {
        Seq::<char>::empty()
    }) + (if bit_of(b, 2) == 1 {
        seq!['U']
    } else {
        Seq::<char>::empty()
    }) + (if bit_of(b, 1) == 1 {
        seq!['V']
    } else {
        Seq::<char>::empty()
    }) + (if bit_of(b, 0) == 1 {
        seq!['W']
    } else {
        Seq::<char>::empty()
    })
}

/// The human-readable rendering of a symbol: the byte in binary, followed by
/// the names of the set bit-planes. A zero byte gets no letter suffix at all
/// (not an empty trailing list), so its rendering is strictly shorter.
pub open spec fn rendered(b: u8) -> Seq<char> {
    "SubcodeSymbol(0b"@ + bin_chars(b) + (if b == 0 {
        seq![')']
    } else {
        seq![' '] + plane_letters(b) + seq![')']
    })
}

/// Law: the eight bit-plane values of a byte, each weighted by its plane's
/// position, reassemble the byte exactly; and every plane's value is 0 or 1,
/// so the boolean reading (value == 1) and the 0/1 reading carry the same
/// information.
pub proof fn lemma_bit_planes_reconstruct(b: u8)
    ensures
        128 * bit_of(b, 7) + 64 * bit_of(b, 6) + 32 * bit_of(b, 5) + 16 * bit_of(b, 4) + 8 * bit_of(
            b,
            3,
        ) + 4 * bit_of(b, 2) + 2 * bit_of(b, 1) + bit_of(b, 0) == b,
        forall|pos: u32| pos < 8 ==> #[trigger] bit_of(b, pos) <= 1,
{
    assert(128 * ((b >> 7) & 1) + 64 * ((b >> 6) & 1) + 32 * ((b >> 5) & 1) + 16 * ((b >> 4) & 1)
        + 8 * ((b >> 3) & 1) + 4 * ((b >> 2) & 1) + 2 * ((b >> 1) & 1) + ((b >> 0) & 1) == b)
        by (bit_vector);
    assert forall|pos: u32| pos < 8 implies #[trigger] bit_of(b, pos) <= 1 by {
        assert((b >> pos) & 1 <= 1) by (bit_vector);
    }
}

} // verus!
