//! Decoder for the Q subchannel of a Compact Disc subcode stream.
//!
//! The symbol layer (`subcode`) exposes the eight named bit-planes of a raw
//! subcode byte. The frame layer (`channel_q`) assembles 96 symbols into a
//! 96-bit value (one Q-plane bit per symbol, most significant first) and
//! decodes the control, address and CRC fields, plus the mode-specific
//! payload layouts (TOC timing, catalogue number, ISRC).

use vstd::prelude::*;

pub mod channel_q;
pub mod subcode;

verus! {

/// Relies on `String::push`: appends the given `char` to the end of the string.
#[verifier::external_body]
pub(crate) fn push_char(s: &mut String, c: char)
    ensures
        final(s)@ == old(s)@.push(c),
{
    s.push(c);
}

} // verus!
