//! Trusted seams around the content-addressing primitives.

use vstd::prelude::*;

verus! {

/// The SHA-256 digest of a byte sequence, named but not axiomatized: the
/// value is fixed by the input bytes alone.
pub uninterp spec fn sha256_of(bytes: Seq<u8>) -> Seq<u8>;

/// Relies on sha2::Sha256 (via the one-shot `Digest::digest`): the digest is a
/// pure function of the input bytes and is always 32 bytes long.
#[verifier::external_body]
pub(crate) fn sha256(bytes: &[u8]) -> (r: Vec<u8>)
    ensures
        r@ == sha256_of(bytes@),
        r@.len() == 32,
{
    <sha2::Sha256 as sha2::Digest>::digest(bytes).to_vec()
}

/// Lower-case hexadecimal expansion of one byte: two hex digits.
pub open spec fn hex_byte(b: u8) -> Seq<char> {
    seq![hex_digit(b / 16), hex_digit(b % 16)]
}

/// The sixteen lower-case hexadecimal digit characters.
pub open spec fn hex_digit(nibble: u8) -> char
    recommends
        nibble < 16,
{
    seq!['0', '1', '2', '3', '4', '5', '6', '7', '8', '9', 'a', 'b', 'c', 'd', 'e', 'f'][nibble as int]
}

/// Lower-case hexadecimal expansion of a byte sequence.
pub open spec fn hex_of(bytes: Seq<u8>) -> Seq<char>
    decreases bytes.len(),
{
    if bytes.len() == 0 {
        Seq::empty()
    } else {
        hex_byte(bytes[0]) + hex_of(bytes.drop_first())
    }
}

/// Relies on hex::encode: two lower-case hexadecimal digits per input byte,
/// in input order.
#[verifier::external_body]
pub(crate) fn hex_lower(bytes: &[u8]) -> (r: String)
    ensures
        r@ == hex_of(bytes@),
{
    hex::encode(bytes)
}

} // verus!
