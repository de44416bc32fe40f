//! Strings packed in operand words: bytes taken from each word low byte
//! first, ended by a null byte.
use vstd::prelude::*;
use vstd::utf8::{decode_utf8, valid_utf8};

verus! {

/// Byte `k` (0 to 3, low byte first) of the word `w`.
pub open spec fn byte_of(w: u32, k: u32) -> u8 {
    ((w >> (8 * k)) & 0xFFu32) as u8
}

/// The bytes of a word sequence: four per word, in word order, each word
/// low byte first.
pub open spec fn word_bytes(ws: Seq<u32>) -> Seq<u8> {
    Seq::new((ws.len() * 4) as nat, |i: int| byte_of(ws[i / 4], (i % 4) as u32))
}

/// Whether `p` is the position of the first null byte of `b`.
pub open spec fn nul_at(b: Seq<u8>, p: int) -> bool {
    &&& 0 <= p < b.len()
    &&& b[p] == 0
    &&& forall|j: int| 0 <= j < p ==> b[j] != 0
}

/// Relies on String::from_utf8: it succeeds exactly on valid UTF-8, and the
/// string then holds the characters that the bytes encode.
#[verifier::external_body]
pub(crate) fn string_from_utf8(bytes: Vec<u8>) -> (r: Option<String>)
    ensures
        r is Some <==> valid_utf8(bytes@),
        r is Some ==> r->0@ == decode_utf8(bytes@),
{
    String::from_utf8(bytes).ok()
}

} // verus!
