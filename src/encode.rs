//! The encoding that framing undoes, and what framing yields on encoded
//! streams.
use crate::error::Error;
use crate::parse::{decode, declared_len, first_instr, head_opcode, read_word, span};
use vstd::prelude::*;

verus! {

/// Whether an instruction, as (opcode, operand words), can be encoded: its
/// opcode and its word count each fit in 16 bits.
pub open spec fn encodable(i: (u32, Seq<u32>)) -> bool {
    i.0 <= 0xFFFF && i.1.len() + 1 <= 0xFFFF
}

/// The leading word of an instruction with opcode `op` and `n` operand
/// words: the word count in the high 16 bits, the opcode in the low ones.
pub open spec fn leading_word(op: u32, n: nat) -> u32 {
    (((n + 1) as u32) << 16u32) | op
}

/// The words of a sequence of instructions, written back to back.
pub open spec fn encode(instrs: Seq<(u32, Seq<u32>)>) -> Seq<u32>
    decreases instrs.len(),
{
    if instrs.len() == 0 {
        Seq::empty()
    } else {
        seq![leading_word(instrs[0].0, instrs[0].1.len())] + instrs[0].1 + encode(instrs.drop_first())
    }
}

/// Whether `t` begins with no whole instruction: it is empty, or its leading
/// word declares more words than it has.
pub open spec fn truncated(t: Seq<u32>) -> bool {
    t.len() == 0 || declared_len(t[0]) > t.len()
}

proof fn lemma_leading_word_fields(op: u32, n: u32)
    requires
        op <= 0xFFFF,
        1 <= n <= 0xFFFF,
    ensures
        ((n << 16u32) | op) >> 16u32 == n,
        ((n << 16u32) | op) & 0xFFFFu32 == op,
{
    assert(((n << 16u32) | op) >> 16u32 == n) by (bit_vector)
        requires op <= 0xFFFF, n <= 0xFFFF;
    assert(((n << 16u32) | op) & 0xFFFFu32 == op) by (bit_vector)
        requires op <= 0xFFFF, n <= 0xFFFF;
}

/// Instructions written back to back and followed by words that begin no
/// whole instruction frame back to exactly those instructions, in order:
/// framing stops, without error, before an instruction whose declared length
/// runs past the end of the stream.
pub proof fn lemma_decode_stops_at_truncation(instrs: Seq<(u32, Seq<u32>)>, t: Seq<u32>)
    requires
        forall|i: int| 0 <= i < instrs.len() ==> encodable(#[trigger] instrs[i]),
        truncated(t),
    ensures
        decode(encode(instrs) + t) == instrs,
    decreases instrs.len(),
{
    if instrs.len() == 0 {
        assert(encode(instrs) + t == t);
        assert(first_instr(t) is None);
    } else {
        let (op, ops) = instrs[0];
        let rest = instrs.drop_first();
        assert(encodable(instrs[0]));
        assert forall|i: int| 0 <= i < rest.len() implies encodable(#[trigger] rest[i]) by {
            assert(rest[i] == instrs[i + 1]);
        }
        lemma_decode_stops_at_truncation(rest, t);
        lemma_leading_word_fields(op, (ops.len() + 1) as u32);
        let head = leading_word(op, ops.len());
        let ws = encode(instrs) + t;
        assert(ws == seq![head] + ops + (encode(rest) + t));
        assert(declared_len(head) == ops.len() + 1);
        assert(head_opcode(head) == op);
        assert(span(head) == ops.len() + 1);
        assert(ws.subrange(1, span(head)) == ops);
        assert(ws.subrange(span(head), ws.len() as int) == encode(rest) + t);
        assert(seq![(op, ops)] + rest == instrs);
    }
}

/// Instructions written back to back frame back to exactly those
/// instructions, in order.
pub proof fn lemma_decode_encode(instrs: Seq<(u32, Seq<u32>)>)
    requires
        forall|i: int| 0 <= i < instrs.len() ==> encodable(#[trigger] instrs[i]),
    ensures
        decode(encode(instrs)) == instrs,
{
    lemma_decode_stops_at_truncation(instrs, Seq::empty());
    assert(encode(instrs) + Seq::<u32>::empty() == encode(instrs));
}

/// An instruction framed from a stream whose leading word declares at least
/// one word has one word more than operand words, and that count is the
/// declared one.
pub proof fn lemma_word_count_is_declared(ws: Seq<u32>)
    requires
        first_instr(ws) is Some,
        declared_len(ws[0]) >= 1,
    ensures
        (first_instr(ws)->0).1.len() + 1 == declared_len(ws[0]),
{
}

/// Once a reader is empty, as after reading the whole tail, every further
/// word read fails with `InstructionTooShort` and leaves it empty.
pub proof fn lemma_empty_reader_too_short()
    ensures
        read_word(Seq::empty()) == (Err::<u32, Error>(Error::InstructionTooShort), Seq::<u32>::empty()),
{
}

} // verus!
