//! SPIR-V instruction parser.
use crate::error::Error;
use crate::text::{nul_at, string_from_utf8, word_bytes};
use num_traits::FromPrimitive;
use vstd::prelude::*;
use vstd::slice::slice_subrange;
use vstd::utf8::{decode_utf8, valid_utf8};

verus! {

/// Number of header words (magic, version, generator, id bound, schema)
/// that precede the instruction stream.
pub const HEADER_LEN: usize = 5;

/// The word count that a leading word declares: its high 16 bits.
pub open spec fn declared_len(head: u32) -> int {
    (head >> 16u32) as int
}

/// The opcode that a leading word carries: its low 16 bits.
pub open spec fn head_opcode(head: u32) -> u32 {
    head & 0xFFFFu32
}

/// The words that an instruction takes in the stream: its declared count,
/// but never less than its leading word, so that framing always moves on.
pub open spec fn span(head: u32) -> int {
    if declared_len(head) == 0 {
        1
    } else {
        declared_len(head)
    }
}

/// The first instruction of `ws` as (opcode, operand words, words after it),
/// or `None` when no words are left or the leading word declares more words
/// than there are.
pub open spec fn first_instr(ws: Seq<u32>) -> Option<(u32, Seq<u32>, Seq<u32>)> {
    if ws.len() == 0 || declared_len(ws[0]) > ws.len() {
        None
    } else {
        Some((head_opcode(ws[0]), ws.subrange(1, span(ws[0])), ws.subrange(span(ws[0]), ws.len() as int)))
    }
}

/// Every instruction that framing `ws` yields, as (opcode, operand words),
/// in stream order.
pub open spec fn decode(ws: Seq<u32>) -> Seq<(u32, Seq<u32>)>
    decreases ws.len(),
{
    match first_instr(ws) {
        None => Seq::empty(),
        Some((op, ops, rest)) => seq![(op, ops)] + decode(rest),
    }
}

/// What reading one word from the unread words `ws` gives, and the words
/// left unread after it.
pub open spec fn read_word(ws: Seq<u32>) -> (Result<u32, Error>, Seq<u32>) {
    if ws.len() == 0 {
        (Err(Error::InstructionTooShort), ws)
    } else {
        (Ok(ws[0]), ws.drop_first())
    }
}

/// The instruction stream of a module: the words that are still to be framed.
pub struct Instrs<'a>(&'a [u32]);

impl<'a> View for Instrs<'a> {
    type V = Seq<u32>;

    closed spec fn view(&self) -> Seq<u32> {
        self.0@
    }
}

impl<'a> Instrs<'a> {
    /// Frames the words of a module, skipping its header. A buffer too short
    /// to hold a header holds no instruction.
    pub fn new(spv: &'a [u32]) -> (r: Instrs<'a>)
        ensures
            spv@.len() < HEADER_LEN ==> r@ == Seq::<u32>::empty(),
            spv@.len() < HEADER_LEN ==> decode(r@) == Seq::<(u32, Seq<u32>)>::empty(),
            spv@.len() >= HEADER_LEN ==> r@ == spv@.subrange(HEADER_LEN as int, spv@.len() as int),
    {
        if spv.len() < HEADER_LEN {
            let r = Instrs(slice_subrange(spv, 0, 0));
            assert(first_instr(r@) is None);
            return r;
        }
        Instrs(slice_subrange(spv, HEADER_LEN, spv.len()))
    }

    /// Frames the next instruction and moves past it. Yields nothing once no
    /// words are left, or once the next instruction declares more words than
    /// are left; the stream then stays where it is.
    pub fn next(&mut self) -> (r: Option<Instr<'a>>)
        ensures
            match first_instr(old(self)@) {
                None => r is None && final(self)@ == old(self)@,
                Some((op, ops, rest)) => r is Some && r->0@ == (op, ops) && final(self)@ == rest,
            },
            decode(old(self)@) == match r {
                None => Seq::<(u32, Seq<u32>)>::empty(),
                Some(i) => seq![i@] + decode(final(self)@),
            },
    {
        if self.0.len() == 0 {
            return None;
        }
        let head = self.0[0];
        let len = (head >> 16u32) as usize;
        if len > self.0.len() {
            return None;
        }
        let opcode = head & 0xFFFFu32;
        let end: usize = if len == 0 {
            1
        } else {
            len
        };
        assert(head >> 16u32 <= 0xFFFFu32) by (bit_vector);
        assert(head & 0xFFFFu32 <= 0xFFFFu32) by (bit_vector);
        let instr = Instr { opcode, operands: slice_subrange(self.0, 1, end) };
        self.0 = slice_subrange(self.0, end, self.0.len());
        Some(instr)
    }
}

/// One instruction of the stream: its opcode and its operand words.
#[derive(Debug, Clone, Copy)]
pub struct Instr<'a> {
    opcode: u32,
    operands: &'a [u32],
}

impl<'a> View for Instr<'a> {
    type V = (u32, Seq<u32>);

    closed spec fn view(&self) -> (u32, Seq<u32>) {
        (self.opcode, self.operands@)
    }
}

impl<'a> Instr<'a> {
    /// An opcode fits in 16 bits, and so does the word count.
    #[verifier::type_invariant]
    closed spec fn inv(self) -> bool {
        self.opcode <= 0xFFFF && self.operands@.len() < 0xFFFF
    }

    /// Get the opcode of the instruction. It is not checked against any list
    /// of known opcodes, so instructions of unknown extensions frame as well.
    pub fn opcode(&self) -> (r: u32)
        ensures
            r == self@.0,
            r <= 0xFFFF,
    {
        proof {
            use_type_invariant(self);
        }
        self.opcode
    }

    /// Get the word count of the instruction, including the first word
    /// containing the word count and opcode.
    pub fn word_count(&self) -> (r: usize)
        ensures
            r == self@.1.len() + 1,
            r <= 0xFFFF,
    {
        proof {
            use_type_invariant(self);
        }
        self.operands.len() + 1
    }

    /// Get a reader over the operand words, from the first one. Each call
    /// gives a fresh reader.
    pub fn operands(&self) -> (r: Operands<'a>)
        ensures
            r@ == self@.1,
    {
        Operands(self.operands)
    }
}

/// A reader over the operand words of an instruction that are still unread.
pub struct Operands<'a>(&'a [u32]);

impl<'a> View for Operands<'a> {
    type V = Seq<u32>;

    closed spec fn view(&self) -> Seq<u32> {
        self.0@
    }
}

/// Relies on num_traits::FromPrimitive::from_u32: the member of `E` that `n`
/// encodes, if any, as `E`'s own impl decides.
#[verifier::external_body]
fn enum_from_u32<E: FromPrimitive>(n: u32) -> Option<E> {
    E::from_u32(n)
}

/// The result of reading an enumeration, given the member that the read word
/// encodes, if any.
pub fn enum_or_unencoded<E>(member: Option<E>) -> (r: Result<E, Error>)
    ensures
        match member {
            Some(e) => r == Ok::<E, Error>(e),
            None => r == Err::<E, Error>(Error::UnencodedEnum),
        },
{
    match member {
        Some(e) => Ok(e),
        None => Err(Error::UnencodedEnum),
    }
}

impl<'a> Operands<'a> {
    /// Reads one word as a boolean: zero is false, any other value true.
    pub fn read_bool(&mut self) -> (r: Result<bool, Error>)
        ensures
            old(self)@.len() == 0 ==> r == Err::<bool, Error>(Error::InstructionTooShort)
                && final(self)@ == old(self)@,
            old(self)@.len() > 0 ==> r == Ok::<bool, Error>(old(self)@[0] != 0)
                && final(self)@ == old(self)@.drop_first(),
    {
        match self.read_u32() {
            Ok(x) => Ok(x != 0),
            Err(e) => Err(e),
        }
    }

    /// Reads one word.
    pub fn read_u32(&mut self) -> (r: Result<u32, Error>)
        ensures
            (r, final(self)@) == read_word(old(self)@),
    {
        if self.0.len() > 0 {
            let x = self.0[0];
            self.0 = slice_subrange(self.0, 1, self.0.len());
            Ok(x)
        } else {
            Err(Error::InstructionTooShort)
        }
    }

    /// Reads a null-terminated UTF-8 string packed in the words that are
    /// left, four bytes a word, low byte first. The reader moves past the word
    /// that holds the null byte, also when the bytes before it are not UTF-8;
    /// when there is no null byte, or no word at all, it does not move.
    pub fn read_str(&mut self) -> (r: Result<String, Error>)
        ensures
            old(self)@.len() == 0 ==> r == Err::<String, Error>(Error::InstructionTooShort)
                && final(self)@ == old(self)@,
            old(self)@.len() > 0 && !word_bytes(old(self)@).contains(0u8)
                ==> r == Err::<String, Error>(Error::StringNotTerminated) && final(self)@ == old(self)@,
            forall|p: int| #[trigger] nul_at(word_bytes(old(self)@), p) ==> {
                let text = word_bytes(old(self)@).subrange(0, p);
                &&& final(self)@ == old(self)@.subrange(p / 4 + 1, old(self)@.len() as int)
                &&& valid_utf8(text) ==> r is Ok && r->Ok_0@ == decode_utf8(text)
                &&& !valid_utf8(text) ==> r == Err::<String, Error>(Error::StringNotTerminated)
            },
    {
        let ws = self.0;
        if ws.len() == 0 {
            return Err(Error::InstructionTooShort);
        }
        let ghost b = word_bytes(ws@);
        let mut text: Vec<u8> = Vec::new();
        let n = ws.len();
        let mut i: usize = 0;
        while i < n
            invariant
                n == ws@.len(),
                i <= ws@.len(),
                b == word_bytes(ws@),
                self.0@ == ws@,
                old(self)@ == ws@,
                text@ == b.subrange(0, 4 * i as int),
                forall|j: int| 0 <= j < 4 * i ==> b[j] != 0,
            decreases ws.len() - i,
        {
            let w = ws[i];
            let mut k: u32 = 0;
            while k < 4
                invariant
                    i < ws@.len(),
                    n == ws@.len(),
                    k <= 4,
                    w == ws@[i as int],
                    b == word_bytes(ws@),
                    self.0@ == ws@,
                    old(self)@ == ws@,
                    text@ == b.subrange(0, 4 * i + k),
                    forall|j: int| 0 <= j < 4 * i + k ==> b[j] != 0,
                decreases 4 - k,
            {
                assert((w >> (8 * k)) & 0xFFu32 <= 0xFFu32) by (bit_vector);
                let byte = ((w >> (8 * k)) & 0xFFu32) as u8;
                let ghost p: int = 4 * i + k;
                assert(p / 4 == i && p % 4 == k as int) by (nonlinear_arith)
                    requires p == 4 * i + k, 0 <= k < 4;
                assert(b[p] == byte);
                if byte == 0 {
                    assert(nul_at(b, p));
                    assert(b.contains(0u8));
                    assert forall|q: int| nul_at(b, q) implies q == p by {
                        if q < p {
                            assert(b[q] != 0);
                        } else if q > p {
                            assert(b[p] != 0);
                        }
                    }
                    self.0 = slice_subrange(ws, i + 1, n);
                    return match string_from_utf8(text) {
                        Some(s) => Ok(s),
                        None => Err(Error::StringNotTerminated),
                    };
                }
                text.push(byte);
                k = k + 1;
            }
            i = i + 1;
        }
        assert(!b.contains(0u8));
        Err(Error::StringNotTerminated)
    }

    /// Reads one word as a member of the enumeration `E`. The word is
    /// consumed whether or not it names a member.
    pub fn read_enum<E: FromPrimitive>(&mut self) -> (r: Result<E, Error>)
        ensures
            old(self)@.len() == 0 ==> r == Err::<E, Error>(Error::InstructionTooShort)
                && final(self)@ == old(self)@,
            old(self)@.len() > 0 ==> final(self)@ == old(self)@.drop_first()
                && (r is Ok || r == Err::<E, Error>(Error::UnencodedEnum)),
    {
        match self.read_u32() {
            Ok(x) => enum_or_unencoded(enum_from_u32::<E>(x)),
            Err(e) => Err(e),
        }
    }

    /// Reads all the words that are left, and leaves none.
    pub fn read_list(&mut self) -> (r: Result<&'a [u32], Error>)
        ensures
            r is Ok,
            r->Ok_0@ == old(self)@,
            final(self)@ == Seq::<u32>::empty(),
    {
        let rv = self.0;
        self.0 = slice_subrange(rv, rv.len(), rv.len());
        Ok(rv)
    }
}

} // verus!
