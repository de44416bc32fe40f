use num_traits::FromPrimitive;
use spirq::parse::enum_or_unencoded;
use spirq::{Error, Instr, Instrs, Operands};

const HEADER: [u32; 5] = [0x0723_0203, 0x0001_0000, 0, 16, 0];

fn module(body: &[u32]) -> Vec<u32> {
    let mut words = HEADER.to_vec();
    words.extend_from_slice(body);
    words
}

fn all_instrs(words: &[u32]) -> Vec<Instr<'_>> {
    let mut instrs = Instrs::new(words);
    let mut out = Vec::new();
    while let Some(instr) = instrs.next() {
        out.push(instr);
    }
    out
}

/// Runs `f` on a reader over the given operand words, framed from a module
/// of one instruction.
fn with_operands<R>(words: &[u32], f: impl FnOnce(&mut Operands<'_>) -> R) -> R {
    let mut body = vec![(((words.len() + 1) as u32) << 16) | 1];
    body.extend_from_slice(words);
    let m = module(&body);
    let instrs = all_instrs(&m);
    assert_eq!(instrs.len(), 1);
    let mut ops = instrs[0].operands();
    f(&mut ops)
}

#[derive(Debug, PartialEq)]
enum Dim {
    One,
    Two,
    Three,
}

impl FromPrimitive for Dim {
    fn from_i64(n: i64) -> Option<Dim> {
        if n < 0 {
            None
        } else {
            Dim::from_u64(n as u64)
        }
    }

    fn from_u64(n: u64) -> Option<Dim> {
        match n {
            0 => Some(Dim::One),
            1 => Some(Dim::Two),
            2 => Some(Dim::Three),
            _ => None,
        }
    }
}

#[test]
fn short_buffers_have_no_instructions() {
    for n in 0..5 {
        let words = vec![(2u32 << 16) | 7; n];
        assert!(Instrs::new(&words).next().is_none());
    }
}

#[test]
fn header_alone_has_no_instructions() {
    assert!(Instrs::new(&HEADER).next().is_none());
}

#[test]
fn back_to_back_instructions_frame_in_order() {
    let m = module(&[(3 << 16) | 17, 10, 20, (1 << 16) | 253, (2 << 16) | 5, 99]);
    let instrs = all_instrs(&m);
    assert_eq!(instrs.len(), 3);
    assert_eq!(instrs[0].opcode(), 17);
    assert_eq!(instrs[0].operands().read_list().unwrap(), &[10, 20]);
    assert_eq!(instrs[1].opcode(), 253);
    assert_eq!(instrs[1].operands().read_list().unwrap(), &[] as &[u32]);
    assert_eq!(instrs[2].opcode(), 5);
    assert_eq!(instrs[2].operands().read_list().unwrap(), &[99]);
}

#[test]
fn word_count_is_declared_length() {
    let m = module(&[(4 << 16) | 0xFFFF, 1, 2, 3, (1 << 16) | 56]);
    let instrs = all_instrs(&m);
    assert_eq!(instrs.len(), 2);
    assert_eq!(instrs[0].word_count(), 4);
    assert_eq!(instrs[0].opcode(), 0xFFFF);
    assert_eq!(instrs[1].word_count(), 1);
    assert_eq!(instrs[1].opcode(), 56);
}

#[test]
fn truncated_final_instruction_ends_the_stream() {
    let m = module(&[(2 << 16) | 3, 7, (5 << 16) | 4, 1, 2]);
    let mut instrs = Instrs::new(&m);
    let first = instrs.next().unwrap();
    assert_eq!(first.opcode(), 3);
    assert!(instrs.next().is_none());
    assert!(instrs.next().is_none());
}

#[test]
fn instruction_filling_the_rest_is_the_last() {
    let m = module(&[(3 << 16) | 9, 1, 2]);
    let mut instrs = Instrs::new(&m);
    assert_eq!(instrs.next().unwrap().word_count(), 3);
    assert!(instrs.next().is_none());
}

#[test]
fn zero_declared_length_has_no_operands() {
    let m = module(&[12, (1 << 16) | 13]);
    let instrs = all_instrs(&m);
    assert_eq!(instrs.len(), 2);
    assert_eq!(instrs[0].opcode(), 12);
    assert_eq!(instrs[0].word_count(), 1);
    assert_eq!(instrs[1].opcode(), 13);
}

#[test]
fn operands_can_be_read_again() {
    let m = module(&[(2 << 16) | 1, 42]);
    let instrs = all_instrs(&m);
    assert_eq!(instrs[0].operands().read_u32(), Ok(42));
    assert_eq!(instrs[0].operands().read_u32(), Ok(42));
}

#[test]
fn read_u32_on_empty_is_too_short() {
    with_operands(&[], |ops| {
        assert_eq!(ops.read_u32(), Err(Error::InstructionTooShort));
    });
}

#[test]
fn read_u32_takes_the_last_word() {
    with_operands(&[0xDEAD_BEEF], |ops| {
        assert_eq!(ops.read_u32(), Ok(0xDEAD_BEEF));
        assert_eq!(ops.read_list().unwrap(), &[] as &[u32]);
    });
}

#[test]
fn read_bool_maps_zero_and_nonzero() {
    with_operands(&[0, 1, 0xFFFF_FFFF], |ops| {
        assert_eq!(ops.read_bool(), Ok(false));
        assert_eq!(ops.read_bool(), Ok(true));
        assert_eq!(ops.read_bool(), Ok(true));
        assert_eq!(ops.read_bool(), Err(Error::InstructionTooShort));
    });
}

#[test]
fn read_str_ok_takes_one_word() {
    with_operands(&[0x0000_4B4F, 77], |ops| {
        assert_eq!(ops.read_str(), Ok("OK".to_string()));
        assert_eq!(ops.read_u32(), Ok(77));
    });
}

#[test]
fn read_str_spans_words() {
    // "hello" then a null: 6 bytes, two words.
    with_operands(&[0x6C6C_6568, 0x0000_006F, 5], |ops| {
        assert_eq!(ops.read_str(), Ok("hello".to_string()));
        assert_eq!(ops.read_u32(), Ok(5));
    });
}

#[test]
fn read_str_null_in_last_byte_takes_that_word() {
    // "abc" and a null fill exactly one word.
    with_operands(&[0x0063_6261, 8], |ops| {
        assert_eq!(ops.read_str(), Ok("abc".to_string()));
        assert_eq!(ops.read_u32(), Ok(8));
    });
}

#[test]
fn read_str_empty_string() {
    with_operands(&[0, 3], |ops| {
        assert_eq!(ops.read_str(), Ok(String::new()));
        assert_eq!(ops.read_u32(), Ok(3));
    });
}

#[test]
fn read_str_without_null_is_not_terminated() {
    with_operands(&[0x4141_4141, 0x0101_0101], |ops| {
        assert_eq!(ops.read_str(), Err(Error::StringNotTerminated));
        assert_eq!(ops.read_u32(), Ok(0x4141_4141));
    });
}

#[test]
fn read_str_on_empty_is_too_short() {
    with_operands(&[], |ops| {
        assert_eq!(ops.read_str(), Err(Error::InstructionTooShort));
    });
}

#[test]
fn read_str_after_read_list_is_too_short() {
    with_operands(&[0x0000_4B4F], |ops| {
        assert_eq!(ops.read_list().unwrap(), &[0x0000_4B4F]);
        assert_eq!(ops.read_str(), Err(Error::InstructionTooShort));
    });
}

#[test]
fn read_str_invalid_utf8_is_not_terminated_and_moves_on() {
    with_operands(&[0x0000_FFC3, 6], |ops| {
        assert_eq!(ops.read_str(), Err(Error::StringNotTerminated));
        assert_eq!(ops.read_u32(), Ok(6));
    });
}

#[test]
fn read_str_multibyte_utf8() {
    // "é" is C3 A9.
    with_operands(&[0x0000_A9C3], |ops| {
        assert_eq!(ops.read_str(), Ok("é".to_string()));
        assert_eq!(ops.read_u32(), Err(Error::InstructionTooShort));
    });
}

#[test]
fn read_list_takes_everything() {
    with_operands(&[4, 5, 6], |ops| {
        assert_eq!(ops.read_u32(), Ok(4));
        assert_eq!(ops.read_list().unwrap(), &[5, 6]);
        assert_eq!(ops.read_list().unwrap(), &[] as &[u32]);
        assert_eq!(ops.read_u32(), Err(Error::InstructionTooShort));
        assert_eq!(ops.read_bool(), Err(Error::InstructionTooShort));
        assert_eq!(ops.read_enum::<Dim>(), Err(Error::InstructionTooShort));
        assert_eq!(ops.read_str(), Err(Error::InstructionTooShort));
    });
}

#[test]
fn read_enum_known_value() {
    with_operands(&[1, 2], |ops| {
        assert_eq!(ops.read_enum::<Dim>(), Ok(Dim::Two));
        assert_eq!(ops.read_enum::<Dim>(), Ok(Dim::Three));
    });
}

#[test]
fn read_enum_unknown_value_still_consumes() {
    with_operands(&[9, 0], |ops| {
        assert_eq!(ops.read_enum::<Dim>(), Err(Error::UnencodedEnum));
        assert_eq!(ops.read_u32(), Ok(0));
    });
}

#[test]
fn read_enum_of_primitive() {
    with_operands(&[300, 200], |ops| {
        assert_eq!(ops.read_enum::<u8>(), Err(Error::UnencodedEnum));
        assert_eq!(ops.read_enum::<u8>(), Ok(200u8));
    });
}

#[test]
fn enum_or_unencoded_maps_member() {
    assert_eq!(enum_or_unencoded(Some(Dim::One)), Ok(Dim::One));
    assert_eq!(enum_or_unencoded::<Dim>(None), Err(Error::UnencodedEnum));
}
