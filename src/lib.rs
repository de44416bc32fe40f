//! Framing of a SPIR-V word stream into instructions, and typed reads of
//! instruction operands.
pub mod encode;
pub mod error;
pub mod parse;
pub mod text;

pub use error::Error;
pub use parse::{Instr, Instrs, Operands};
