//! A parser for Dockerfile-like build scripts.
//!
//! [`parse_instruction`] reads one instruction from the front of a text and
//! returns it together with the text that is left, so that a caller walks a
//! whole script by parsing again from each remainder.

pub mod chars;
pub mod error;
pub mod instruction;
pub mod laws;
pub mod parser;
pub mod runs;
pub mod tokens;

pub use error::{ParseError, ParseErrorKind};
pub use instruction::{Dockerfile, From, Instruction, InstructionKind, Run};
pub use parser::parse_instruction;
