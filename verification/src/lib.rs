//! A single-pass assembler for a toy processor with two registers and
//! sixteen memory cells.
//!
//! A source line is split into a mnemonic and an operand string
//! ([`tokenize`]), parsed into an [`Instruction`] ([`parse_instruction`],
//! [`parse_line`]), placed into a [`ProgramImage`] of sixteen cells
//! ([`ProgramImage::place`]), and finally encoded as one byte per cell
//! ([`encode`], [`output`]). [`assemble`] and [`parse`] run a whole program
//! through the first three steps.
//!
//! Addresses are not checked against the size of the memory when they are
//! parsed. The encoder keeps the low four bits of the address of a jump, a
//! load or a store; a data directive whose address is 16 or more is refused
//! when it is placed.

pub mod assembler;
pub mod encoder;
pub mod error;
pub mod image;
pub mod isa;
pub mod lexer;
pub mod number;
pub mod parser;

pub use assembler::{assemble, parse};
pub use encoder::{encode, encode_image, output, render_hex};
pub use error::{AsmError, Field, OperandFault};
pub use image::ProgramImage;
pub use isa::{Address, Instruction, Mnemonic, Register, Source, MEMORY_CELLS};
pub use lexer::tokenize;
pub use parser::{parse_instruction, parse_line};
