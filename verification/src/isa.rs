//! The instruction set of the machine: two registers, sixteen memory cells,
//! and nine kinds of instruction.

use vstd::prelude::*;

verus! {

/// Number of cells in the machine's memory.
pub const MEMORY_CELLS: usize = 16;

/// An index into the machine's memory.
///
/// Any `usize` is a valid `Address`: nothing bounds it when it is built. The
/// encoder keeps its low four bits, and the program image refuses a data
/// directive whose address lies outside the sixteen cells.
#[derive(Clone, Copy, Debug, PartialEq, Eq, Structural)]
pub struct Address(pub usize);

/// One of the machine's two registers.
#[derive(Clone, Copy, Debug, PartialEq, Eq, Structural)]
pub enum Register {
    R0,
    R1,
}

/// Where a `Move` takes its value from.
#[derive(Clone, Copy, Debug, PartialEq, Eq, Structural)]
pub enum Source {
    Register(Register),
    Immediate(u8),
}

/// One instruction, as the parser builds it and as a memory cell holds it.
///
/// `DefineByte` is a directive: it is resolved into a `RawConstant` when it
/// is placed and never rests in a memory cell.
#[derive(Clone, Copy, Debug, PartialEq, Eq, Structural)]
pub enum Instruction {
    Jump(Address),
    Add(Register),
    Multiply(Register),
    BigMultiply,
    Move(Register, Source),
    Load(Register, Address),
    Store(Register, Address),
    DefineByte(Address, u8),
    RawConstant(u8),
}

/// The eight mnemonics of the assembly language.
#[derive(Clone, Copy, Debug, PartialEq, Eq, Structural)]
pub enum Mnemonic {
    J,
    Add,
    Mul,
    BigMul,
    Mov,
    Ld,
    St,
    Db,
}

impl Mnemonic {
    /// The mnemonic as it is written, in lower case.
    pub open spec fn name(self) -> Seq<char> {
        match self {
            Mnemonic::J => seq!['j'],
            Mnemonic::Add => seq!['a', 'd', 'd'],
            Mnemonic::Mul => seq!['m', 'u', 'l'],
            Mnemonic::BigMul => seq!['b', 'i', 'g', 'm', 'u', 'l'],
            Mnemonic::Mov => seq!['m', 'o', 'v'],
            Mnemonic::Ld => seq!['l', 'd'],
            Mnemonic::St => seq!['s', 't'],
            Mnemonic::Db => seq!['d', 'b'],
        }
    }
}

impl Register {
    /// The register's number: 0 for `R0`, 1 for `R1`.
    pub open spec fn index(self) -> u8 {
        match self {
            Register::R0 => 0,
            Register::R1 => 1,
        }
    }

    /// The other register.
    pub open spec fn other(self) -> Register {
        match self {
            Register::R0 => Register::R1,
            Register::R1 => Register::R0,
        }
    }
}

impl Instruction {
    /// True of a directive, which is placed at its own address, and false of
    /// an instruction that is placed at the write cursor.
    pub open spec fn is_directive(self) -> bool {
        self is DefineByte
    }

    /// True of what may rest in a memory cell.
    pub open spec fn is_resident(self) -> bool {
        !(self is DefineByte)
    }
}

} // verus!
