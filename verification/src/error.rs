//! What can go wrong while a program is assembled.

use crate::isa::{Address, Mnemonic};
use vstd::prelude::*;
use vstd::string::StringExecFns;

verus! {

/// What a numeric operand field stands for.
#[derive(Clone, Copy, Debug, PartialEq, Eq, Structural)]
pub enum Field {
    /// A memory address, of the width of `usize`.
    Address,
    /// The immediate source of a `MOV`, 0 to 255.
    Immediate,
    /// The byte that a `DB` directive stores, 0 to 255.
    Value,
}

/// What is wrong with the operands of a known mnemonic.
#[derive(Clone, Copy, Debug, PartialEq, Eq, Structural)]
pub enum OperandFault {
    /// The operand string has not the number of fields that the mnemonic
    /// takes.
    FieldCount,
    /// A field that must name a register names none, or the two registers
    /// of a register form are not `r0,r1` or `r1,r0`.
    Registers,
    /// A numeric field is no number, or a number too large for its width.
    Number(Field),
}

/// Why assembly failed.
#[derive(Clone, Debug, PartialEq, Eq)]
pub enum AsmError {
    /// The line's first token is no mnemonic; the token is given as written.
    UnknownMnemonic(String),
    /// The operands do not fit the mnemonic's grammar.
    MalformedOperand(Mnemonic, OperandFault),
    /// An instruction was to be placed at the cursor when all sixteen cells
    /// had been used.
    MemoryOverflow,
    /// A data directive names an address outside the sixteen cells.
    DataOutOfRange(Address),
}

/// The mathematical value of an [`AsmError`]: the same error with the
/// offending token as a sequence of characters.
pub enum ErrorModel {
    UnknownMnemonic(Seq<char>),
    MalformedOperand(Mnemonic, OperandFault),
    MemoryOverflow,
    DataOutOfRange(Address),
}

impl View for AsmError {
    type V = ErrorModel;

    open spec fn view(&self) -> ErrorModel {
        match self {
            AsmError::UnknownMnemonic(token) => ErrorModel::UnknownMnemonic(token@),
            AsmError::MalformedOperand(mnemonic, fault) => ErrorModel::MalformedOperand(
                *mnemonic,
                *fault,
            ),
            AsmError::MemoryOverflow => ErrorModel::MemoryOverflow,
            AsmError::DataOutOfRange(address) => ErrorModel::DataOutOfRange(*address),
        }
    }
}

/// A result with its error, if any, replaced by the error's model.
pub open spec fn outcome<T>(r: Result<T, AsmError>) -> Result<T, ErrorModel> {
    match r {
        Ok(value) => Ok(value),
        Err(error) => Err(error@),
    }
}

impl Mnemonic {
    /// The mnemonic as messages show it, in upper case.
    pub open spec fn label(self) -> Seq<char> {
        match self {
            Mnemonic::J => "J"@,
            Mnemonic::Add => "ADD"@,
            Mnemonic::Mul => "MUL"@,
            Mnemonic::BigMul => "BIGMUL"@,
            Mnemonic::Mov => "MOV"@,
            Mnemonic::Ld => "LD"@,
            Mnemonic::St => "ST"@,
            Mnemonic::Db => "DB"@,
        }
    }

    /// The mnemonic as messages show it, in upper case.
    pub fn as_str(self) -> (text: &'static str)
        ensures
            text@ == self.label(),
    {
        match self {
            Mnemonic::J => "J",
            Mnemonic::Add => "ADD",
            Mnemonic::Mul => "MUL",
            Mnemonic::BigMul => "BIGMUL",
            Mnemonic::Mov => "MOV",
            Mnemonic::Ld => "LD",
            Mnemonic::St => "ST",
            Mnemonic::Db => "DB",
        }
    }
}

impl OperandFault {
    /// How a message about this fault begins; the mnemonic follows.
    pub open spec fn opening(self) -> Seq<char> {
        match self {
            OperandFault::FieldCount => "Wrong number of operands supplied into "@,
            OperandFault::Registers => "Wrong arguments supplied into "@,
            OperandFault::Number(Field::Address) => "Can't parse address supplied into "@,
            OperandFault::Number(Field::Immediate) => "Can't parse immediate value supplied into "@,
            OperandFault::Number(Field::Value) => "Can't parse constant value supplied into "@,
        }
    }

    /// How a message about this fault begins; the mnemonic follows.
    pub fn as_str(self) -> (text: &'static str)
        ensures
            text@ == self.opening(),
    {
        match self {
            OperandFault::FieldCount => "Wrong number of operands supplied into ",
            OperandFault::Registers => "Wrong arguments supplied into ",
            OperandFault::Number(Field::Address) => "Can't parse address supplied into ",
            OperandFault::Number(Field::Immediate) => "Can't parse immediate value supplied into ",
            OperandFault::Number(Field::Value) => "Can't parse constant value supplied into ",
        }
    }
}

impl ErrorModel {
    /// The message that reports the error. It names the unknown token, or
    /// the mnemonic whose operands are at fault.
    pub open spec fn message(self) -> Seq<char> {
        match self {
            ErrorModel::UnknownMnemonic(token) => "Unrecognised instruction: "@ + token,
            ErrorModel::MalformedOperand(mnemonic, fault) => fault.opening() + mnemonic.label()
                + " instruction"@,
            ErrorModel::MemoryOverflow => "Memory overflow"@,
            ErrorModel::DataOutOfRange(_) => "Data address outside memory"@,
        }
    }
}

impl AsmError {
    /// The message that reports the error.
    pub fn message(&self) -> (text: String)
        ensures
            text@ == self@.message(),
    {
        match self {
            AsmError::UnknownMnemonic(token) => {
                let mut text = String::from_str("Unrecognised instruction: ");
                text.append(token.as_str());
                text
            },
            AsmError::MalformedOperand(mnemonic, fault) => {
                let mut text = String::from_str(fault.as_str());
                text.append(mnemonic.as_str());
                text.append(" instruction");
                text
            },
            AsmError::MemoryOverflow => String::from_str("Memory overflow"),
            AsmError::DataOutOfRange(_) => String::from_str("Data address outside memory"),
        }
    }
}

} // verus!
