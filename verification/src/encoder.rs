//! The encoder: each memory cell becomes one byte, and the sixteen bytes
//! become a line of hexadecimal text.
//!
//! | Instruction        | Byte                                          |
//! |--------------------|-----------------------------------------------|
//! | `Jump(a)`          | `0000_0000 \| a`, low four bits of `a`          |
//! | `BigMultiply`      | `0001_0000`                                   |
//! | `Add(r)`           | `0010_0000` for `R0`, `0011_0000` for `R1`    |
//! | `Multiply(r)`      | `0100_0000` for `R0`, `0101_0000` for `R1`    |
//! | `Move(r, s)`       | `1000_0000 \| r << 4 \| s`                      |
//! | `Load(r, a)`       | `1100_0000 \| r << 4 \| a`, low four bits of `a` |
//! | `Store(r, a)`      | `1110_0000 \| r << 4 \| a`, low four bits of `a` |
//! | `RawConstant(v)`   | `v`                                           |
//!
//! In a `Move`, `s` is `0010_0000` for a register source and the immediate
//! value itself for an immediate source; an immediate of 32 or more reaches
//! into the bits of the register and of the opcode.

use crate::isa::{Address, Instruction, Register, Source};
use vstd::prelude::*;
use vstd::string::StringExecFns;

verus! {

/// The low four bits of an address.
pub open spec fn address_bits(address: Address) -> u8 {
    (address.0 % 16) as u8
}

/// The operand field of a `Move`.
pub open spec fn source_bits(source: Source) -> u8 {
    match source {
        Source::Register(_) => 0x20,
        Source::Immediate(value) => value,
    }
}

/// The byte that encodes `instruction`. A directive has no encoding.
pub open spec fn encoding(instruction: Instruction) -> u8
    recommends
        instruction.is_resident(),
{
    match instruction {
        Instruction::Jump(address) => address_bits(address),
        Instruction::BigMultiply => 0x10,
        Instruction::Add(Register::R0) => 0x20,
        Instruction::Add(Register::R1) => 0x30,
        Instruction::Multiply(Register::R0) => 0x40,
        Instruction::Multiply(Register::R1) => 0x50,
        Instruction::Move(register, source) => 0x80u8 | (register.index() << 4) | source_bits(
            source,
        ),
        Instruction::Load(register, address) => 0xC0u8 | (register.index() << 4) | address_bits(
            address,
        ),
        Instruction::Store(register, address) => 0xE0u8 | (register.index() << 4) | address_bits(
            address,
        ),
        Instruction::RawConstant(value) => value,
        Instruction::DefineByte(_, _) => arbitrary(),
    }
}

/// The bytes that encode `cells`, cell by cell.
pub open spec fn encoded(cells: Seq<Instruction>) -> Seq<u8> {
    Seq::new(cells.len(), |i: int| encoding(cells[i]))
}

/// True when none of `cells` holds a directive.
pub open spec fn all_resident(cells: Seq<Instruction>) -> bool {
    forall|i: int| 0 <= i < cells.len() ==> (#[trigger] cells[i]).is_resident()
}

/// The sixteen hexadecimal digits, in upper case.
pub open spec fn hex_digits() -> Seq<char> {
    seq!['0', '1', '2', '3', '4', '5', '6', '7', '8', '9', 'A', 'B', 'C', 'D', 'E', 'F']
}

/// The two hexadecimal digits of `byte`, the high one first.
pub open spec fn hex_pair(byte: u8) -> Seq<char> {
    seq![hex_digits()[byte as int / 16], hex_digits()[byte as int % 16]]
}

/// The bytes as two hexadecimal digits each, with a comma between one byte
/// and the next.
pub open spec fn hex_list(bytes: Seq<u8>) -> Seq<char>
    decreases bytes.len(),
{
    if bytes.len() == 0 {
        Seq::empty()
    } else if bytes.len() == 1 {
        hex_pair(bytes[0])
    } else {
        hex_list(bytes.drop_last()) + seq![','] + hex_pair(bytes.last())
    }
}

/// A list of n bytes, n at least 1, takes 3 n - 1 characters.
pub proof fn lemma_hex_list_len(bytes: Seq<u8>)
    ensures
        hex_list(bytes).len() == if bytes.len() == 0 {
            0
        } else {
            3 * bytes.len() - 1
        },
    decreases bytes.len(),
{
    if bytes.len() > 1 {
        lemma_hex_list_len(bytes.drop_last());
    }
}

impl Register {
    /// The register's number: 0 for `R0`, 1 for `R1`.
    pub fn number(self) -> (n: u8)
        ensures
            n == self.index(),
    {
        match self {
            Register::R0 => 0,
            Register::R1 => 1,
        }
    }
}

/// Encodes one instruction as its byte.
pub fn encode(instruction: Instruction) -> (byte: u8)
    requires
        instruction.is_resident(),
    ensures
        byte == encoding(instruction),
{
    match instruction {
        Instruction::Jump(address) => (address.0 % 16) as u8,
        Instruction::BigMultiply => 0x10,
        Instruction::Add(Register::R0) => 0x20,
        Instruction::Add(Register::R1) => 0x30,
        Instruction::Multiply(Register::R0) => 0x40,
        Instruction::Multiply(Register::R1) => 0x50,
        Instruction::Move(register, source) => {
            let operand = match source {
                Source::Register(_) => 0x20,
                Source::Immediate(value) => value,
            };
            0x80u8 | (register.number() << 4) | operand
        },
        Instruction::Load(register, address) => 0xC0u8 | (register.number() << 4) | (address.0
            % 16) as u8,
        Instruction::Store(register, address) => 0xE0u8 | (register.number() << 4) | (address.0
            % 16) as u8,
        Instruction::RawConstant(value) => value,
        Instruction::DefineByte(_, _) => 0,
    }
}

/// Encodes the sixteen cells of an image as sixteen bytes.
pub fn encode_image(cells: &[Instruction; 16]) -> (bytes: [u8; 16])
    requires
        all_resident(cells@),
    ensures
        bytes@ == encoded(cells@),
{
    let mut bytes = [0u8;16];
    let mut i: usize = 0;
    while i < 16
        invariant
            i <= 16,
            all_resident(cells@),
            forall|j: int| 0 <= j < i ==> bytes@[j] == encoding(cells@[j]),
        decreases 16 - i,
    {
        bytes[i] = encode(cells[i]);
        i += 1;
    }
    assert(bytes@ =~= encoded(cells@));
    bytes
}

/// The hexadecimal digit of a number below 16, as a string.
fn hex_digit(n: u8) -> (digit: &'static str)
    requires
        n < 16,
    ensures
        digit@ == seq![hex_digits()[n as int]],
{
    proof {
        reveal_strlit("0");
        reveal_strlit("1");
        reveal_strlit("2");
        reveal_strlit("3");
        reveal_strlit("4");
        reveal_strlit("5");
        reveal_strlit("6");
        reveal_strlit("7");
        reveal_strlit("8");
        reveal_strlit("9");
        reveal_strlit("A");
        reveal_strlit("B");
        reveal_strlit("C");
        reveal_strlit("D");
        reveal_strlit("E");
        reveal_strlit("F");
    }
    let digit = match n {
        0 => "0",
        1 => "1",
        2 => "2",
        3 => "3",
        4 => "4",
        5 => "5",
        6 => "6",
        7 => "7",
        8 => "8",
        9 => "9",
        10 => "A",
        11 => "B",
        12 => "C",
        13 => "D",
        14 => "E",
        _ => "F",
    };
    assert(digit@ =~= seq![hex_digits()[n as int]]);
    digit
}

/// Writes bytes as two upper-case hexadecimal digits each, joined with
/// commas.
pub fn render_hex(bytes: &[u8]) -> (text: String)
    ensures
        text@ == hex_list(bytes@),
{
    let mut text = String::new();
    let mut i: usize = 0;
    assert(bytes@.take(0) =~= Seq::<u8>::empty());
    while i < bytes.len()
        invariant
            i <= bytes@.len(),
            text@ == hex_list(bytes@.take(i as int)),
        decreases bytes@.len() - i,
    {
        let byte = bytes[i];
        proof {
            reveal_strlit(",");
            let next = bytes@.take(i + 1);
            assert(next.drop_last() =~= bytes@.take(i as int));
            assert(next.last() == byte);
            assert(next[0] == bytes@[0]);
        }
        if i > 0 {
            text.append(",");
        }
        text.append(hex_digit(byte / 16));
        text.append(hex_digit(byte % 16));
        assert(text@ =~= hex_list(bytes@.take(i + 1)));
        i += 1;
    }
    assert(bytes@.take(i as int) =~= bytes@);
    text
}

/// The machine image of sixteen cells as text: the sixteen bytes of the
/// cells, each as two upper-case hexadecimal digits, joined with commas.
pub fn output(instructions: [Instruction; 16]) -> (text: String)
    requires
        all_resident(instructions@),
    ensures
        text@ == hex_list(encoded(instructions@)),
        text@.len() == 47,
{
    let bytes = encode_image(&instructions);
    proof {
        lemma_hex_list_len(encoded(instructions@));
    }
    render_hex(bytes.as_slice())
}

} // verus!
