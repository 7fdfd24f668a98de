//! The instruction parser: a mnemonic and an operand string become one
//! instruction.
//!
//! Mnemonics are matched without regard to the case of the letters `A` to
//! `Z`. The operand string is split at each comma into fields; register
//! names are `r0` and `r1`, in lower case.

use crate::error::{outcome, AsmError, ErrorModel, Field, OperandFault};
use crate::isa::{Address, Instruction, Mnemonic, Register, Source};
use crate::lexer::{
    chars_of, is_space, lemma_inserted_space_is_ignored, mnemonic_end, mnemonic_of, mnemonic_start,
    operands_of, tokenize,
};
use crate::number::{bounded_value, parse_bounded};
use vstd::prelude::*;
use vstd::slice::slice_subrange;
use vstd::string::StrSliceExecFns;
use vstd::string::StringExecFns;

verus! {

/// `c` in lower case if it is one of the letters `A` to `Z`, else `c`.
pub open spec fn fold_case(c: char) -> char {
    if 'A' <= c <= 'Z' {
        ((c as u8) + 32) as u8 as char
    } else {
        c
    }
}

/// `s` with each of its characters in lower case.
pub open spec fn folded(s: Seq<char>) -> Seq<char> {
    Seq::new(s.len(), |i: int| fold_case(s[i]))
}

/// The mnemonic that the token `m` spells, whatever the case of its
/// letters.
pub open spec fn mnemonic_kind(m: Seq<char>) -> Option<Mnemonic> {
    let f = folded(m);
    if f == Mnemonic::J.name() {
        Some(Mnemonic::J)
    } else if f == Mnemonic::Add.name() {
        Some(Mnemonic::Add)
    } else if f == Mnemonic::Mul.name() {
        Some(Mnemonic::Mul)
    } else if f == Mnemonic::BigMul.name() {
        Some(Mnemonic::BigMul)
    } else if f == Mnemonic::Mov.name() {
        Some(Mnemonic::Mov)
    } else if f == Mnemonic::Ld.name() {
        Some(Mnemonic::Ld)
    } else if f == Mnemonic::St.name() {
        Some(Mnemonic::St)
    } else if f == Mnemonic::Db.name() {
        Some(Mnemonic::Db)
    } else {
        None
    }
}

/// The first index at or after `from` that holds a comma, or the length of
/// `s` if no comma follows.
pub open spec fn next_comma(s: Seq<char>, from: int) -> int
    decreases s.len() - from,
{
    if 0 <= from < s.len() && s[from] != ',' {
        next_comma(s, from + 1)
    } else {
        from
    }
}

/// The fields of `s` that begin at or after `from`, where `from` is the
/// beginning of a field.
pub open spec fn fields_from(s: Seq<char>, from: int) -> Seq<Seq<char>>
    decreases s.len() - from,
{
    let comma = next_comma(s, from);
    if 0 <= from <= comma < s.len() {
        seq![s.subrange(from, comma)] + fields_from(s, comma + 1)
    } else {
        seq![s.subrange(from, s.len() as int)]
    }
}

/// The fields of `s`: the pieces between its commas, in order. A string
/// with n commas has n + 1 fields, and the empty string has one empty field.
pub open spec fn split_fields(s: Seq<char>) -> Seq<Seq<char>> {
    fields_from(s, 0)
}

/// The register that the field `f` names.
pub open spec fn register_of(f: Seq<char>) -> Option<Register> {
    if f == seq!['r', '0'] {
        Some(Register::R0)
    } else if f == seq!['r', '1'] {
        Some(Register::R1)
    } else {
        None
    }
}

/// The address that the field `f` holds.
pub open spec fn address_of(f: Seq<char>) -> Option<Address> {
    match bounded_value(f, usize::MAX as nat) {
        Some(n) => Some(Address(n as usize)),
        None => None,
    }
}

/// The byte that the field `f` holds.
pub open spec fn byte_of(f: Seq<char>) -> Option<u8> {
    match bounded_value(f, u8::MAX as nat) {
        Some(n) => Some(n as u8),
        None => None,
    }
}

/// The first register of the two-register form `r0,r1` or `r1,r0`.
pub open spec fn register_pair(f: Seq<Seq<char>>) -> Result<Register, OperandFault> {
    if f.len() != 2 {
        Err(OperandFault::FieldCount)
    } else {
        match (register_of(f[0]), register_of(f[1])) {
            (Some(first), Some(second)) => if first != second {
                Ok(first)
            } else {
                Err(OperandFault::Registers)
            },
            _ => Err(OperandFault::Registers),
        }
    }
}

/// The register and the address of the form `r0,<addr>` or `r1,<addr>`.
pub open spec fn register_and_address(f: Seq<Seq<char>>) -> Result<
    (Register, Address),
    OperandFault,
> {
    if f.len() != 2 {
        Err(OperandFault::FieldCount)
    } else {
        match register_of(f[0]) {
            None => Err(OperandFault::Registers),
            Some(register) => match address_of(f[1]) {
                None => Err(OperandFault::Number(Field::Address)),
                Some(address) => Ok((register, address)),
            },
        }
    }
}

/// The destination and the source of a `MOV`: `r0,r1` or `r1,r0`, or a
/// register and an immediate value.
pub open spec fn move_operands(f: Seq<Seq<char>>) -> Result<(Register, Source), OperandFault> {
    if f.len() != 2 {
        Err(OperandFault::FieldCount)
    } else {
        match register_of(f[0]) {
            None => Err(OperandFault::Registers),
            Some(destination) => match register_of(f[1]) {
                Some(source) => if source != destination {
                    Ok((destination, Source::Register(source)))
                } else {
                    Err(OperandFault::Registers)
                },
                None => match byte_of(f[1]) {
                    None => Err(OperandFault::Number(Field::Immediate)),
                    Some(value) => Ok((destination, Source::Immediate(value))),
                },
            },
        }
    }
}

/// The instruction that the mnemonic `kind` makes of the operand string
/// `operands`, or what is wrong with the operands.
pub open spec fn operands_model(kind: Mnemonic, operands: Seq<char>) -> Result<
    Instruction,
    OperandFault,
> {
    let f = split_fields(operands);
    match kind {
        Mnemonic::J => if f.len() != 1 {
            Err(OperandFault::FieldCount)
        } else {
            match address_of(f[0]) {
                None => Err(OperandFault::Number(Field::Address)),
                Some(address) => Ok(Instruction::Jump(address)),
            }
        },
        Mnemonic::Add => match register_pair(f) {
            Ok(register) => Ok(Instruction::Add(register)),
            Err(fault) => Err(fault),
        },
        Mnemonic::Mul => match register_pair(f) {
            Ok(register) => Ok(Instruction::Multiply(register)),
            Err(fault) => Err(fault),
        },
        Mnemonic::BigMul => if operands.len() == 0 {
            Ok(Instruction::BigMultiply)
        } else {
            Err(OperandFault::FieldCount)
        },
        Mnemonic::Mov => match move_operands(f) {
            Ok((destination, source)) => Ok(Instruction::Move(destination, source)),
            Err(fault) => Err(fault),
        },
        Mnemonic::Ld => match register_and_address(f) {
            Ok((register, address)) => Ok(Instruction::Load(register, address)),
            Err(fault) => Err(fault),
        },
        Mnemonic::St => match register_and_address(f) {
            Ok((register, address)) => Ok(Instruction::Store(register, address)),
            Err(fault) => Err(fault),
        },
        Mnemonic::Db => if f.len() != 2 {
            Err(OperandFault::FieldCount)
        } else {
            match address_of(f[0]) {
                None => Err(OperandFault::Number(Field::Address)),
                Some(address) => match byte_of(f[1]) {
                    None => Err(OperandFault::Number(Field::Value)),
                    Some(value) => Ok(Instruction::DefineByte(address, value)),
                },
            }
        },
    }
}

/// The instruction that a mnemonic token and an operand string denote, or
/// the error that they are refused with.
pub open spec fn instruction_model(mnemonic: Seq<char>, operands: Seq<char>) -> Result<
    Instruction,
    ErrorModel,
> {
    match mnemonic_kind(mnemonic) {
        None => Err(ErrorModel::UnknownMnemonic(mnemonic)),
        Some(kind) => match operands_model(kind, operands) {
            Ok(instruction) => Ok(instruction),
            Err(fault) => Err(ErrorModel::MalformedOperand(kind, fault)),
        },
    }
}

/// What a source line denotes: nothing if it has no token, else the
/// instruction of its mnemonic and operand string.
pub open spec fn line_model(line: Seq<char>) -> Result<Option<Instruction>, ErrorModel> {
    if mnemonic_of(line).len() == 0 {
        Ok(None)
    } else {
        match instruction_model(mnemonic_of(line), operands_of(line)) {
            Ok(instruction) => Ok(Some(instruction)),
            Err(error) => Err(error),
        }
    }
}

/// The case of a mnemonic's letters does not matter: two tokens that are
/// the same in lower case spell the same mnemonic, and with the same
/// operands they denote the same instruction or fail with the same fault.
pub proof fn lemma_case_is_ignored(a: Seq<char>, b: Seq<char>, operands: Seq<char>)
    requires
        folded(a) == folded(b),
    ensures
        mnemonic_kind(a) == mnemonic_kind(b),
        mnemonic_kind(a) is Some ==> instruction_model(a, operands) == instruction_model(
            b,
            operands,
        ),
        instruction_model(a, operands) is Ok <==> instruction_model(b, operands) is Ok,
{
}

/// Two lines whose mnemonics are the same in lower case and whose operand
/// strings are the same denote the same: nothing, or the same instruction.
pub proof fn lemma_line_case_is_ignored(a: Seq<char>, b: Seq<char>)
    requires
        folded(mnemonic_of(a)) == folded(mnemonic_of(b)),
        operands_of(a) == operands_of(b),
    ensures
        line_model(a) is Ok <==> line_model(b) is Ok,
        line_model(a) is Ok ==> line_model(a) == line_model(b),
{
    assert(folded(mnemonic_of(a)).len() == mnemonic_of(a).len());
    assert(folded(mnemonic_of(b)).len() == mnemonic_of(b).len());
    lemma_case_is_ignored(mnemonic_of(a), mnemonic_of(b), operands_of(a));
}

/// A token spells the mnemonic that it spells in lower case.
pub proof fn lemma_lower_case_spells_the_same(m: Seq<char>)
    ensures
        folded(folded(m)) == folded(m),
        mnemonic_kind(folded(m)) == mnemonic_kind(m),
{
    assert(folded(folded(m)) =~= folded(m));
}

/// Whitespace around and within the operands does not matter: a whitespace
/// character put anywhere into a line, except inside its mnemonic, does not
/// change what the line denotes.
pub proof fn lemma_spaces_do_not_matter(line: Seq<char>, at: int, space: char)
    requires
        0 <= at <= line.len(),
        is_space(space),
        at <= mnemonic_start(line) || mnemonic_end(line) <= at,
    ensures
        line_model(line.insert(at, space)) == line_model(line),
{
    lemma_inserted_space_is_ignored(line, at, space);
}

/// `c` in lower case if it is one of the letters `A` to `Z`, else `c`.
pub fn to_lower(c: char) -> (r: char)
    ensures
        r == fold_case(c),
{
    if 'A' <= c && c <= 'Z' {
        ((c as u8) + 32) as char
    } else {
        c
    }
}

/// A string is a mnemonic's name when it has the name's length and letters.
proof fn lemma_names(f: Seq<char>)
    ensures
        f == Mnemonic::J.name() <==> f.len() == 1 && f[0] == 'j',
        f == Mnemonic::Add.name() <==> f.len() == 3 && f[0] == 'a' && f[1] == 'd' && f[2] == 'd',
        f == Mnemonic::Mul.name() <==> f.len() == 3 && f[0] == 'm' && f[1] == 'u' && f[2] == 'l',
        f == Mnemonic::BigMul.name() <==> f.len() == 6 && f[0] == 'b' && f[1] == 'i' && f[2] == 'g'
            && f[3] == 'm' && f[4] == 'u' && f[5] == 'l',
        f == Mnemonic::Mov.name() <==> f.len() == 3 && f[0] == 'm' && f[1] == 'o' && f[2] == 'v',
        f == Mnemonic::Ld.name() <==> f.len() == 2 && f[0] == 'l' && f[1] == 'd',
        f == Mnemonic::St.name() <==> f.len() == 2 && f[0] == 's' && f[1] == 't',
        f == Mnemonic::Db.name() <==> f.len() == 2 && f[0] == 'd' && f[1] == 'b',
{
    assert(f.len() == 1 && f[0] == 'j' ==> f =~= Mnemonic::J.name());
    assert(f.len() == 3 && f[0] == 'a' && f[1] == 'd' && f[2] == 'd' ==> f =~= Mnemonic::Add.name());
    assert(f.len() == 3 && f[0] == 'm' && f[1] == 'u' && f[2] == 'l' ==> f =~= Mnemonic::Mul.name());
    assert(f.len() == 6 && f[0] == 'b' && f[1] == 'i' && f[2] == 'g' && f[3] == 'm' && f[4] == 'u'
        && f[5] == 'l' ==> f =~= Mnemonic::BigMul.name());
    assert(f.len() == 3 && f[0] == 'm' && f[1] == 'o' && f[2] == 'v' ==> f =~= Mnemonic::Mov.name());
    assert(f.len() == 2 && f[0] == 'l' && f[1] == 'd' ==> f =~= Mnemonic::Ld.name());
    assert(f.len() == 2 && f[0] == 's' && f[1] == 't' ==> f =~= Mnemonic::St.name());
    assert(f.len() == 2 && f[0] == 'd' && f[1] == 'b' ==> f =~= Mnemonic::Db.name());
}

/// Tells which mnemonic the token `m` spells, if any.
pub fn recognize(m: &[char]) -> (kind: Option<Mnemonic>)
    ensures
        kind == mnemonic_kind(m@),
{
    let n = m.len();
    let ghost f = folded(m@);
    proof {
        lemma_names(f);
    }
    if n == 1 {
        let a = to_lower(m[0]);
        assert(f[0] == a);
        if a == 'j' {
            return Some(Mnemonic::J);
        }
    } else if n == 2 {
        let a = to_lower(m[0]);
        let b = to_lower(m[1]);
        assert(f[0] == a && f[1] == b);
        if a == 'l' && b == 'd' {
            return Some(Mnemonic::Ld);
        } else if a == 's' && b == 't' {
            return Some(Mnemonic::St);
        } else if a == 'd' && b == 'b' {
            return Some(Mnemonic::Db);
        }
    } else if n == 3 {
        let a = to_lower(m[0]);
        let b = to_lower(m[1]);
        let c = to_lower(m[2]);
        assert(f[0] == a && f[1] == b && f[2] == c);
        if a == 'a' && b == 'd' && c == 'd' {
            return Some(Mnemonic::Add);
        } else if a == 'm' && b == 'u' && c == 'l' {
            return Some(Mnemonic::Mul);
        } else if a == 'm' && b == 'o' && c == 'v' {
            return Some(Mnemonic::Mov);
        }
    } else if n == 6 {
        let a = to_lower(m[0]);
        let b = to_lower(m[1]);
        let c = to_lower(m[2]);
        let d = to_lower(m[3]);
        let e = to_lower(m[4]);
        let g = to_lower(m[5]);
        assert(f[0] == a && f[1] == b && f[2] == c && f[3] == d && f[4] == e && f[5] == g);
        if a == 'b' && b == 'i' && c == 'g' && d == 'm' && e == 'u' && g == 'l' {
            return Some(Mnemonic::BigMul);
        }
    }
    None
}

/// The views of the fields that `fields` holds.
pub open spec fn field_views(fields: Seq<&[char]>) -> Seq<Seq<char>> {
    Seq::new(fields.len(), |i: int| fields[i]@)
}

/// Finds the next comma at or after `from`.
pub fn scan_to_comma(s: &[char], from: usize) -> (to: usize)
    requires
        from <= s@.len(),
    ensures
        to == next_comma(s@, from as int),
        from <= to <= s@.len(),
{
    let mut i = from;
    while i < s.len() && s[i] != ','
        invariant
            from <= i <= s@.len(),
            next_comma(s@, from as int) == next_comma(s@, i as int),
        decreases s@.len() - i,
    {
        i += 1;
    }
    i
}

/// Splits `s` at each comma.
pub fn fields_of(s: &[char]) -> (fields: Vec<&[char]>)
    ensures
        field_views(fields@) == split_fields(s@),
{
    let n = s.len();
    let mut fields: Vec<&[char]> = Vec::new();
    let mut start: usize = 0;
    assert(field_views(fields@) + fields_from(s@, 0) == split_fields(s@));
    loop
        invariant
            n == s@.len(),
            start <= n,
            field_views(fields@) + fields_from(s@, start as int) == split_fields(s@),
        decreases n - start,
    {
        let comma = scan_to_comma(s, start);
        let ghost before = field_views(fields@);
        fields.push(slice_subrange(s, start, comma));
        assert(field_views(fields@) == before + seq![s@.subrange(start as int, comma as int)]);
        if comma == n {
            return fields;
        }
        assert(before + (seq![s@.subrange(start as int, comma as int)] + fields_from(
            s@,
            comma + 1,
        )) == field_views(fields@) + fields_from(s@, comma + 1));
        start = comma + 1;
    }
}

/// Tells which register the field `f` names, if any.
pub fn register_named(f: &[char]) -> (register: Option<Register>)
    ensures
        register == register_of(f@),
{
    if f.len() == 2 && f[0] == 'r' {
        if f[1] == '0' {
            assert(f@ =~= seq!['r', '0']);
            return Some(Register::R0);
        } else if f[1] == '1' {
            assert(f@ =~= seq!['r', '1']);
            return Some(Register::R1);
        }
    }
    None
}

/// Reads the field `f` as an address.
pub fn parse_address(f: &[char]) -> (address: Option<Address>)
    ensures
        address == address_of(f@),
{
    match parse_bounded(f, usize::MAX) {
        Some(n) => Some(Address(n)),
        None => None,
    }
}

/// Reads the field `f` as a byte.
pub fn parse_byte(f: &[char]) -> (byte: Option<u8>)
    ensures
        byte == byte_of(f@),
{
    match parse_bounded(f, 255) {
        Some(n) => Some(n as u8),
        None => None,
    }
}

/// Reads two fields as the register form `r0,r1` or `r1,r0`.
fn parse_register_pair(fields: &Vec<&[char]>) -> (r: Result<Register, OperandFault>)
    ensures
        r == register_pair(field_views(fields@)),
{
    if fields.len() != 2 {
        return Err(OperandFault::FieldCount);
    }
    match (register_named(fields[0]), register_named(fields[1])) {
        (Some(Register::R0), Some(Register::R1)) => Ok(Register::R0),
        (Some(Register::R1), Some(Register::R0)) => Ok(Register::R1),
        _ => Err(OperandFault::Registers),
    }
}

/// Reads two fields as a register and an address.
fn parse_register_and_address(fields: &Vec<&[char]>) -> (r: Result<
    (Register, Address),
    OperandFault,
>)
    ensures
        r == register_and_address(field_views(fields@)),
{
    if fields.len() != 2 {
        return Err(OperandFault::FieldCount);
    }
    let register = match register_named(fields[0]) {
        Some(register) => register,
        None => { return Err(OperandFault::Registers); },
    };
    match parse_address(fields[1]) {
        Some(address) => Ok((register, address)),
        None => Err(OperandFault::Number(Field::Address)),
    }
}

/// Reads two fields as the destination and the source of a `MOV`.
fn parse_move_operands(fields: &Vec<&[char]>) -> (r: Result<(Register, Source), OperandFault>)
    ensures
        r == move_operands(field_views(fields@)),
{
    if fields.len() != 2 {
        return Err(OperandFault::FieldCount);
    }
    let destination = match register_named(fields[0]) {
        Some(register) => register,
        None => { return Err(OperandFault::Registers); },
    };
    match register_named(fields[1]) {
        Some(source) => match (destination, source) {
            (Register::R0, Register::R1) | (Register::R1, Register::R0) => Ok(
                (destination, Source::Register(source)),
            ),
            _ => Err(OperandFault::Registers),
        },
        None => match parse_byte(fields[1]) {
            Some(value) => Ok((destination, Source::Immediate(value))),
            None => Err(OperandFault::Number(Field::Immediate)),
        },
    }
}

/// Builds the instruction that the mnemonic `kind` makes of `operands`.
pub fn parse_operands(kind: Mnemonic, operands: &[char]) -> (r: Result<Instruction, OperandFault>)
    ensures
        r == operands_model(kind, operands@),
{
    let fields = fields_of(operands);
    match kind {
        Mnemonic::J => {
            if fields.len() != 1 {
                return Err(OperandFault::FieldCount);
            }
            match parse_address(fields[0]) {
                Some(address) => Ok(Instruction::Jump(address)),
                None => Err(OperandFault::Number(Field::Address)),
            }
        },
        Mnemonic::Add => match parse_register_pair(&fields) {
            Ok(register) => Ok(Instruction::Add(register)),
            Err(fault) => Err(fault),
        },
        Mnemonic::Mul => match parse_register_pair(&fields) {
            Ok(register) => Ok(Instruction::Multiply(register)),
            Err(fault) => Err(fault),
        },
        Mnemonic::BigMul => {
            if operands.len() == 0 {
                Ok(Instruction::BigMultiply)
            } else {
                Err(OperandFault::FieldCount)
            }
        },
        Mnemonic::Mov => match parse_move_operands(&fields) {
            Ok((destination, source)) => Ok(Instruction::Move(destination, source)),
            Err(fault) => Err(fault),
        },
        Mnemonic::Ld => match parse_register_and_address(&fields) {
            Ok((register, address)) => Ok(Instruction::Load(register, address)),
            Err(fault) => Err(fault),
        },
        Mnemonic::St => match parse_register_and_address(&fields) {
            Ok((register, address)) => Ok(Instruction::Store(register, address)),
            Err(fault) => Err(fault),
        },
        Mnemonic::Db => {
            if fields.len() != 2 {
                return Err(OperandFault::FieldCount);
            }
            let address = match parse_address(fields[0]) {
                Some(address) => address,
                None => { return Err(OperandFault::Number(Field::Address)); },
            };
            match parse_byte(fields[1]) {
                Some(value) => Ok(Instruction::DefineByte(address, value)),
                None => Err(OperandFault::Number(Field::Value)),
            }
        },
    }
}

/// Parses a mnemonic and its operand string into one instruction.
///
/// A token that spells none of the eight mnemonics is refused with
/// [`AsmError::UnknownMnemonic`], which holds the token as it was written.
/// Operands that do not fit the mnemonic are refused with
/// [`AsmError::MalformedOperand`].
pub fn parse_instruction(mnemonic: &str, operands: &str) -> (r: Result<Instruction, AsmError>)
    ensures
        outcome(r) == instruction_model(mnemonic@, operands@),
        mnemonic_kind(mnemonic@) is None ==> r is Err && r->Err_0@
            == ErrorModel::UnknownMnemonic(mnemonic@),
{
    let name = chars_of(mnemonic);
    let kind = match recognize(name.as_slice()) {
        Some(kind) => kind,
        None => { return Err(AsmError::UnknownMnemonic(String::from_str(mnemonic))); },
    };
    let fields = chars_of(operands);
    match parse_operands(kind, fields.as_slice()) {
        Ok(instruction) => Ok(instruction),
        Err(fault) => Err(AsmError::MalformedOperand(kind, fault)),
    }
}

/// Parses one source line. A line without any token denotes nothing.
pub fn parse_line(line: &str) -> (r: Result<Option<Instruction>, AsmError>)
    ensures
        outcome(r) == line_model(line@),
        mnemonic_of(line@).len() > 0 && mnemonic_kind(mnemonic_of(line@)) is None ==> r is Err
            && r->Err_0@ == ErrorModel::UnknownMnemonic(mnemonic_of(line@)),
{
    let (mnemonic, operands) = tokenize(line);
    if mnemonic.as_str().unicode_len() == 0 {
        return Ok(None);
    }
    match parse_instruction(mnemonic.as_str(), operands.as_str()) {
        Ok(instruction) => Ok(Some(instruction)),
        Err(error) => Err(error),
    }
}

} // verus!
