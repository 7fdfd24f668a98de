use toy_asm::lexer::{chars_of, is_whitespace};
use toy_asm::number::parse_bounded;
use toy_asm::parser::{fields_of, parse_operands, recognize, register_named};
use toy_asm::{
    parse_instruction, parse_line, tokenize, Address, AsmError, Field, Instruction, Mnemonic,
    OperandFault, Register, Source,
};

fn chars(text: &str) -> Vec<char> {
    text.chars().collect()
}

fn malformed(mnemonic: Mnemonic, fault: OperandFault) -> Result<Instruction, AsmError> {
    Err(AsmError::MalformedOperand(mnemonic, fault))
}

#[test]
fn tokenize_splits_mnemonic_and_operands() {
    assert_eq!(tokenize("mov r0, 5"), ("mov".to_string(), "r0,5".to_string()));
    assert_eq!(tokenize("mov r0,5"), ("mov".to_string(), "r0,5".to_string()));
    assert_eq!(tokenize("  ADD   r0 ,\tr1  "), ("ADD".to_string(), "r0,r1".to_string()));
    assert_eq!(tokenize("BIGMUL"), ("BIGMUL".to_string(), String::new()));
    assert_eq!(tokenize("a b c d"), ("a".to_string(), "bcd".to_string()));
}

#[test]
fn tokenize_of_a_line_without_tokens_is_empty() {
    assert_eq!(tokenize(""), (String::new(), String::new()));
    assert_eq!(tokenize("   \t  "), (String::new(), String::new()));
    assert_eq!(tokenize("\u{2028}\u{205f}"), (String::new(), String::new()));
}

#[test]
fn tokenize_keeps_characters_beyond_ascii() {
    assert_eq!(tokenize("é\u{2009}ü ö"), ("é".to_string(), "üö".to_string()));
}

#[test]
fn whitespace_is_what_std_calls_whitespace() {
    for code in 0..=0x3100u32 {
        if let Some(c) = char::from_u32(code) {
            assert_eq!(is_whitespace(c), c.is_whitespace(), "U+{:04X}", code);
        }
    }
    assert!(!is_whitespace('\u{180e}'));
    assert!(!is_whitespace('\u{200b}'));
    assert!(!is_whitespace('\u{feff}'));
}

#[test]
fn chars_of_lists_the_characters() {
    assert_eq!(chars_of("r0,é"), vec!['r', '0', ',', 'é']);
    assert_eq!(chars_of(""), Vec::<char>::new());
}

#[test]
fn numbers_are_decimal() {
    assert_eq!(parse_bounded(&chars("0"), 255), Some(0));
    assert_eq!(parse_bounded(&chars("7"), 255), Some(7));
    assert_eq!(parse_bounded(&chars("255"), 255), Some(255));
    assert_eq!(parse_bounded(&chars("256"), 255), None);
    assert_eq!(parse_bounded(&chars("007"), 255), Some(7));
    assert_eq!(parse_bounded(&chars("+12"), 255), Some(12));
    assert_eq!(parse_bounded(&chars("0000000000000000000000255"), 255), Some(255));
    assert_eq!(parse_bounded(&chars("1234567"), usize::MAX), Some(1234567));
}

#[test]
fn numbers_agree_with_std() {
    for text in [
        "", "+", "-", "-1", "+-1", "++1", "1+", "0x10", "12a", "a12", " 1", "1 ", "1_000", "٣", "1.0",
        "0", "+0", "-0", "9", "10", "99", "100", "255", "256", "300", "999", "1000", "0255", "+255",
        "+256", "18446744073709551615", "18446744073709551616", "99999999999999999999999",
        "4294967295", "4294967296",
    ] {
        assert_eq!(parse_bounded(&chars(text), 255), text.parse::<u8>().ok().map(usize::from), "{text:?}");
        assert_eq!(parse_bounded(&chars(text), usize::MAX), text.parse::<usize>().ok(), "{text:?}");
    }
}

#[test]
fn the_largest_address_is_accepted_and_the_next_refused() {
    let largest = usize::MAX.to_string();
    assert_eq!(
        parse_instruction("J", &largest),
        Ok(Instruction::Jump(Address(usize::MAX)))
    );
    let mut next = chars(&largest);
    let last = next.len() - 1;
    next[last] = char::from_u32(next[last] as u32 + 1).unwrap();
    let next: String = next.into_iter().collect();
    assert_eq!(
        parse_instruction("J", &next),
        malformed(Mnemonic::J, OperandFault::Number(Field::Address))
    );
}

#[test]
fn mnemonics_are_recognized_in_any_case() {
    for (text, kind) in [
        ("j", Mnemonic::J),
        ("J", Mnemonic::J),
        ("add", Mnemonic::Add),
        ("ADD", Mnemonic::Add),
        ("Add", Mnemonic::Add),
        ("mul", Mnemonic::Mul),
        ("mUL", Mnemonic::Mul),
        ("bigmul", Mnemonic::BigMul),
        ("BIGMUL", Mnemonic::BigMul),
        ("BigMul", Mnemonic::BigMul),
        ("mov", Mnemonic::Mov),
        ("MOV", Mnemonic::Mov),
        ("ld", Mnemonic::Ld),
        ("LD", Mnemonic::Ld),
        ("st", Mnemonic::St),
        ("sT", Mnemonic::St),
        ("db", Mnemonic::Db),
        ("DB", Mnemonic::Db),
    ] {
        assert_eq!(recognize(&chars(text)), Some(kind), "{text}");
    }
    for text in ["", "jj", "ad", "addd", "bigmu", "mow", "l", "dc", "FOO", "a dd", "ſt", "\u{212a}"] {
        assert_eq!(recognize(&chars(text)), None, "{text}");
    }
}

#[test]
fn mnemonics_agree_with_lower_casing() {
    let names = ["j", "add", "mul", "bigmul", "mov", "ld", "st", "db"];
    for text in ["J", "Add", "MUL", "BiGmUl", "moV", "Ld", "ST", "dB", "İd", "ſt", "Mül", "JMP", "@dd", "`dd"] {
        let lowered = text.to_lowercase();
        assert_eq!(
            recognize(&chars(text)).is_some(),
            names.contains(&lowered.as_str()),
            "{text}"
        );
    }
}

#[test]
fn fields_are_split_at_commas() {
    let text = chars("r0,r1");
    assert_eq!(fields_of(&text), vec![&['r', '0'][..], &['r', '1'][..]]);
    let text = chars("");
    assert_eq!(fields_of(&text), vec![&[][..]]);
    let text = chars(",");
    assert_eq!(fields_of(&text), vec![&[][..], &[][..]]);
    let text = chars("a,,bc,");
    assert_eq!(fields_of(&text), vec![&['a'][..], &[][..], &['b', 'c'][..], &[][..]]);
    let text = chars("12");
    assert_eq!(fields_of(&text), vec![&['1', '2'][..]]);
}

#[test]
fn registers_are_named_in_lower_case() {
    assert_eq!(register_named(&chars("r0")), Some(Register::R0));
    assert_eq!(register_named(&chars("r1")), Some(Register::R1));
    for text in ["", "r", "r2", "R0", "R1", "r00", "0r", "r0 "] {
        assert_eq!(register_named(&chars(text)), None, "{text}");
    }
}

#[test]
fn jump_takes_one_address() {
    assert_eq!(parse_instruction("J", "0"), Ok(Instruction::Jump(Address(0))));
    assert_eq!(parse_instruction("j", "15"), Ok(Instruction::Jump(Address(15))));
    assert_eq!(parse_instruction("J", "16"), Ok(Instruction::Jump(Address(16))));
    assert_eq!(parse_instruction("J", "+4"), Ok(Instruction::Jump(Address(4))));
    assert_eq!(parse_instruction("J", ""), malformed(Mnemonic::J, OperandFault::Number(Field::Address)));
    assert_eq!(parse_instruction("J", "r0"), malformed(Mnemonic::J, OperandFault::Number(Field::Address)));
    assert_eq!(parse_instruction("J", "-1"), malformed(Mnemonic::J, OperandFault::Number(Field::Address)));
    assert_eq!(parse_instruction("J", "1,2"), malformed(Mnemonic::J, OperandFault::FieldCount));
    assert_eq!(parse_instruction("J", "1,"), malformed(Mnemonic::J, OperandFault::FieldCount));
}

#[test]
fn add_and_mul_take_two_different_registers() {
    assert_eq!(parse_instruction("ADD", "r0,r1"), Ok(Instruction::Add(Register::R0)));
    assert_eq!(parse_instruction("ADD", "r1,r0"), Ok(Instruction::Add(Register::R1)));
    assert_eq!(parse_instruction("MUL", "r0,r1"), Ok(Instruction::Multiply(Register::R0)));
    assert_eq!(parse_instruction("MUL", "r1,r0"), Ok(Instruction::Multiply(Register::R1)));
    for (name, kind) in [("ADD", Mnemonic::Add), ("MUL", Mnemonic::Mul)] {
        for operands in ["r0,r0", "r1,r1", "r0,5", "5,r0", "R0,R1", "r0,r2", ",", "r0,", ",r1"] {
            assert_eq!(
                parse_instruction(name, operands),
                malformed(kind, OperandFault::Registers),
                "{name} {operands}"
            );
        }
        for operands in ["", "r0", "r0,r1,r0", "r0,r1,", ",,"] {
            assert_eq!(
                parse_instruction(name, operands),
                malformed(kind, OperandFault::FieldCount),
                "{name} {operands}"
            );
        }
    }
}

#[test]
fn bigmul_takes_no_operand() {
    assert_eq!(parse_instruction("BIGMUL", ""), Ok(Instruction::BigMultiply));
    assert_eq!(parse_line("  bigmul  "), Ok(Some(Instruction::BigMultiply)));
    assert_eq!(parse_instruction("BIGMUL", "r0"), malformed(Mnemonic::BigMul, OperandFault::FieldCount));
    assert_eq!(parse_instruction("BIGMUL", ","), malformed(Mnemonic::BigMul, OperandFault::FieldCount));
    assert_eq!(parse_instruction("BIGMUL", "r0,r1"), malformed(Mnemonic::BigMul, OperandFault::FieldCount));
}

#[test]
fn mov_takes_a_register_or_an_immediate_source() {
    assert_eq!(
        parse_instruction("MOV", "r0,r1"),
        Ok(Instruction::Move(Register::R0, Source::Register(Register::R1)))
    );
    assert_eq!(
        parse_instruction("MOV", "r1,r0"),
        Ok(Instruction::Move(Register::R1, Source::Register(Register::R0)))
    );
    assert_eq!(
        parse_instruction("MOV", "r0,0"),
        Ok(Instruction::Move(Register::R0, Source::Immediate(0)))
    );
    assert_eq!(
        parse_instruction("MOV", "r1,255"),
        Ok(Instruction::Move(Register::R1, Source::Immediate(255)))
    );
    assert_eq!(parse_instruction("MOV", "r0,r0"), malformed(Mnemonic::Mov, OperandFault::Registers));
    assert_eq!(parse_instruction("MOV", "r1,r1"), malformed(Mnemonic::Mov, OperandFault::Registers));
    assert_eq!(parse_instruction("MOV", "5,r0"), malformed(Mnemonic::Mov, OperandFault::Registers));
    assert_eq!(parse_instruction("MOV", "r2,5"), malformed(Mnemonic::Mov, OperandFault::Registers));
    assert_eq!(
        parse_instruction("MOV", "r0,256"),
        malformed(Mnemonic::Mov, OperandFault::Number(Field::Immediate))
    );
    assert_eq!(
        parse_instruction("MOV", "r0,-1"),
        malformed(Mnemonic::Mov, OperandFault::Number(Field::Immediate))
    );
    assert_eq!(
        parse_instruction("MOV", "r0,R1"),
        malformed(Mnemonic::Mov, OperandFault::Number(Field::Immediate))
    );
    assert_eq!(
        parse_instruction("MOV", "r0,"),
        malformed(Mnemonic::Mov, OperandFault::Number(Field::Immediate))
    );
    assert_eq!(parse_instruction("MOV", "r0"), malformed(Mnemonic::Mov, OperandFault::FieldCount));
    assert_eq!(parse_instruction("MOV", "r0,1,2"), malformed(Mnemonic::Mov, OperandFault::FieldCount));
}

#[test]
fn load_and_store_take_a_register_and_an_address() {
    assert_eq!(parse_instruction("LD", "r0,3"), Ok(Instruction::Load(Register::R0, Address(3))));
    assert_eq!(parse_instruction("LD", "r1,15"), Ok(Instruction::Load(Register::R1, Address(15))));
    assert_eq!(parse_instruction("ST", "r0,0"), Ok(Instruction::Store(Register::R0, Address(0))));
    assert_eq!(parse_instruction("ST", "r1,300"), Ok(Instruction::Store(Register::R1, Address(300))));
    for (name, kind) in [("LD", Mnemonic::Ld), ("ST", Mnemonic::St)] {
        assert_eq!(parse_instruction(name, "3,r0"), malformed(kind, OperandFault::Registers));
        assert_eq!(parse_instruction(name, "r2,3"), malformed(kind, OperandFault::Registers));
        assert_eq!(
            parse_instruction(name, "r0,r1"),
            malformed(kind, OperandFault::Number(Field::Address))
        );
        assert_eq!(
            parse_instruction(name, "r0,"),
            malformed(kind, OperandFault::Number(Field::Address))
        );
        assert_eq!(parse_instruction(name, "r0"), malformed(kind, OperandFault::FieldCount));
        assert_eq!(parse_instruction(name, "r0,1,2"), malformed(kind, OperandFault::FieldCount));
    }
}

#[test]
fn db_takes_an_address_and_a_byte() {
    assert_eq!(parse_instruction("DB", "5,9"), Ok(Instruction::DefineByte(Address(5), 9)));
    assert_eq!(parse_instruction("db", "0,255"), Ok(Instruction::DefineByte(Address(0), 255)));
    assert_eq!(parse_instruction("DB", "16,0"), Ok(Instruction::DefineByte(Address(16), 0)));
    assert_eq!(parse_instruction("DB", "x,9"), malformed(Mnemonic::Db, OperandFault::Number(Field::Address)));
    assert_eq!(parse_instruction("DB", "x,y"), malformed(Mnemonic::Db, OperandFault::Number(Field::Address)));
    assert_eq!(parse_instruction("DB", "5,y"), malformed(Mnemonic::Db, OperandFault::Number(Field::Value)));
    assert_eq!(parse_instruction("DB", "5,256"), malformed(Mnemonic::Db, OperandFault::Number(Field::Value)));
    assert_eq!(parse_instruction("DB", "5"), malformed(Mnemonic::Db, OperandFault::FieldCount));
    assert_eq!(parse_instruction("DB", "5,6,7"), malformed(Mnemonic::Db, OperandFault::FieldCount));
}

#[test]
fn operands_are_parsed_for_a_known_mnemonic() {
    assert_eq!(
        parse_operands(Mnemonic::Mov, &chars("r1,42")),
        Ok(Instruction::Move(Register::R1, Source::Immediate(42)))
    );
    assert_eq!(parse_operands(Mnemonic::Add, &chars("r1,r1")), Err(OperandFault::Registers));
}

#[test]
fn an_unknown_mnemonic_is_refused_whatever_the_operands() {
    for operands in ["", "r0,r1", "1", ",,,"] {
        assert_eq!(
            parse_instruction("FOO", operands),
            Err(AsmError::UnknownMnemonic("FOO".to_string()))
        );
    }
    assert_eq!(parse_instruction("", ""), Err(AsmError::UnknownMnemonic(String::new())));
    assert_eq!(parse_instruction("ADDER", "r0,r1"), Err(AsmError::UnknownMnemonic("ADDER".to_string())));
}

#[test]
fn messages_name_the_mnemonic() {
    assert_eq!(
        AsmError::MalformedOperand(Mnemonic::Add, OperandFault::Registers).message(),
        "Wrong arguments supplied into ADD instruction"
    );
    assert_eq!(
        AsmError::MalformedOperand(Mnemonic::BigMul, OperandFault::FieldCount).message(),
        "Wrong number of operands supplied into BIGMUL instruction"
    );
    assert_eq!(
        AsmError::MalformedOperand(Mnemonic::J, OperandFault::Number(Field::Address)).message(),
        "Can't parse address supplied into J instruction"
    );
    assert_eq!(
        AsmError::MalformedOperand(Mnemonic::Mov, OperandFault::Number(Field::Immediate)).message(),
        "Can't parse immediate value supplied into MOV instruction"
    );
    assert_eq!(
        AsmError::MalformedOperand(Mnemonic::Db, OperandFault::Number(Field::Value)).message(),
        "Can't parse constant value supplied into DB instruction"
    );
    assert_eq!(AsmError::MemoryOverflow.message(), "Memory overflow");
    assert_eq!(AsmError::DataOutOfRange(Address(16)).message(), "Data address outside memory");
    assert_eq!(Mnemonic::Ld.as_str(), "LD");
    assert_eq!(Mnemonic::St.as_str(), "ST");
    assert_eq!(Mnemonic::Mul.as_str(), "MUL");
}
