use toy_asm::{
    encode, encode_image, output, render_hex, Address, AsmError, Instruction, ProgramImage,
    Register, Source, MEMORY_CELLS,
};

#[test]
fn a_new_image_is_blank() {
    let image = ProgramImage::new();
    assert_eq!(image.cursor(), 0);
    assert_eq!(image.cells(), [Instruction::RawConstant(0); 16]);
    assert_eq!(MEMORY_CELLS, 16);
}

#[test]
fn an_instruction_goes_to_the_cursor() {
    let mut image = ProgramImage::new();
    assert_eq!(image.place(Instruction::BigMultiply), Ok(()));
    assert_eq!(image.place(Instruction::RawConstant(7)), Ok(()));
    assert_eq!(image.place(Instruction::Jump(Address(99))), Ok(()));
    assert_eq!(image.cursor(), 3);
    assert_eq!(image.cell(0), Instruction::BigMultiply);
    assert_eq!(image.cell(1), Instruction::RawConstant(7));
    assert_eq!(image.cell(2), Instruction::Jump(Address(99)));
    assert_eq!(image.cell(3), Instruction::RawConstant(0));
}

#[test]
fn a_directive_goes_to_its_address_and_leaves_the_cursor() {
    let mut image = ProgramImage::new();
    assert_eq!(image.place(Instruction::DefineByte(Address(15), 1)), Ok(()));
    assert_eq!(image.place(Instruction::DefineByte(Address(0), 2)), Ok(()));
    assert_eq!(image.cursor(), 0);
    assert_eq!(image.cell(15), Instruction::RawConstant(1));
    assert_eq!(image.cell(0), Instruction::RawConstant(2));
    assert_eq!(image.place(Instruction::Add(Register::R0)), Ok(()));
    assert_eq!(image.cell(0), Instruction::Add(Register::R0));
    assert_eq!(image.cursor(), 1);
}

#[test]
fn a_directive_outside_the_image_is_refused() {
    let mut image = ProgramImage::new();
    image.place(Instruction::BigMultiply).unwrap();
    let before = image.cells();
    assert_eq!(
        image.place(Instruction::DefineByte(Address(16), 1)),
        Err(AsmError::DataOutOfRange(Address(16)))
    );
    assert_eq!(
        image.place(Instruction::DefineByte(Address(usize::MAX), 1)),
        Err(AsmError::DataOutOfRange(Address(usize::MAX)))
    );
    assert_eq!(image.cells(), before);
    assert_eq!(image.cursor(), 1);
}

#[test]
fn the_seventeenth_instruction_is_refused() {
    let mut image = ProgramImage::new();
    for n in 0..16 {
        assert_eq!(image.cursor(), n);
        assert_eq!(image.place(Instruction::RawConstant(n as u8 + 1)), Ok(()));
    }
    assert_eq!(image.cursor(), 16);
    let full = image.cells();
    assert_eq!(image.place(Instruction::BigMultiply), Err(AsmError::MemoryOverflow));
    assert_eq!(image.place(Instruction::RawConstant(0)), Err(AsmError::MemoryOverflow));
    assert_eq!(image.cursor(), 16);
    assert_eq!(image.cells(), full);
    assert_eq!(image.place(Instruction::DefineByte(Address(3), 0xAA)), Ok(()));
    assert_eq!(image.cursor(), 16);
    assert_eq!(image.cell(3), Instruction::RawConstant(0xAA));
    assert_eq!(image.cell(4), Instruction::RawConstant(5));
}

#[test]
fn every_kind_of_instruction_has_its_byte() {
    assert_eq!(encode(Instruction::Jump(Address(0))), 0b0000_0000);
    assert_eq!(encode(Instruction::Jump(Address(9))), 0b0000_1001);
    assert_eq!(encode(Instruction::Jump(Address(15))), 0b0000_1111);
    assert_eq!(encode(Instruction::BigMultiply), 0b0001_0000);
    assert_eq!(encode(Instruction::Add(Register::R0)), 0b0010_0000);
    assert_eq!(encode(Instruction::Add(Register::R1)), 0b0011_0000);
    assert_eq!(encode(Instruction::Multiply(Register::R0)), 0b0100_0000);
    assert_eq!(encode(Instruction::Multiply(Register::R1)), 0b0101_0000);
    assert_eq!(
        encode(Instruction::Move(Register::R0, Source::Register(Register::R1))),
        0b1010_0000
    );
    assert_eq!(
        encode(Instruction::Move(Register::R1, Source::Register(Register::R0))),
        0b1011_0000
    );
    assert_eq!(encode(Instruction::Move(Register::R0, Source::Immediate(0))), 0b1000_0000);
    assert_eq!(encode(Instruction::Move(Register::R0, Source::Immediate(7))), 0x87);
    assert_eq!(encode(Instruction::Move(Register::R1, Source::Immediate(7))), 0x97);
    assert_eq!(encode(Instruction::Move(Register::R1, Source::Immediate(31))), 0x9F);
    assert_eq!(encode(Instruction::Load(Register::R0, Address(0))), 0b1100_0000);
    assert_eq!(encode(Instruction::Load(Register::R1, Address(3))), 0xD3);
    assert_eq!(encode(Instruction::Load(Register::R0, Address(15))), 0xCF);
    assert_eq!(encode(Instruction::Store(Register::R0, Address(0))), 0b1110_0000);
    assert_eq!(encode(Instruction::Store(Register::R1, Address(10))), 0xFA);
    assert_eq!(encode(Instruction::RawConstant(0)), 0);
    assert_eq!(encode(Instruction::RawConstant(0xAB)), 0xAB);
    assert_eq!(encode(Instruction::RawConstant(255)), 255);
}

#[test]
fn a_large_immediate_reaches_into_the_high_bits() {
    assert_eq!(encode(Instruction::Move(Register::R0, Source::Immediate(32))), 0xA0);
    assert_eq!(encode(Instruction::Move(Register::R0, Source::Immediate(0x55))), 0xD5);
    assert_eq!(encode(Instruction::Move(Register::R1, Source::Immediate(255))), 0xFF);
    for value in 0..=255u8 {
        assert_eq!(encode(Instruction::Move(Register::R0, Source::Immediate(value))), 0x80 | value);
        assert_eq!(encode(Instruction::Move(Register::R1, Source::Immediate(value))), 0x90 | value);
    }
}

#[test]
fn only_the_low_four_bits_of_an_address_are_encoded() {
    assert_eq!(encode(Instruction::Jump(Address(16))), 0x00);
    assert_eq!(encode(Instruction::Jump(Address(0x123))), 0x03);
    assert_eq!(encode(Instruction::Jump(Address(usize::MAX))), 0x0F);
    assert_eq!(encode(Instruction::Load(Register::R0, Address(16))), 0xC0);
    assert_eq!(encode(Instruction::Load(Register::R1, Address(0xFF))), 0xDF);
    assert_eq!(encode(Instruction::Store(Register::R0, Address(0x31))), 0xE1);
    assert_eq!(encode(Instruction::Store(Register::R1, Address(usize::MAX))), 0xFF);
}

#[test]
fn an_image_is_encoded_cell_by_cell() {
    let mut cells = [Instruction::RawConstant(0); 16];
    cells[0] = Instruction::BigMultiply;
    cells[7] = Instruction::Store(Register::R1, Address(2));
    cells[15] = Instruction::RawConstant(0xFE);
    let bytes = encode_image(&cells);
    let mut expected = [0u8; 16];
    expected[0] = 0x10;
    expected[7] = 0xF2;
    expected[15] = 0xFE;
    assert_eq!(bytes, expected);
    assert_eq!(output(cells), "10,00,00,00,00,00,00,F2,00,00,00,00,00,00,00,FE");
}

#[test]
fn bytes_are_rendered_as_upper_case_hex() {
    assert_eq!(render_hex(&[]), "");
    assert_eq!(render_hex(&[0]), "00");
    assert_eq!(render_hex(&[0x0a]), "0A");
    assert_eq!(render_hex(&[0xff, 0x10]), "FF,10");
    assert_eq!(render_hex(&[1, 0x23, 0x45, 0x67, 0x89, 0xab, 0xcd, 0xef]), "01,23,45,67,89,AB,CD,EF");
    for byte in 0..=255u8 {
        assert_eq!(render_hex(&[byte]), format!("{:02X}", byte));
    }
}

#[test]
fn output_has_sixteen_bytes_and_no_newline() {
    let text = output([Instruction::RawConstant(0xAB); 16]);
    assert_eq!(text.len(), 47);
    assert_eq!(text, vec!["AB"; 16].join(","));
}
