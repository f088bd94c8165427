use virtual_machine::bytes::{
    get_instruction_fields, Family, IndirectRegister, InstructionBytesBuilder, InvalidInstructionError,
    RegisterUsage,
};

#[test]
fn families_step_in_order() {
    assert_eq!(Family::First.next(), Ok(Family::Second));
    assert_eq!(Family::Second.next(), Ok(Family::Third));
    assert_eq!(Family::Third.next(), Ok(Family::Fourth));
    assert_eq!(Family::Fourth.next(), Err(InvalidInstructionError));
}

#[test]
fn register_usage_bytes() {
    assert_eq!(RegisterUsage::both_direct().to_byte(), 0);
    assert_eq!(RegisterUsage::one_indirect(IndirectRegister::First).to_byte(), 2);
    assert_eq!(RegisterUsage::one_indirect(IndirectRegister::Second).to_byte(), 1);
}

#[test]
fn builder_writes_opcode() {
    let mut builder = InstructionBytesBuilder::new();
    builder.opcode(0x2a);
    assert_eq!(builder.build().as_bytes(), &vec![0x2a]);
    builder.opcode(7);
    assert_eq!(builder.build().as_bytes(), &vec![0x2a, 7]);
}

#[test]
fn headers_decode() {
    assert_eq!(get_instruction_fields(&[0x10]), Ok((Family::First, 0x10, 1)));
    assert_eq!(get_instruction_fields(&[0xff, 0xff, 0x10, 0x20]), Ok((Family::Third, 0x10, 3)));
    assert_eq!(get_instruction_fields(&[0xff, 0xff, 0xff, 0x01]), Ok((Family::Fourth, 0x01, 4)));
    assert_eq!(get_instruction_fields(&[0xff, 0xff, 0xff, 0xff, 0x01]), Err(InvalidInstructionError));
    assert_eq!(get_instruction_fields(&[0xff]), Err(InvalidInstructionError));
    assert_eq!(get_instruction_fields(&[]), Err(InvalidInstructionError));
}

#[test]
fn built_headers_decode_back() {
    let mut builder = InstructionBytesBuilder::new();
    builder.opcode(0x33);
    let bytes = builder.build();
    assert_eq!(get_instruction_fields(bytes.as_bytes()), Ok((Family::First, 0x33, 1)));
}
