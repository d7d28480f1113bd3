use chip8::{decode, DecodeError, OpCode};

#[test]
fn decodes_system_instructions() {
    assert_eq!(decode(0x00, 0xE0), Ok(OpCode::ClearScreen));
    assert_eq!(decode(0x00, 0xEE), Ok(OpCode::PopSubroutine));
    // only the last nibble and X are looked at
    assert_eq!(decode(0x00, 0x10), Ok(OpCode::ClearScreen));
}

#[test]
fn rejects_unknown_system_instruction() {
    assert_eq!(decode(0x01, 0x23), Err(DecodeError::UnrecognisedSystemOpCode { n: 3 }));
    assert_eq!(decode(0x01, 0xE0), Err(DecodeError::UnrecognisedSystemOpCode { n: 0 }));
}

#[test]
fn decodes_address_instructions() {
    assert_eq!(decode(0x12, 0x34), Ok(OpCode::Jump { nnn: 0x234 }));
    assert_eq!(decode(0x2A, 0xBC), Ok(OpCode::CallSubroutine { nnn: 0xABC }));
    assert_eq!(decode(0xA1, 0x23), Ok(OpCode::SetIndexRegister { nnn: 0x123 }));
    assert_eq!(decode(0xB3, 0x00), Ok(OpCode::JumpWithOffset { x: 3, nnn: 0x300 }));
}

#[test]
fn decodes_register_instructions() {
    assert_eq!(decode(0x3A, 0x42), Ok(OpCode::SkipIfEqual { x: 0xA, nn: 0x42 }));
    assert_eq!(decode(0x4A, 0x42), Ok(OpCode::SkipIfNotEqual { x: 0xA, nn: 0x42 }));
    assert_eq!(decode(0x51, 0x20), Ok(OpCode::SkipIfRegisterEqual { x: 1, y: 2 }));
    assert_eq!(decode(0x91, 0x20), Ok(OpCode::SkipIfRegisterNotEqual { x: 1, y: 2 }));
    assert_eq!(decode(0x6F, 0xFF), Ok(OpCode::SetRegister { x: 0xF, nn: 0xFF }));
    assert_eq!(decode(0x70, 0x01), Ok(OpCode::AddValueToRegister { x: 0, nn: 1 }));
    assert_eq!(decode(0xC2, 0x0F), Ok(OpCode::Random { x: 2, nn: 0x0F }));
    assert_eq!(decode(0xD1, 0x25), Ok(OpCode::Draw { x: 1, y: 2, n: 5 }));
}

#[test]
fn decodes_arithmetic_instructions() {
    assert_eq!(decode(0x8A, 0xB0), Ok(OpCode::SetRegisterToRegister { x: 0xA, y: 0xB }));
    assert_eq!(decode(0x8A, 0xB1), Ok(OpCode::BinaryOr { x: 0xA, y: 0xB }));
    assert_eq!(decode(0x8A, 0xB2), Ok(OpCode::BinaryAnd { x: 0xA, y: 0xB }));
    assert_eq!(decode(0x8A, 0xB3), Ok(OpCode::LogicalXor { x: 0xA, y: 0xB }));
    assert_eq!(decode(0x8A, 0xB4), Ok(OpCode::AddRegisterToRegister { x: 0xA, y: 0xB }));
    assert_eq!(decode(0x8A, 0xB5), Ok(OpCode::SubtractXY { x: 0xA, y: 0xB }));
    assert_eq!(decode(0x8A, 0xB6), Ok(OpCode::ShiftRight { x: 0xA, y: 0xB }));
    assert_eq!(decode(0x8A, 0xB7), Ok(OpCode::SubtractYX { x: 0xA, y: 0xB }));
    assert_eq!(decode(0x8A, 0xBE), Ok(OpCode::ShiftLeft { x: 0xA, y: 0xB }));
    assert_eq!(decode(0x8A, 0xB8), Err(DecodeError::UnrecognisedArithmeticOpCode { n: 8 }));
}

#[test]
fn decodes_key_and_misc_instructions() {
    assert_eq!(decode(0xE3, 0x9E), Ok(OpCode::SkipIfKey { x: 3 }));
    assert_eq!(decode(0xE3, 0xA1), Ok(OpCode::SkipIfNotKey { x: 3 }));
    assert_eq!(decode(0xE3, 0xFF), Err(DecodeError::UnrecognisedKeyOpCode { nn: 0xFF }));
    assert_eq!(decode(0xF4, 0x07), Ok(OpCode::SetRegisterToDelayTimer { x: 4 }));
    assert_eq!(decode(0xF4, 0x0A), Ok(OpCode::GetKey { x: 4 }));
    assert_eq!(decode(0xF4, 0x15), Ok(OpCode::SetDelayTimerToRegister { x: 4 }));
    assert_eq!(decode(0xF4, 0x18), Ok(OpCode::SetSoundTimerToRegister { x: 4 }));
    assert_eq!(decode(0xF4, 0x1E), Ok(OpCode::AddRegisterToIndex { x: 4 }));
    assert_eq!(decode(0xF4, 0x29), Ok(OpCode::FontCharacter { x: 4 }));
    assert_eq!(decode(0xF4, 0x33), Ok(OpCode::BinaryCodedDecimalConversion { x: 4 }));
    assert_eq!(decode(0xF4, 0x55), Ok(OpCode::StoreRegistersToMemory { x: 4 }));
    assert_eq!(decode(0xF4, 0x65), Ok(OpCode::LoadRegistersFromMemory { x: 4 }));
    assert_eq!(decode(0xF4, 0x66), Err(DecodeError::UnrecognisedMiscOpCode { nn: 0x66 }));
}
