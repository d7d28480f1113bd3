//! CHIP-8 instructions and their decoding from the two bytes of an
//! instruction word.
use vstd::prelude::*;

verus! {

/// A decoded CHIP-8 instruction. `x` and `y` name registers, `n` is a
/// nibble, `nn` a byte and `nnn` a twelve-bit address.
#[derive(Clone, Copy, Debug, PartialEq, Eq, Structural)]
pub enum OpCode {
    /// 00E0
    ClearScreen,
    /// 00EE
    PopSubroutine,
    /// 1NNN
    Jump { nnn: u16 },
    /// 2NNN
    CallSubroutine { nnn: u16 },
    /// 3XNN
    SkipIfEqual { x: u8, nn: u8 },
    /// 4XNN
    SkipIfNotEqual { x: u8, nn: u8 },
    /// 5XY0
    SkipIfRegisterEqual { x: u8, y: u8 },
    /// 9XY0
    SkipIfRegisterNotEqual { x: u8, y: u8 },
    /// 6XNN
    SetRegister { x: u8, nn: u8 },
    /// 7XNN
    AddValueToRegister { x: u8, nn: u8 },
    /// 8XY0
    SetRegisterToRegister { x: u8, y: u8 },
    /// 8XY1
    BinaryOr { x: u8, y: u8 },
    /// 8XY2
    BinaryAnd { x: u8, y: u8 },
    /// 8XY3
    LogicalXor { x: u8, y: u8 },
    /// 8XY4
    AddRegisterToRegister { x: u8, y: u8 },
    /// 8XY5
    SubtractXY { x: u8, y: u8 },
    /// 8XY7
    SubtractYX { x: u8, y: u8 },
    /// 8XY6
    ShiftRight { x: u8, y: u8 },
    /// 8XYE
    ShiftLeft { x: u8, y: u8 },
    /// ANNN
    SetIndexRegister { nnn: u16 },
    /// BNNN
    JumpWithOffset { x: u8, nnn: u16 },
    /// CXNN
    Random { x: u8, nn: u8 },
    /// DXYN
    Draw { x: u8, y: u8, n: u8 },
    /// EX9E
    SkipIfKey { x: u8 },
    /// EXA1
    SkipIfNotKey { x: u8 },
    /// FX07
    SetRegisterToDelayTimer { x: u8 },
    /// FX15
    SetDelayTimerToRegister { x: u8 },
    /// FX18
    SetSoundTimerToRegister { x: u8 },
    /// FX1E
    AddRegisterToIndex { x: u8 },
    /// FX0A
    GetKey { x: u8 },
    /// FX29
    FontCharacter { x: u8 },
    /// FX33
    BinaryCodedDecimalConversion { x: u8 },
    /// FX55
    StoreRegistersToMemory { x: u8 },
    /// FX65
    LoadRegistersFromMemory { x: u8 },
}

/// Why an instruction word names no instruction.
#[derive(Clone, Copy, Debug, PartialEq, Eq, Structural)]
pub enum DecodeError {
    /// A word `0XYN` other than `00Y0` and `00YE`; `n` is its last nibble.
    UnrecognisedSystemOpCode { n: u8 },
    /// A word `8XYN` whose last nibble is none of 0-7 and E.
    UnrecognisedArithmeticOpCode { n: u8 },
    /// A word `EXNN` whose low byte is neither 9E nor A1.
    UnrecognisedKeyOpCode { nn: u8 },
    /// A word `FXNN` whose low byte names no timer, key, index or memory instruction.
    UnrecognisedMiscOpCode { nn: u8 },
}

/// Every register operand names one of the sixteen registers, every nibble
/// is below 16 and every address fits in twelve bits.
pub open spec fn opcode_wf(op: OpCode) -> bool {
    match op {
        OpCode::ClearScreen | OpCode::PopSubroutine => true,
        OpCode::Jump { nnn } | OpCode::CallSubroutine { nnn } | OpCode::SetIndexRegister { nnn } => nnn < 0x1000,
        OpCode::JumpWithOffset { x, nnn } => x < 16 && nnn < 0x1000,
        OpCode::SkipIfEqual { x, nn }
        | OpCode::SkipIfNotEqual { x, nn }
        | OpCode::SetRegister { x, nn }
        | OpCode::AddValueToRegister { x, nn }
        | OpCode::Random { x, nn } => x < 16,
        OpCode::SkipIfRegisterEqual { x, y }
        | OpCode::SkipIfRegisterNotEqual { x, y }
        | OpCode::SetRegisterToRegister { x, y }
        | OpCode::BinaryOr { x, y }
        | OpCode::BinaryAnd { x, y }
        | OpCode::LogicalXor { x, y }
        | OpCode::AddRegisterToRegister { x, y }
        | OpCode::SubtractXY { x, y }
        | OpCode::SubtractYX { x, y }
        | OpCode::ShiftRight { x, y }
        | OpCode::ShiftLeft { x, y } => x < 16 && y < 16,
        OpCode::Draw { x, y, n } => x < 16 && y < 16 && n < 16,
        OpCode::SkipIfKey { x }
        | OpCode::SkipIfNotKey { x }
        | OpCode::SetRegisterToDelayTimer { x }
        | OpCode::SetDelayTimerToRegister { x }
        | OpCode::SetSoundTimerToRegister { x }
        | OpCode::AddRegisterToIndex { x }
        | OpCode::GetKey { x }
        | OpCode::FontCharacter { x }
        | OpCode::BinaryCodedDecimalConversion { x }
        | OpCode::StoreRegistersToMemory { x }
        | OpCode::LoadRegistersFromMemory { x } => x < 16,
    }
}

/// The instruction that the word `hi lo` (high byte first) encodes. The four
/// nibbles of the word are `hi / 16`, `hi % 16` (`x`), `lo / 16` (`y`) and
/// `lo % 16` (`n`); `nn` is `lo` and `nnn` is `x * 256 + lo`.
pub open spec fn decode_spec(hi: u8, lo: u8) -> Result<OpCode, DecodeError> {
    let code = hi / 16;
    let x = hi % 16;
    let y = lo / 16;
    let n = lo % 16;
    let nn = lo;
    let nnn = (x * 256 + lo) as u16;
    if code == 0x0 {
        if x == 0 && n == 0x0 {
            Ok(OpCode::ClearScreen)
        } else if x == 0 && n == 0xE {
            Ok(OpCode::PopSubroutine)
        } else {
            Err(DecodeError::UnrecognisedSystemOpCode { n })
        }
    } else if code == 0x1 {
        Ok(OpCode::Jump { nnn })
    } else if code == 0x2 {
        Ok(OpCode::CallSubroutine { nnn })
    } else if code == 0x3 {
        Ok(OpCode::SkipIfEqual { x, nn })
    } else if code == 0x4 {
        Ok(OpCode::SkipIfNotEqual { x, nn })
    } else if code == 0x5 {
        Ok(OpCode::SkipIfRegisterEqual { x, y })
    } else if code == 0x6 {
        Ok(OpCode::SetRegister { x, nn })
    } else if code == 0x7 {
        Ok(OpCode::AddValueToRegister { x, nn })
    } else if code == 0x8 {
        if n == 0x0 {
            Ok(OpCode::SetRegisterToRegister { x, y })
        } else if n == 0x1 {
            Ok(OpCode::BinaryOr { x, y })
        } else if n == 0x2 {
            Ok(OpCode::BinaryAnd { x, y })
        } else if n == 0x3 {
            Ok(OpCode::LogicalXor { x, y })
        } else if n == 0x4 {
            Ok(OpCode::AddRegisterToRegister { x, y })
        } else if n == 0x5 {
            Ok(OpCode::SubtractXY { x, y })
        } else if n == 0x6 {
            Ok(OpCode::ShiftRight { x, y })
        } else if n == 0x7 {
            Ok(OpCode::SubtractYX { x, y })
        } else if n == 0xE {
            Ok(OpCode::ShiftLeft { x, y })
        } else {
            Err(DecodeError::UnrecognisedArithmeticOpCode { n })
        }
    } else if code == 0x9 {
        Ok(OpCode::SkipIfRegisterNotEqual { x, y })
    } else if code == 0xA {
        Ok(OpCode::SetIndexRegister { nnn })
    } else if code == 0xB {
        Ok(OpCode::JumpWithOffset { x, nnn })
    } else if code == 0xC {
        Ok(OpCode::Random { x, nn })
    } else if code == 0xD {
        Ok(OpCode::Draw { x, y, n })
    } else if code == 0xE {
        if nn == 0x9E {
            Ok(OpCode::SkipIfKey { x })
        } else if nn == 0xA1 {
            Ok(OpCode::SkipIfNotKey { x })
        } else {
            Err(DecodeError::UnrecognisedKeyOpCode { nn })
        }
    } else {
        if nn == 0x07 {
            Ok(OpCode::SetRegisterToDelayTimer { x })
        } else if nn == 0x0A {
            Ok(OpCode::GetKey { x })
        } else if nn == 0x15 {
            Ok(OpCode::SetDelayTimerToRegister { x })
        } else if nn == 0x18 {
            Ok(OpCode::SetSoundTimerToRegister { x })
        } else if nn == 0x1E {
            Ok(OpCode::AddRegisterToIndex { x })
        } else if nn == 0x29 {
            Ok(OpCode::FontCharacter { x })
        } else if nn == 0x33 {
            Ok(OpCode::BinaryCodedDecimalConversion { x })
        } else if nn == 0x55 {
            Ok(OpCode::StoreRegistersToMemory { x })
        } else if nn == 0x65 {
            Ok(OpCode::LoadRegistersFromMemory { x })
        } else {
            Err(DecodeError::UnrecognisedMiscOpCode { nn })
        }
    }
}

/// Decodes the instruction word `instruction_one instruction_two`, high byte
/// first.
pub fn decode(instruction_one: u8, instruction_two: u8) -> (res: Result<OpCode, DecodeError>)
    ensures
        res == decode_spec(instruction_one, instruction_two),
        res matches Ok(op) ==> opcode_wf(op),
{
    let instruction_code: u8 = (instruction_one >> 4) & 0b_00001111;
    let x: u8 = instruction_one & 0b_00001111;
    let y: u8 = (instruction_two >> 4) & 0b_00001111;
    let n: u8 = instruction_two & 0b_00001111;
    let nn: u8 = instruction_two;
    proof {
        let hi = instruction_one;
        let lo = instruction_two;
        assert(((hi >> 4) & 0b_00001111) == hi / 16) by (bit_vector);
        assert((hi & 0b_00001111) == hi % 16) by (bit_vector);
        assert(((lo >> 4) & 0b_00001111) == lo / 16) by (bit_vector);
        assert((lo & 0b_00001111) == lo % 16) by (bit_vector);
        assert(((x as u16) << 8) == x * 256) by (bit_vector)
            requires
                x < 16,
        ;
    }
    let nnn: u16 = ((x as u16) << 8) + nn as u16;
    match instruction_code {
        0x0 => match (x, n) {
            (0x0, 0x0) => Ok(OpCode::ClearScreen),
            (0x0, 0xE) => Ok(OpCode::PopSubroutine),
            (_, _) => Err(DecodeError::UnrecognisedSystemOpCode { n }),
        },
        0x1 => Ok(OpCode::Jump { nnn }),
        0x2 => Ok(OpCode::CallSubroutine { nnn }),
        0x3 => Ok(OpCode::SkipIfEqual { x, nn }),
        0x4 => Ok(OpCode::SkipIfNotEqual { x, nn }),
        0x5 => Ok(OpCode::SkipIfRegisterEqual { x, y }),
        0x6 => Ok(OpCode::SetRegister { x, nn }),
        0x7 => Ok(OpCode::AddValueToRegister { x, nn }),
        0x8 => match n {
            0x0 => Ok(OpCode::SetRegisterToRegister { x, y }),
            0x1 => Ok(OpCode::BinaryOr { x, y }),
            0x2 => Ok(OpCode::BinaryAnd { x, y }),
            0x3 => Ok(OpCode::LogicalXor { x, y }),
            0x4 => Ok(OpCode::AddRegisterToRegister { x, y }),
            0x5 => Ok(OpCode::SubtractXY { x, y }),
            0x6 => Ok(OpCode::ShiftRight { x, y }),
            0x7 => Ok(OpCode::SubtractYX { x, y }),
            0xE => Ok(OpCode::ShiftLeft { x, y }),
            _ => Err(DecodeError::UnrecognisedArithmeticOpCode { n }),
        },
        0x9 => Ok(OpCode::SkipIfRegisterNotEqual { x, y }),
        0xA => Ok(OpCode::SetIndexRegister { nnn }),
        0xB => Ok(OpCode::JumpWithOffset { x, nnn }),
        0xC => Ok(OpCode::Random { x, nn }),
        0xD => Ok(OpCode::Draw { x, y, n }),
        0xE => match nn {
            0x9E => Ok(OpCode::SkipIfKey { x }),
            0xA1 => Ok(OpCode::SkipIfNotKey { x }),
            _ => Err(DecodeError::UnrecognisedKeyOpCode { nn }),
        },
        _ => match nn {
            0x07 => Ok(OpCode::SetRegisterToDelayTimer { x }),
            0x0A => Ok(OpCode::GetKey { x }),
            0x15 => Ok(OpCode::SetDelayTimerToRegister { x }),
            0x18 => Ok(OpCode::SetSoundTimerToRegister { x }),
            0x1E => Ok(OpCode::AddRegisterToIndex { x }),
            0x29 => Ok(OpCode::FontCharacter { x }),
            0x33 => Ok(OpCode::BinaryCodedDecimalConversion { x }),
            0x55 => Ok(OpCode::StoreRegistersToMemory { x }),
            0x65 => Ok(OpCode::LoadRegistersFromMemory { x }),
            _ => Err(DecodeError::UnrecognisedMiscOpCode { nn }),
        },
    }
}

} // verus!
