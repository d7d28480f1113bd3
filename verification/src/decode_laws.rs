//! Decoding read backwards: every instruction has a word that decodes to it,
//! and a decoded word is that instruction's word.
use vstd::prelude::*;
use vstd::arithmetic::div_mod::lemma_fundamental_div_mod;
use crate::opcode::{OpCode, DecodeError, decode_spec, opcode_wf};

verus! {

/// The instruction word of `op`, high byte first, with the nibbles that
/// decoding ignores set to zero.
pub open spec fn encode(op: OpCode) -> (u8, u8) {
    match op {
        OpCode::ClearScreen => (0x00, 0xE0),
        OpCode::PopSubroutine => (0x00, 0xEE),
        OpCode::Jump { nnn } => ((0x10 + nnn / 256) as u8, (nnn % 256) as u8),
        OpCode::CallSubroutine { nnn } => ((0x20 + nnn / 256) as u8, (nnn % 256) as u8),
        OpCode::SkipIfEqual { x, nn } => ((0x30 + x) as u8, nn),
        OpCode::SkipIfNotEqual { x, nn } => ((0x40 + x) as u8, nn),
        OpCode::SkipIfRegisterEqual { x, y } => ((0x50 + x) as u8, (y * 16) as u8),
        OpCode::SetRegister { x, nn } => ((0x60 + x) as u8, nn),
        OpCode::AddValueToRegister { x, nn } => ((0x70 + x) as u8, nn),
        OpCode::SetRegisterToRegister { x, y } => ((0x80 + x) as u8, (y * 16) as u8),
        OpCode::BinaryOr { x, y } => ((0x80 + x) as u8, (y * 16 + 1) as u8),
        OpCode::BinaryAnd { x, y } => ((0x80 + x) as u8, (y * 16 + 2) as u8),
        OpCode::LogicalXor { x, y } => ((0x80 + x) as u8, (y * 16 + 3) as u8),
        OpCode::AddRegisterToRegister { x, y } => ((0x80 + x) as u8, (y * 16 + 4) as u8),
        OpCode::SubtractXY { x, y } => ((0x80 + x) as u8, (y * 16 + 5) as u8),
        OpCode::ShiftRight { x, y } => ((0x80 + x) as u8, (y * 16 + 6) as u8),
        OpCode::SubtractYX { x, y } => ((0x80 + x) as u8, (y * 16 + 7) as u8),
        OpCode::ShiftLeft { x, y } => ((0x80 + x) as u8, (y * 16 + 0xE) as u8),
        OpCode::SkipIfRegisterNotEqual { x, y } => ((0x90 + x) as u8, (y * 16) as u8),
        OpCode::SetIndexRegister { nnn } => ((0xA0 + nnn / 256) as u8, (nnn % 256) as u8),
        OpCode::JumpWithOffset { x, nnn } => ((0xB0 + nnn / 256) as u8, (nnn % 256) as u8),
        OpCode::Random { x, nn } => ((0xC0 + x) as u8, nn),
        OpCode::Draw { x, y, n } => ((0xD0 + x) as u8, (y * 16 + n) as u8),
        OpCode::SkipIfKey { x } => ((0xE0 + x) as u8, 0x9E),
        OpCode::SkipIfNotKey { x } => ((0xE0 + x) as u8, 0xA1),
        OpCode::SetRegisterToDelayTimer { x } => ((0xF0 + x) as u8, 0x07),
        OpCode::GetKey { x } => ((0xF0 + x) as u8, 0x0A),
        OpCode::SetDelayTimerToRegister { x } => ((0xF0 + x) as u8, 0x15),
        OpCode::SetSoundTimerToRegister { x } => ((0xF0 + x) as u8, 0x18),
        OpCode::AddRegisterToIndex { x } => ((0xF0 + x) as u8, 0x1E),
        OpCode::FontCharacter { x } => ((0xF0 + x) as u8, 0x29),
        OpCode::BinaryCodedDecimalConversion { x } => ((0xF0 + x) as u8, 0x33),
        OpCode::StoreRegistersToMemory { x } => ((0xF0 + x) as u8, 0x55),
        OpCode::LoadRegistersFromMemory { x } => ((0xF0 + x) as u8, 0x65),
    }
}

proof fn lemma_nibbles(b: u8)
    ensures
        b == (b / 16) * 16 + b % 16,
        b / 16 < 16,
        b % 16 < 16,
{
    lemma_fundamental_div_mod(b as int, 16);
}

/// Every well-formed instruction is what its word decodes to (for BNNN, X
/// is the top nibble of NNN, as decoding makes it).
pub proof fn lemma_decode_encode(op: OpCode)
    requires
        opcode_wf(op),
        op matches OpCode::JumpWithOffset { x, nnn } ==> x == nnn / 256,
    ensures
        decode_spec(encode(op).0, encode(op).1) == Ok::<OpCode, DecodeError>(op),
{
    let (hi, lo) = encode(op);
    lemma_nibbles(hi);
    lemma_nibbles(lo);
    match op {
        OpCode::Jump { nnn } | OpCode::CallSubroutine { nnn } | OpCode::SetIndexRegister { nnn } => {
            lemma_fundamental_div_mod(nnn as int, 256);
        },
        OpCode::JumpWithOffset { x, nnn } => {
            lemma_fundamental_div_mod(nnn as int, 256);
        },
        _ => {},
    }
}

/// A word that decodes is the word of the instruction it decodes to, up to
/// the nibbles that decoding ignores: the last nibble of 5XY0 and 9XY0, and
/// the third nibble of 00E0 and 00EE.
pub proof fn lemma_decoded_word(hi: u8, lo: u8)
    ensures
        decode_spec(hi, lo) matches Ok(op) ==> {
            &&& encode(op).0 == hi
            &&& (hi / 16 == 5 || hi / 16 == 9) ==> encode(op).1 == lo - lo % 16
            &&& hi / 16 == 0 ==> encode(op).1 == 0xE0 + lo % 16
            &&& (hi / 16 != 0 && hi / 16 != 5 && hi / 16 != 9) ==> encode(op).1 == lo
        },
{
    lemma_nibbles(hi);
    lemma_nibbles(lo);
    if let Ok(op) = decode_spec(hi, lo) {
        match op {
            OpCode::Jump { nnn } | OpCode::CallSubroutine { nnn } | OpCode::SetIndexRegister { nnn } => {
                lemma_fundamental_div_mod(nnn as int, 256);
                assert(nnn == (hi % 16) * 256 + lo);
            },
            OpCode::JumpWithOffset { x, nnn } => {
                lemma_fundamental_div_mod(nnn as int, 256);
                assert(nnn == (hi % 16) * 256 + lo);
            },
            _ => {},
        }
    }
}

/// The words that name no instruction: 0XYN other than 00Y0 and 00YE; 8XYN
/// with N one of 8 to D or F; EXNN other than EX9E and EXA1; FXNN with NN
/// none of 07, 0A, 15, 18, 1E, 29, 33, 55, 65.
pub proof fn lemma_decode_rejects(hi: u8, lo: u8)
    ensures
        decode_spec(hi, lo) is Err <==> {
            ||| hi / 16 == 0 && !(hi % 16 == 0 && (lo % 16 == 0 || lo % 16 == 0xE))
            ||| hi / 16 == 8 && (8 <= lo % 16 <= 0xD || lo % 16 == 0xF)
            ||| hi / 16 == 0xE && lo != 0x9E && lo != 0xA1
            ||| hi / 16 == 0xF && lo != 0x07 && lo != 0x0A && lo != 0x15 && lo != 0x18 && lo != 0x1E
                && lo != 0x29 && lo != 0x33 && lo != 0x55 && lo != 0x65
        },
{
    lemma_nibbles(hi);
}

} // verus!
