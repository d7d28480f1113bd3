//! The mathematical model of a CHIP-8 machine and the meaning of every
//! instruction on it.
use vstd::prelude::*;
use crate::opcode::{OpCode, decode_spec, opcode_wf};

verus! {

/// Columns of the screen.
pub const PIXEL_COLUMNS: usize = 64;
/// Rows of the screen.
pub const PIXEL_ROWS: usize = 32;
/// Pixels of the screen.
pub const SCREEN_SIZE: usize = 2048;
/// Bytes of memory.
pub const MEMORY_SIZE: usize = 4096;
/// Number of general registers V0 to VF.
pub const REGISTER_COUNT: usize = 16;
/// Where a program is loaded and where execution starts.
pub const PROG_STARTING_ADDRESS: u16 = 0x200;
/// Where the built-in font is loaded.
pub const FONT_SET_STARTING_ADDRESS: u16 = 0x050;
/// The register VF, which instructions use as a carry, borrow or collision flag.
pub const CARRY_FLAG_REG: usize = 0xF;

/// The built-in font: five rows of one byte for each hexadecimal digit 0 to F.
pub open spec fn font_set() -> Seq<u8> {
    seq![
        0xF0u8, 0x90, 0x90, 0x90, 0xF0, 0x20, 0x60, 0x20, 0x20, 0x70, 0xF0, 0x10, 0xF0, 0x80, 0xF0, 0xF0,
        0x10, 0xF0, 0x10, 0xF0, 0x90, 0x90, 0xF0, 0x10, 0x10, 0xF0, 0x80, 0xF0, 0x10, 0xF0, 0xF0, 0x80,
        0xF0, 0x90, 0xF0, 0xF0, 0x10, 0x20, 0x40, 0x40, 0xF0, 0x90, 0xF0, 0x90, 0xF0, 0xF0, 0x90, 0xF0,
        0x10, 0xF0, 0xF0, 0x90, 0xF0, 0x90, 0x90, 0xE0, 0x90, 0xE0, 0x90, 0xE0, 0xF0, 0x80, 0x80, 0x80,
        0xF0, 0xE0, 0x90, 0x90, 0x90, 0xE0, 0xF0, 0x80, 0xF0, 0x80, 0xF0, 0xF0, 0x80, 0xF0, 0x80, 0x80,
    ]
}

/// Everything that the machine's instructions read and write.
pub struct MachineState {
    pub memory: Seq<u8>,
    pub program_counter: u16,
    pub index_register: u16,
    pub stack: Seq<u16>,
    pub delay_timer: u8,
    pub sound_timer: u8,
    pub registers: Seq<u8>,
    pub current_input: Option<u8>,
    /// Row-major: the pixel in row `r` and column `c` is at `r * 64 + c`.
    pub display: Seq<bool>,
    /// Whether 8XY6, 8XYE, BNNN, FX55 and FX65 behave as on the original interpreter.
    pub original_behaviour: bool,
}

/// One tick of the timers: each counts down by one unless it is already zero.
pub open spec fn tick_timers(s: MachineState) -> MachineState {
    MachineState {
        delay_timer: if s.delay_timer > 0 { (s.delay_timer - 1) as u8 } else { 0u8 },
        sound_timer: if s.sound_timer > 0 { (s.sound_timer - 1) as u8 } else { 0u8 },
        ..s
    }
}

/// `k` ticks of the timers in a row.
pub open spec fn tick_timers_times(s: MachineState, k: nat) -> MachineState
    decreases k,
{
    if k == 0 {
        s
    } else {
        tick_timers(tick_timers_times(s, (k - 1) as nat))
    }
}

/// Memory, registers and screen have their fixed sizes.
pub open spec fn state_wf(s: MachineState) -> bool {
    &&& s.memory.len() == MEMORY_SIZE
    &&& s.registers.len() == REGISTER_COUNT
    &&& s.display.len() == SCREEN_SIZE
}

/// The machine after loading `program` at 0x200: the font at 0x50, every
/// other byte of memory zero, registers, timers and screen cleared, no key
/// pressed, an empty stack and execution about to start at 0x200.
pub open spec fn initial_state(program: Seq<u8>, original_behaviour: bool) -> MachineState {
    MachineState {
        memory: Seq::new(
            MEMORY_SIZE as nat,
            |i: int|
                if FONT_SET_STARTING_ADDRESS <= i < FONT_SET_STARTING_ADDRESS + 80 {
                    font_set()[i - FONT_SET_STARTING_ADDRESS]
                } else if PROG_STARTING_ADDRESS <= i < PROG_STARTING_ADDRESS + program.len() {
                    program[i - PROG_STARTING_ADDRESS]
                } else {
                    0u8
                },
        ),
        program_counter: PROG_STARTING_ADDRESS,
        index_register: 0,
        stack: Seq::empty(),
        delay_timer: 0,
        sound_timer: 0,
        registers: Seq::new(REGISTER_COUNT as nat, |i: int| 0u8),
        current_input: None,
        display: Seq::new(SCREEN_SIZE as nat, |i: int| false),
        original_behaviour,
    }
}

/// The largest program that fits between 0x200 and the end of memory.
pub open spec fn max_program_len() -> nat {
    (MEMORY_SIZE - PROG_STARTING_ADDRESS) as nat
}

pub open spec fn reg(s: MachineState, r: u8) -> u8 {
    s.registers[r as int]
}

pub open spec fn with_registers(s: MachineState, registers: Seq<u8>) -> MachineState {
    MachineState { registers, ..s }
}

pub open spec fn with_pc(s: MachineState, program_counter: u16) -> MachineState {
    MachineState { program_counter, ..s }
}

/// Skips the next instruction when `cond` holds.
pub open spec fn skip_if(s: MachineState, cond: bool) -> MachineState {
    if cond {
        with_pc(s, s.program_counter.wrapping_add(2))
    } else {
        s
    }
}

/// Whether pixel `col` (0 is the leftmost) of a sprite row is lit: bit `7 - col` of the byte.
pub open spec fn sprite_bit(row: u8, col: int) -> bool {
    (row >> ((7 - col) as u8)) & 1u8 == 1u8
}

/// Column of the top-left corner of a sprite drawn at (VX, VY).
pub open spec fn draw_column(s: MachineState, x: u8) -> int {
    (reg(s, x) % 64) as int
}

/// Row of the top-left corner of a sprite drawn at (VX, VY).
pub open spec fn draw_row(s: MachineState, y: u8) -> int {
    (reg(s, y) % 32) as int
}

/// Whether DXYN flips screen pixel `p`: the pixel lies under the `n`-row
/// sprite read from memory at the index register, placed at (VX mod 64, VY mod 32)
/// and clipped at the screen's edges, and the sprite's pixel there is lit.
pub open spec fn draw_flips(s: MachineState, x: u8, y: u8, n: u8, p: int) -> bool {
    let r = p / 64;
    let c = p % 64;
    let r0 = draw_row(s, y);
    let c0 = draw_column(s, x);
    &&& r0 <= r < r0 + n
    &&& c0 <= c < c0 + 8
    &&& sprite_bit(s.memory[s.index_register + (r - r0)], c - c0)
}

/// Whether DXYN turns off a pixel that was lit.
pub open spec fn draw_collides(s: MachineState, x: u8, y: u8, n: u8) -> bool {
    exists|p: int| 0 <= p < SCREEN_SIZE && #[trigger] draw_flips(s, x, y, n, p) && s.display[p]
}

/// Sprite rows of DXYN that land on the screen.
pub open spec fn draw_rows_on_screen(s: MachineState, y: u8, n: u8) -> int {
    let r0 = draw_row(s, y);
    if r0 + n <= 32 { n as int } else { 32 - r0 }
}

/// DXYN: every pixel under a lit sprite pixel is flipped, and VF becomes 1
/// when a lit pixel was turned off, else 0.
pub open spec fn draw_spec(s: MachineState, x: u8, y: u8, n: u8) -> MachineState {
    MachineState {
        display: Seq::new(SCREEN_SIZE as nat, |p: int| s.display[p] != draw_flips(s, x, y, n, p)),
        registers: s.registers.update(CARRY_FLAG_REG as int, if draw_collides(s, x, y, n) { 1u8 } else { 0u8 }),
        ..s
    }
}

/// FX55: V0 to VX are written to memory from the index register on; on the
/// original interpreter the index register ends one past the last byte written.
pub open spec fn store_spec(s: MachineState, x: u8) -> MachineState {
    let i0 = s.index_register as int;
    MachineState {
        memory: Seq::new(
            s.memory.len(),
            |i: int| if i0 <= i <= i0 + x { s.registers[i - i0] } else { s.memory[i] },
        ),
        index_register: if s.original_behaviour { (i0 + x + 1) as u16 } else { s.index_register },
        ..s
    }
}

/// FX65: V0 to VX are read from memory from the index register on; on the
/// original interpreter the index register ends one past the last byte read.
pub open spec fn load_spec(s: MachineState, x: u8) -> MachineState {
    let i0 = s.index_register as int;
    MachineState {
        registers: Seq::new(
            s.registers.len(),
            |i: int| if i <= x { s.memory[i0 + i] } else { s.registers[i] },
        ),
        index_register: if s.original_behaviour { (i0 + x + 1) as u16 } else { s.index_register },
        ..s
    }
}

/// FX33: the hundreds, tens and units of VX, at the index register and the two bytes after it.
pub open spec fn bcd_spec(s: MachineState, x: u8) -> MachineState {
    let v = reg(s, x);
    let i0 = s.index_register as int;
    MachineState {
        memory: s.memory.update(i0, v / 100).update(i0 + 1, (v % 100) / 10).update(i0 + 2, v % 10),
        ..s
    }
}

/// What the instruction does to the machine; `random` is the random byte
/// that CXNN uses, and no other instruction reads it. Additions and
/// subtractions on registers, on the program counter and on the index
/// register wrap around.
pub open spec fn execute_spec(s: MachineState, op: OpCode, random: u8) -> MachineState {
    let regs = s.registers;
    let f = CARRY_FLAG_REG as int;
    match op {
        OpCode::ClearScreen => MachineState { display: Seq::new(SCREEN_SIZE as nat, |i: int| false), ..s },
        OpCode::PopSubroutine => MachineState {
            program_counter: s.stack.last(),
            stack: s.stack.drop_last(),
            ..s
        },
        OpCode::Jump { nnn } => with_pc(s, nnn),
        OpCode::CallSubroutine { nnn } => MachineState {
            stack: s.stack.push(s.program_counter),
            program_counter: nnn,
            ..s
        },
        OpCode::SkipIfEqual { x, nn } => skip_if(s, reg(s, x) == nn),
        OpCode::SkipIfNotEqual { x, nn } => skip_if(s, reg(s, x) != nn),
        OpCode::SkipIfRegisterEqual { x, y } => skip_if(s, reg(s, x) == reg(s, y)),
        OpCode::SkipIfRegisterNotEqual { x, y } => skip_if(s, reg(s, x) != reg(s, y)),
        OpCode::SetRegister { x, nn } => with_registers(s, regs.update(x as int, nn)),
        OpCode::AddValueToRegister { x, nn } => with_registers(s, regs.update(x as int, reg(s, x).wrapping_add(nn))),
        OpCode::SetRegisterToRegister { x, y } => with_registers(s, regs.update(x as int, reg(s, y))),
        OpCode::BinaryOr { x, y } => with_registers(s, regs.update(x as int, reg(s, x) | reg(s, y))),
        OpCode::BinaryAnd { x, y } => with_registers(s, regs.update(x as int, reg(s, x) & reg(s, y))),
        OpCode::LogicalXor { x, y } => with_registers(s, regs.update(x as int, reg(s, x) ^ reg(s, y))),
        OpCode::AddRegisterToRegister { x, y } => {
            // VF receives the carry out of VX + VY, and is written last
            let r1 = regs.update(x as int, reg(s, x).wrapping_add(reg(s, y)));
            with_registers(s, r1.update(f, if reg(s, x) + reg(s, y) > 255 { 1u8 } else { 0u8 }))
        },
        OpCode::SubtractXY { x, y } => {
            // the flag is written first, and the subtraction reads the registers after it
            let r1 = regs.update(f, if reg(s, x) >= reg(s, y) { 1u8 } else { 0u8 });
            with_registers(s, r1.update(x as int, r1[x as int].wrapping_sub(r1[y as int])))
        },
        OpCode::SubtractYX { x, y } => {
            let r1 = regs.update(f, if reg(s, y) >= reg(s, x) { 1u8 } else { 0u8 });
            with_registers(s, r1.update(x as int, r1[y as int].wrapping_sub(r1[x as int])))
        },
        OpCode::ShiftRight { x, y } => {
            let r0 = if s.original_behaviour { regs.update(x as int, reg(s, y)) } else { regs };
            let r1 = r0.update(f, r0[x as int] & 1u8);
            with_registers(s, r1.update(x as int, r1[x as int] >> 1u8))
        },
        OpCode::ShiftLeft { x, y } => {
            let r0 = if s.original_behaviour { regs.update(x as int, reg(s, y)) } else { regs };
            let r1 = r0.update(f, if r0[x as int] & 0x80u8 == 0x80u8 { 1u8 } else { 0u8 });
            with_registers(s, r1.update(x as int, r1[x as int] << 1u8))
        },
        OpCode::SetIndexRegister { nnn } => MachineState { index_register: nnn, ..s },
        OpCode::JumpWithOffset { x, nnn } => {
            let v = if s.original_behaviour { reg(s, 0) } else { reg(s, x) };
            with_pc(s, (v + nnn) as u16)
        },
        OpCode::Random { x, nn } => with_registers(s, regs.update(x as int, random & nn)),
        OpCode::Draw { x, y, n } => draw_spec(s, x, y, n),
        OpCode::SkipIfKey { x } => match s.current_input {
            None => s,
            Some(key) => skip_if(s, key == reg(s, x)),
        },
        OpCode::SkipIfNotKey { x } => match s.current_input {
            None => skip_if(s, true),
            Some(key) => skip_if(s, key != reg(s, x)),
        },
        OpCode::SetRegisterToDelayTimer { x } => with_registers(s, regs.update(x as int, s.delay_timer)),
        OpCode::SetDelayTimerToRegister { x } => MachineState { delay_timer: reg(s, x), ..s },
        OpCode::SetSoundTimerToRegister { x } => MachineState { sound_timer: reg(s, x), ..s },
        OpCode::AddRegisterToIndex { x } => {
            let index = s.index_register.wrapping_add(reg(s, x) as u16);
            MachineState {
                index_register: index,
                registers: if index > 0xFFF { regs.update(f, 1u8) } else { regs },
                ..s
            }
        },
        OpCode::GetKey { x } => {
            // without the awaited key, the instruction runs again
            let waiting = match s.current_input {
                None => true,
                Some(key) => key != reg(s, x),
            };
            if waiting { with_pc(s, s.program_counter.wrapping_sub(2)) } else { s }
        },
        OpCode::FontCharacter { x } => MachineState {
            index_register: (FONT_SET_STARTING_ADDRESS + reg(s, x) * 5) as u16,
            ..s
        },
        OpCode::BinaryCodedDecimalConversion { x } => bcd_spec(s, x),
        OpCode::StoreRegistersToMemory { x } => store_spec(s, x),
        OpCode::LoadRegistersFromMemory { x } => load_spec(s, x),
    }
}

/// The inputs on which an instruction runs without a fault: a return needs
/// an address on the stack, and every memory access must fall inside memory.
pub open spec fn execute_defined(s: MachineState, op: OpCode) -> bool {
    match op {
        OpCode::PopSubroutine => s.stack.len() > 0,
        OpCode::Draw { x, y, n } => {
            let rows = draw_rows_on_screen(s, y, n);
            rows <= 0 || s.index_register + rows <= MEMORY_SIZE
        },
        OpCode::BinaryCodedDecimalConversion { x } => s.index_register + 2 < MEMORY_SIZE,
        OpCode::StoreRegistersToMemory { x } => s.index_register + x < MEMORY_SIZE,
        OpCode::LoadRegistersFromMemory { x } => s.index_register + x < MEMORY_SIZE,
        _ => true,
    }
}

/// The machine once the instruction word at the program counter has been
/// fetched and the counter advanced past it.
pub open spec fn fetched(s: MachineState) -> MachineState {
    with_pc(s, (s.program_counter + 2) as u16)
}

/// The decoding of the instruction word at the program counter.
pub open spec fn next_decoded(s: MachineState) -> Result<OpCode, crate::opcode::DecodeError> {
    decode_spec(s.memory[s.program_counter as int], s.memory[s.program_counter + 1])
}

/// The instruction at the program counter.
pub open spec fn next_opcode(s: MachineState) -> OpCode {
    next_decoded(s)->Ok_0
}

/// A cycle runs without a fault: the instruction word lies inside memory,
/// it names an instruction, and that instruction runs without a fault.
pub open spec fn cycle_defined(s: MachineState) -> bool {
    &&& s.program_counter + 1 < MEMORY_SIZE
    &&& next_decoded(s) is Ok
    &&& execute_defined(fetched(s), next_opcode(s))
}

/// One cycle: fetch, decode, execute; the pressed key is then forgotten.
pub open spec fn cycle_spec(s: MachineState, random: u8) -> MachineState {
    MachineState { current_input: None, ..execute_spec(fetched(s), next_opcode(s), random) }
}

/// How the screen shows a pixel: lit or dark.
pub open spec fn pixel_char(on: bool) -> char {
    if on { '■' } else { '□' }
}

/// Row `r` of the screen as text: its 64 pixels from left to right, then a newline.
pub open spec fn display_row_text(display: Seq<bool>, r: int) -> Seq<char> {
    Seq::new(PIXEL_COLUMNS as nat, |c: int| pixel_char(display[r * 64 + c])).push('\n')
}

/// The first `rows` rows of the screen as text, top to bottom.
pub open spec fn display_text(display: Seq<bool>, rows: nat) -> Seq<char>
    decreases rows,
{
    if rows == 0 {
        Seq::empty()
    } else {
        display_text(display, (rows - 1) as nat) + display_row_text(display, rows - 1)
    }
}

} // verus!
