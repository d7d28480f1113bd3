//! What each instruction does, stated in terms of plain arithmetic on its
//! operands and results.
use vstd::prelude::*;
use vstd::arithmetic::power2::{pow2, lemma2_to64};
use vstd::arithmetic::div_mod::{lemma_fundamental_div_mod, lemma_fundamental_div_mod_converse};
use crate::opcode::OpCode;
use crate::semantics::{
    MachineState, state_wf, execute_spec, execute_defined, draw_flips, draw_collides, sprite_bit,
};

verus! {

/// Bit `7 - j` of `b`: the `j`-th pixel from the left of a sprite row.
pub open spec fn bit_from_left(b: u8, j: int) -> bool {
    (b as int / pow2((7 - j) as nat) as int) % 2 == 1
}

/// Bit `i` of `b`, counted from the least significant.
pub open spec fn bit(b: u8, i: int) -> bool {
    (b as int / pow2(i as nat) as int) % 2 == 1
}

proof fn lemma_sprite_bit(b: u8, j: int)
    requires
        0 <= j < 8,
    ensures
        sprite_bit(b, j) == bit_from_left(b, j),
{
    lemma2_to64();
    if j == 0 {
        assert(((b >> 7u8) & 1u8 == 1u8) == ((b / 128) % 2 == 1)) by (bit_vector);
    } else if j == 1 {
        assert(((b >> 6u8) & 1u8 == 1u8) == ((b / 64) % 2 == 1)) by (bit_vector);
    } else if j == 2 {
        assert(((b >> 5u8) & 1u8 == 1u8) == ((b / 32) % 2 == 1)) by (bit_vector);
    } else if j == 3 {
        assert(((b >> 4u8) & 1u8 == 1u8) == ((b / 16) % 2 == 1)) by (bit_vector);
    } else if j == 4 {
        assert(((b >> 3u8) & 1u8 == 1u8) == ((b / 8) % 2 == 1)) by (bit_vector);
    } else if j == 5 {
        assert(((b >> 2u8) & 1u8 == 1u8) == ((b / 4) % 2 == 1)) by (bit_vector);
    } else if j == 6 {
        assert(((b >> 1u8) & 1u8 == 1u8) == ((b / 2) % 2 == 1)) by (bit_vector);
    } else {
        assert(((b >> 0u8) & 1u8 == 1u8) == ((b / 1) % 2 == 1)) by (bit_vector);
    }
}

/// Screen pixel `p` lies in row `r` and column `c`.
proof fn lemma_pixel_coordinates(r: int, c: int)
    requires
        0 <= r,
        0 <= c < 64,
    ensures
        (r * 64 + c) / 64 == r,
        (r * 64 + c) % 64 == c,
{
    lemma_fundamental_div_mod_converse(r * 64 + c, 64, r, c);
}

/// Sprite pixel (`k`, `j`) of DXYN lands on the screen on a lit pixel and is lit itself.
pub open spec fn lit_under_sprite(s: MachineState, x: u8, y: u8, n: u8, k: int, j: int) -> bool {
    let r0 = s.registers[y as int] % 32;
    let c0 = s.registers[x as int] % 64;
    &&& 0 <= k < n
    &&& 0 <= j < 8
    &&& r0 + k < 32
    &&& c0 + j < 64
    &&& bit_from_left(s.memory[s.index_register + k], j)
    &&& s.display[(r0 + k) * 64 + c0 + j]
}

/// DXYN places sprite row `k` (the byte at I + k) on screen row VY mod 32 + k
/// and its pixel `j` on column VX mod 64 + j: that screen pixel is flipped
/// exactly when bit 7 - j of the byte is set.
pub proof fn lemma_draw_places_sprite(s: MachineState, x: u8, y: u8, n: u8, random: u8, k: int, j: int)
    requires
        state_wf(s),
        x < 16,
        y < 16,
        n < 16,
        execute_defined(s, OpCode::Draw { x, y, n }),
        0 <= k < n,
        0 <= j < 8,
        s.registers[y as int] % 32 + k < 32,
        s.registers[x as int] % 64 + j < 64,
    ensures
        ({
            let t = execute_spec(s, OpCode::Draw { x, y, n }, random);
            let p = (s.registers[y as int] % 32 + k) * 64 + s.registers[x as int] % 64 + j;
            t.display[p] == (s.display[p] != bit_from_left(s.memory[s.index_register + k], j))
        }),
{
    let r0 = s.registers[y as int] % 32;
    let c0 = s.registers[x as int] % 64;
    lemma_pixel_coordinates(r0 + k, c0 + j);
    lemma_sprite_bit(s.memory[s.index_register + k], j);
}

/// DXYN leaves every pixel outside the sprite's box untouched, and changes
/// nothing but the screen and VF.
pub proof fn lemma_draw_outside_unchanged(s: MachineState, x: u8, y: u8, n: u8, random: u8, p: int)
    requires
        state_wf(s),
        x < 16,
        y < 16,
        n < 16,
        0 <= p < 2048,
        !(s.registers[y as int] % 32 <= p / 64 < s.registers[y as int] % 32 + n && s.registers[x as int] % 64
            <= p % 64 < s.registers[x as int] % 64 + 8),
    ensures
        ({
            let t = execute_spec(s, OpCode::Draw { x, y, n }, random);
            &&& t.display[p] == s.display[p]
            &&& t == (MachineState { display: t.display, registers: t.registers, ..s })
            &&& forall|i: int| 0 <= i < 15 ==> t.registers[i] == s.registers[i]
        }),
{
}

/// DXYN sets VF to 1 exactly when some lit sprite pixel lands on a lit
/// screen pixel, and to 0 otherwise.
pub proof fn lemma_draw_collision_flag(s: MachineState, x: u8, y: u8, n: u8, random: u8)
    requires
        state_wf(s),
        x < 16,
        y < 16,
        n < 16,
        execute_defined(s, OpCode::Draw { x, y, n }),
    ensures
        execute_spec(s, OpCode::Draw { x, y, n }, random).registers[15] == if exists|k: int, j: int|
            #[trigger] lit_under_sprite(s, x, y, n, k, j) {
            1u8
        } else {
            0u8
        },
{
    let r0 = s.registers[y as int] % 32;
    let c0 = s.registers[x as int] % 64;
    if draw_collides(s, x, y, n) {
        let p = choose|p: int| 0 <= p < 2048 && #[trigger] draw_flips(s, x, y, n, p) && s.display[p];
        lemma_fundamental_div_mod(p, 64);
        let k = p / 64 - r0;
        let j = p % 64 - c0;
        assert(p == (r0 + k) * 64 + c0 + j);
        lemma_sprite_bit(s.memory[s.index_register + k], j);
        assert(lit_under_sprite(s, x, y, n, k, j));
    }
    if exists|k: int, j: int| #[trigger] lit_under_sprite(s, x, y, n, k, j) {
        let (k, j) = choose|k: int, j: int| #[trigger] lit_under_sprite(s, x, y, n, k, j);
        let p = (r0 + k) * 64 + c0 + j;
        lemma_pixel_coordinates(r0 + k, c0 + j);
        lemma_sprite_bit(s.memory[s.index_register + k], j);
        assert(draw_flips(s, x, y, n, p));
        assert(draw_collides(s, x, y, n));
    }
}

/// FX65, in either mode: V0 to VX (VX included) take the bytes at I, I + 1,
/// ..., I + X; the other registers keep their values; on the original
/// interpreter I ends at I + X + 1, otherwise it stays; memory, screen and
/// the rest are untouched.
pub proof fn lemma_load_registers(s: MachineState, x: u8, random: u8)
    requires
        state_wf(s),
        x < 16,
        s.index_register + x < 4096,
    ensures
        ({
            let t = execute_spec(s, OpCode::LoadRegistersFromMemory { x }, random);
            &&& forall|i: int| 0 <= i <= x ==> t.registers[i] == s.memory[s.index_register + i]
            &&& forall|i: int| x < i < 16 ==> t.registers[i] == s.registers[i]
            &&& t.registers.len() == 16
            &&& t.index_register == if s.original_behaviour { s.index_register + x + 1 } else { s.index_register as int }
            &&& t == (MachineState { registers: t.registers, index_register: t.index_register, ..s })
        }),
{
}

/// FX55, in either mode: the bytes at I, I + 1, ..., I + X take V0 to VX (VX
/// included); every other byte keeps its value; on the original interpreter
/// I ends at I + X + 1, otherwise it stays.
pub proof fn lemma_store_registers(s: MachineState, x: u8, random: u8)
    requires
        state_wf(s),
        x < 16,
        s.index_register + x < 4096,
    ensures
        ({
            let t = execute_spec(s, OpCode::StoreRegistersToMemory { x }, random);
            &&& forall|i: int| 0 <= i <= x ==> t.memory[s.index_register + i] == s.registers[i]
            &&& forall|a: int|
                0 <= a < 4096 && !(s.index_register <= a <= s.index_register + x) ==> t.memory[a] == s.memory[a]
            &&& t.memory.len() == 4096
            &&& t.index_register == if s.original_behaviour { s.index_register + x + 1 } else { s.index_register as int }
            &&& t == (MachineState { memory: t.memory, index_register: t.index_register, ..s })
        }),
{
}

/// FX55 then FX65 with the same X and the same start address gives back V0
/// to VX, in either mode (on the original interpreter I is first set back,
/// since FX55 moved it).
pub proof fn lemma_store_then_load_any_mode(s: MachineState, x: u8, r1: u8, r2: u8)
    requires
        state_wf(s),
        x < 16,
        s.index_register + x < 4096,
    ensures
        ({
            let stored = execute_spec(s, OpCode::StoreRegistersToMemory { x }, r1);
            let rewound = MachineState { index_register: s.index_register, ..stored };
            execute_spec(rewound, OpCode::LoadRegistersFromMemory { x }, r2).registers == s.registers
        }),
{
    let stored = execute_spec(s, OpCode::StoreRegistersToMemory { x }, r1);
    let rewound = MachineState { index_register: s.index_register, ..stored };
    lemma_store_registers(s, x, r1);
    lemma_load_registers(rewound, x, r2);
    assert(execute_spec(rewound, OpCode::LoadRegistersFromMemory { x }, r2).registers =~= s.registers);
}

/// 8XYE with X other than VF: the shifted value is VX (modern) or VY
/// (original interpreter); VX becomes twice it modulo 256, VF its top bit
/// (the bit shifted out); no other register changes.
pub proof fn lemma_shift_left(s: MachineState, x: u8, y: u8, random: u8)
    requires
        state_wf(s),
        x < 15,
        y < 16,
    ensures
        ({
            let t = execute_spec(s, OpCode::ShiftLeft { x, y }, random);
            let v = if s.original_behaviour { s.registers[y as int] } else { s.registers[x as int] };
            &&& t.registers[x as int] == (v * 2) % 256
            &&& t.registers[15] == v / 128
            &&& forall|i: int| 0 <= i < 15 && i != x ==> t.registers[i] == s.registers[i]
            &&& t == (MachineState { registers: t.registers, ..s })
        }),
{
    let v = if s.original_behaviour { s.registers[y as int] } else { s.registers[x as int] };
    assert((v << 1u8) == (v * 2) % 256 && ((v & 0x80u8 == 0x80u8) == (v / 128 == 1)) && v / 128 <= 1) by (bit_vector);
}

/// 8XY6 with X other than VF: the shifted value is VX (modern) or VY
/// (original interpreter); VX becomes half of it, VF its low bit (the bit
/// shifted out); no other register changes.
pub proof fn lemma_shift_right(s: MachineState, x: u8, y: u8, random: u8)
    requires
        state_wf(s),
        x < 15,
        y < 16,
    ensures
        ({
            let t = execute_spec(s, OpCode::ShiftRight { x, y }, random);
            let v = if s.original_behaviour { s.registers[y as int] } else { s.registers[x as int] };
            &&& t.registers[x as int] == v / 2
            &&& t.registers[15] == v % 2
            &&& forall|i: int| 0 <= i < 15 && i != x ==> t.registers[i] == s.registers[i]
            &&& t == (MachineState { registers: t.registers, ..s })
        }),
{
    let v = if s.original_behaviour { s.registers[y as int] } else { s.registers[x as int] };
    assert((v >> 1u8) == v / 2 && (v & 1u8) == v % 2) by (bit_vector);
}

/// The program counter after an instruction that skips the next one.
pub open spec fn pc_plus_two(s: MachineState) -> int {
    (s.program_counter + 2) % 65536
}

/// EX9E skips the next instruction exactly when the key in VX is pressed;
/// nothing else changes.
pub proof fn lemma_skip_if_key(s: MachineState, x: u8, random: u8)
    requires
        state_wf(s),
        x < 16,
    ensures
        ({
            let t = execute_spec(s, OpCode::SkipIfKey { x }, random);
            &&& t.program_counter == if s.current_input == Some(s.registers[x as int]) {
                pc_plus_two(s)
            } else {
                s.program_counter as int
            }
            &&& t == (MachineState { program_counter: t.program_counter, ..s })
        }),
{
}

/// EXA1 skips the next instruction exactly when the key in VX is not
/// pressed (another key, or none); nothing else changes.
pub proof fn lemma_skip_if_not_key(s: MachineState, x: u8, random: u8)
    requires
        state_wf(s),
        x < 16,
    ensures
        ({
            let t = execute_spec(s, OpCode::SkipIfNotKey { x }, random);
            &&& t.program_counter == if s.current_input != Some(s.registers[x as int]) {
                pc_plus_two(s)
            } else {
                s.program_counter as int
            }
            &&& t == (MachineState { program_counter: t.program_counter, ..s })
        }),
{
}

/// Exactly one of EX9E and EXA1 skips.
pub proof fn lemma_key_skips_complementary(s: MachineState, x: u8, r1: u8, r2: u8)
    requires
        state_wf(s),
        x < 16,
    ensures
        (execute_spec(s, OpCode::SkipIfKey { x }, r1).program_counter == s.program_counter)
            != (execute_spec(s, OpCode::SkipIfNotKey { x }, r2).program_counter == s.program_counter),
{
    lemma_skip_if_key(s, x, r1);
    lemma_skip_if_not_key(s, x, r2);
}

/// 3XNN skips exactly when VX equals NN; nothing else changes.
pub proof fn lemma_skip_if_equal(s: MachineState, x: u8, nn: u8, random: u8)
    requires
        state_wf(s),
        x < 16,
    ensures
        ({
            let t = execute_spec(s, OpCode::SkipIfEqual { x, nn }, random);
            &&& t.program_counter == if s.registers[x as int] == nn { pc_plus_two(s) } else { s.program_counter as int }
            &&& t == (MachineState { program_counter: t.program_counter, ..s })
        }),
{
}

/// 4XNN skips exactly when VX differs from NN; nothing else changes.
pub proof fn lemma_skip_if_not_equal(s: MachineState, x: u8, nn: u8, random: u8)
    requires
        state_wf(s),
        x < 16,
    ensures
        ({
            let t = execute_spec(s, OpCode::SkipIfNotEqual { x, nn }, random);
            &&& t.program_counter == if s.registers[x as int] != nn { pc_plus_two(s) } else { s.program_counter as int }
            &&& t == (MachineState { program_counter: t.program_counter, ..s })
        }),
{
}

/// 5XY0 skips exactly when VX equals VY; nothing else changes.
pub proof fn lemma_skip_if_registers_equal(s: MachineState, x: u8, y: u8, random: u8)
    requires
        state_wf(s),
        x < 16,
        y < 16,
    ensures
        ({
            let t = execute_spec(s, OpCode::SkipIfRegisterEqual { x, y }, random);
            &&& t.program_counter == if s.registers[x as int] == s.registers[y as int] {
                pc_plus_two(s)
            } else {
                s.program_counter as int
            }
            &&& t == (MachineState { program_counter: t.program_counter, ..s })
        }),
{
}

/// 9XY0 skips exactly when VX differs from VY; nothing else changes.
pub proof fn lemma_skip_if_registers_not_equal(s: MachineState, x: u8, y: u8, random: u8)
    requires
        state_wf(s),
        x < 16,
        y < 16,
    ensures
        ({
            let t = execute_spec(s, OpCode::SkipIfRegisterNotEqual { x, y }, random);
            &&& t.program_counter == if s.registers[x as int] != s.registers[y as int] {
                pc_plus_two(s)
            } else {
                s.program_counter as int
            }
            &&& t == (MachineState { program_counter: t.program_counter, ..s })
        }),
{
}

/// Exactly one of 3XNN and 4XNN skips, and exactly one of 5XY0 and 9XY0.
pub proof fn lemma_register_skips_complementary(s: MachineState, x: u8, y: u8, nn: u8, r1: u8, r2: u8)
    requires
        state_wf(s),
        x < 16,
        y < 16,
    ensures
        (execute_spec(s, OpCode::SkipIfEqual { x, nn }, r1).program_counter == s.program_counter)
            != (execute_spec(s, OpCode::SkipIfNotEqual { x, nn }, r2).program_counter == s.program_counter),
        (execute_spec(s, OpCode::SkipIfRegisterEqual { x, y }, r1).program_counter == s.program_counter)
            != (execute_spec(s, OpCode::SkipIfRegisterNotEqual { x, y }, r2).program_counter
            == s.program_counter),
{
    lemma_skip_if_equal(s, x, nn, r1);
    lemma_skip_if_not_equal(s, x, nn, r2);
    lemma_skip_if_registers_equal(s, x, y, r1);
    lemma_skip_if_registers_not_equal(s, x, y, r2);
}

/// 00E0 turns every pixel off and changes nothing else.
pub proof fn lemma_clear_screen(s: MachineState, random: u8)
    requires
        state_wf(s),
    ensures
        ({
            let t = execute_spec(s, OpCode::ClearScreen, random);
            &&& t.display.len() == 2048
            &&& forall|p: int| 0 <= p < 2048 ==> !t.display[p]
            &&& t == (MachineState { display: t.display, ..s })
        }),
{
}

/// 1NNN continues at NNN; nothing else changes.
pub proof fn lemma_jump(s: MachineState, nnn: u16, random: u8)
    ensures
        execute_spec(s, OpCode::Jump { nnn }, random) == (MachineState { program_counter: nnn, ..s }),
{
}

/// 2NNN pushes the address of the next instruction on the stack and
/// continues at NNN.
pub proof fn lemma_call(s: MachineState, nnn: u16, random: u8)
    ensures
        ({
            let t = execute_spec(s, OpCode::CallSubroutine { nnn }, random);
            &&& t.program_counter == nnn
            &&& t.stack.len() == s.stack.len() + 1
            &&& t.stack[s.stack.len() as int] == s.program_counter
            &&& forall|i: int| 0 <= i < s.stack.len() ==> t.stack[i] == s.stack[i]
            &&& t == (MachineState { program_counter: t.program_counter, stack: t.stack, ..s })
        }),
{
}

/// 00EE continues at the address on top of the stack and removes it.
pub proof fn lemma_return(s: MachineState, random: u8)
    requires
        s.stack.len() > 0,
    ensures
        ({
            let t = execute_spec(s, OpCode::PopSubroutine, random);
            &&& t.program_counter == s.stack[s.stack.len() - 1]
            &&& t.stack.len() == s.stack.len() - 1
            &&& forall|i: int| 0 <= i < t.stack.len() ==> t.stack[i] == s.stack[i]
            &&& t == (MachineState { program_counter: t.program_counter, stack: t.stack, ..s })
        }),
{
}

/// Register `r` is unchanged unless it is register `x`.
pub open spec fn only_register_changed(s: MachineState, t: MachineState, x: int) -> bool {
    &&& t.registers.len() == 16
    &&& forall|i: int| 0 <= i < 16 && i != x ==> t.registers[i] == s.registers[i]
    &&& t == (MachineState { registers: t.registers, ..s })
}

/// 6XNN puts NN in VX.
pub proof fn lemma_set_register(s: MachineState, x: u8, nn: u8, random: u8)
    requires
        state_wf(s),
        x < 16,
    ensures
        ({
            let t = execute_spec(s, OpCode::SetRegister { x, nn }, random);
            t.registers[x as int] == nn && only_register_changed(s, t, x as int)
        }),
{
}

/// 7XNN adds NN to VX modulo 256, leaving VF alone (unless X is F).
pub proof fn lemma_add_value(s: MachineState, x: u8, nn: u8, random: u8)
    requires
        state_wf(s),
        x < 16,
    ensures
        ({
            let t = execute_spec(s, OpCode::AddValueToRegister { x, nn }, random);
            t.registers[x as int] == (s.registers[x as int] + nn) % 256 && only_register_changed(s, t, x as int)
        }),
{
}

/// 8XY0 copies VY into VX.
pub proof fn lemma_copy_register(s: MachineState, x: u8, y: u8, random: u8)
    requires
        state_wf(s),
        x < 16,
        y < 16,
    ensures
        ({
            let t = execute_spec(s, OpCode::SetRegisterToRegister { x, y }, random);
            t.registers[x as int] == s.registers[y as int] && only_register_changed(s, t, x as int)
        }),
{
}

proof fn lemma_bits_of_or_and_xor(a: u8, b: u8, i: int)
    requires
        0 <= i < 8,
    ensures
        bit(a | b, i) == (bit(a, i) || bit(b, i)),
        bit(a & b, i) == (bit(a, i) && bit(b, i)),
        bit(a ^ b, i) == (bit(a, i) != bit(b, i)),
{
    lemma2_to64();
    let k = i as u8;
    assert(((a | b) >> k) & 1 == (((a >> k) & 1) | ((b >> k) & 1))) by (bit_vector);
    assert(((a & b) >> k) & 1 == (((a >> k) & 1) & ((b >> k) & 1))) by (bit_vector);
    assert(((a ^ b) >> k) & 1 == (((a >> k) & 1) ^ ((b >> k) & 1))) by (bit_vector);
    lemma_bit_is_shift(a, i);
    lemma_bit_is_shift(b, i);
    lemma_bit_is_shift(a | b, i);
    lemma_bit_is_shift(a & b, i);
    lemma_bit_is_shift(a ^ b, i);
    let ab = (a >> k) & 1;
    let bb = (b >> k) & 1;
    assert(ab <= 1 && bb <= 1 ==> ((ab | bb) == 1) == (ab == 1 || bb == 1)) by (bit_vector);
    assert(ab <= 1 && bb <= 1 ==> ((ab & bb) == 1) == (ab == 1 && bb == 1)) by (bit_vector);
    assert(ab <= 1 && bb <= 1 ==> ((ab ^ bb) == 1) == (ab != bb)) by (bit_vector);
    assert(((a >> k) & 1) <= 1 && ((b >> k) & 1) <= 1) by (bit_vector);
}

proof fn lemma_bit_is_shift(b: u8, i: int)
    requires
        0 <= i < 8,
    ensures
        bit(b, i) == ((b >> (i as u8)) & 1 == 1),
{
    lemma2_to64();
    if i == 0 {
        assert(((b >> 0u8) & 1u8 == 1u8) == ((b / 1) % 2 == 1)) by (bit_vector);
    } else if i == 1 {
        assert(((b >> 1u8) & 1u8 == 1u8) == ((b / 2) % 2 == 1)) by (bit_vector);
    } else if i == 2 {
        assert(((b >> 2u8) & 1u8 == 1u8) == ((b / 4) % 2 == 1)) by (bit_vector);
    } else if i == 3 {
        assert(((b >> 3u8) & 1u8 == 1u8) == ((b / 8) % 2 == 1)) by (bit_vector);
    } else if i == 4 {
        assert(((b >> 4u8) & 1u8 == 1u8) == ((b / 16) % 2 == 1)) by (bit_vector);
    } else if i == 5 {
        assert(((b >> 5u8) & 1u8 == 1u8) == ((b / 32) % 2 == 1)) by (bit_vector);
    } else if i == 6 {
        assert(((b >> 6u8) & 1u8 == 1u8) == ((b / 64) % 2 == 1)) by (bit_vector);
    } else {
        assert(((b >> 7u8) & 1u8 == 1u8) == ((b / 128) % 2 == 1)) by (bit_vector);
    }
}

/// 8XY1, 8XY2 and 8XY3 set each bit of VX to the OR, the AND and the
/// exclusive OR of that bit of VX and VY; no other register changes.
pub proof fn lemma_bitwise(s: MachineState, x: u8, y: u8, random: u8)
    requires
        state_wf(s),
        x < 16,
        y < 16,
    ensures
        ({
            let vx = s.registers[x as int];
            let vy = s.registers[y as int];
            let t_or = execute_spec(s, OpCode::BinaryOr { x, y }, random);
            let t_and = execute_spec(s, OpCode::BinaryAnd { x, y }, random);
            let t_xor = execute_spec(s, OpCode::LogicalXor { x, y }, random);
            &&& forall|i: int| 0 <= i < 8 ==> bit(t_or.registers[x as int], i) == (bit(vx, i) || bit(vy, i))
            &&& forall|i: int| 0 <= i < 8 ==> bit(t_and.registers[x as int], i) == (bit(vx, i) && bit(vy, i))
            &&& forall|i: int| 0 <= i < 8 ==> bit(t_xor.registers[x as int], i) == (bit(vx, i) != bit(vy, i))
            &&& only_register_changed(s, t_or, x as int)
            &&& only_register_changed(s, t_and, x as int)
            &&& only_register_changed(s, t_xor, x as int)
        }),
{
    let vx = s.registers[x as int];
    let vy = s.registers[y as int];
    assert forall|i: int| 0 <= i < 8 implies bit(vx | vy, i) == (bit(vx, i) || bit(vy, i)) && bit(vx & vy, i) == (
    bit(vx, i) && bit(vy, i)) && bit(vx ^ vy, i) == (bit(vx, i) != bit(vy, i)) by {
        lemma_bits_of_or_and_xor(vx, vy, i);
    }
}

/// 8XY7 with registers other than VF: VX becomes VY - VX modulo 256, and VF
/// is 1 exactly when no borrow occurs (VY >= VX).
pub proof fn lemma_subtract_reversed(s: MachineState, x: u8, y: u8, random: u8)
    requires
        state_wf(s),
        x < 15,
        y < 15,
    ensures
        ({
            let t = execute_spec(s, OpCode::SubtractYX { x, y }, random);
            let vx = s.registers[x as int];
            let vy = s.registers[y as int];
            &&& t.registers[x as int] == (vy - vx + 256) % 256
            &&& t.registers[15] == if vy >= vx { 1u8 } else { 0u8 }
            &&& forall|i: int| 0 <= i < 15 && i != x ==> t.registers[i] == s.registers[i]
            &&& t == (MachineState { registers: t.registers, ..s })
        }),
{
}

/// ANNN puts NNN in I; nothing else changes.
pub proof fn lemma_set_index(s: MachineState, nnn: u16, random: u8)
    ensures
        execute_spec(s, OpCode::SetIndexRegister { nnn }, random) == (MachineState { index_register: nnn, ..s }),
{
}

/// BNNN continues at NNN plus V0 (original interpreter) or plus VX (modern).
pub proof fn lemma_jump_with_offset(s: MachineState, x: u8, nnn: u16, random: u8)
    requires
        state_wf(s),
        x < 16,
        nnn < 0x1000,
    ensures
        ({
            let t = execute_spec(s, OpCode::JumpWithOffset { x, nnn }, random);
            let base = if s.original_behaviour { s.registers[0] } else { s.registers[x as int] };
            &&& t.program_counter == nnn + base
            &&& t == (MachineState { program_counter: t.program_counter, ..s })
        }),
{
}

/// CXNN: each bit of VX is set exactly when it is set both in the random
/// byte and in NN.
pub proof fn lemma_random(s: MachineState, x: u8, nn: u8, random: u8)
    requires
        state_wf(s),
        x < 16,
    ensures
        ({
            let t = execute_spec(s, OpCode::Random { x, nn }, random);
            &&& forall|i: int| 0 <= i < 8 ==> bit(t.registers[x as int], i) == (bit(random, i) && bit(nn, i))
            &&& only_register_changed(s, t, x as int)
        }),
{
    assert forall|i: int| 0 <= i < 8 implies bit(random & nn, i) == (bit(random, i) && bit(nn, i)) by {
        lemma_bits_of_or_and_xor(random, nn, i);
    }
}

/// FX07 reads the delay timer into VX; FX15 and FX18 set the delay and the
/// sound timer from VX; nothing else changes.
pub proof fn lemma_timer_instructions(s: MachineState, x: u8, random: u8)
    requires
        state_wf(s),
        x < 16,
    ensures
        ({
            let t = execute_spec(s, OpCode::SetRegisterToDelayTimer { x }, random);
            t.registers[x as int] == s.delay_timer && only_register_changed(s, t, x as int)
        }),
        execute_spec(s, OpCode::SetDelayTimerToRegister { x }, random) == (MachineState {
            delay_timer: s.registers[x as int],
            ..s
        }),
        execute_spec(s, OpCode::SetSoundTimerToRegister { x }, random) == (MachineState {
            sound_timer: s.registers[x as int],
            ..s
        }),
{
}

/// FX1E adds VX to I modulo 65536; VF becomes 1 when I then lies past 0xFFF
/// and keeps its value otherwise.
pub proof fn lemma_add_to_index(s: MachineState, x: u8, random: u8)
    requires
        state_wf(s),
        x < 16,
    ensures
        ({
            let t = execute_spec(s, OpCode::AddRegisterToIndex { x }, random);
            &&& t.index_register == (s.index_register + s.registers[x as int]) % 65536
            &&& t.registers[15] == if t.index_register > 0xFFF { 1u8 } else { s.registers[15] }
            &&& only_register_changed(s, MachineState { index_register: s.index_register, ..t }, 15)
        }),
{
}

/// FX29 points I at the font glyph for the digit VX: five bytes per glyph
/// from 0x50 on.
pub proof fn lemma_font_character(s: MachineState, x: u8, random: u8)
    requires
        state_wf(s),
        x < 16,
    ensures
        execute_spec(s, OpCode::FontCharacter { x }, random) == (MachineState {
            index_register: (0x50 + 5 * s.registers[x as int]) as u16,
            ..s
        }),
        0x50 + 5 * s.registers[x as int] < 65536,
{
}

} // verus!
