//! Properties of the instruction set that hold across instructions and cycles.
use vstd::prelude::*;
use crate::opcode::{OpCode, opcode_wf};
use crate::semantics::{
    MachineState, state_wf, execute_spec, execute_defined, cycle_spec, next_opcode, draw_flips,
    draw_collides, reg, tick_timers_times, CARRY_FLAG_REG, SCREEN_SIZE,
};

verus! {

/// Every instruction keeps memory, registers and screen at their sizes.
pub proof fn lemma_execute_preserves_wf(s: MachineState, op: OpCode, random: u8)
    requires
        state_wf(s),
        opcode_wf(op),
        execute_defined(s, op),
    ensures
        state_wf(execute_spec(s, op, random)),
{
}

/// A cycle keeps memory, registers and screen at their sizes.
pub proof fn lemma_cycle_preserves_wf(s: MachineState, random: u8)
    requires
        state_wf(s),
        s.program_counter + 1 < s.memory.len(),
        opcode_wf(next_opcode(s)),
        execute_defined(crate::semantics::fetched(s), next_opcode(s)),
    ensures
        state_wf(cycle_spec(s, random)),
{
    lemma_execute_preserves_wf(crate::semantics::fetched(s), next_opcode(s), random);
}

/// Only CXNN reads the random byte: any other instruction, and any cycle
/// that runs another instruction, has one outcome.
pub proof fn lemma_only_random_reads_random(s: MachineState, r1: u8, r2: u8)
    requires
        !(next_opcode(s) is Random),
    ensures
        cycle_spec(s, r1) == cycle_spec(s, r2),
{
}

/// After a cycle no key is pressed any more.
pub proof fn lemma_cycle_consumes_input(s: MachineState, random: u8)
    ensures
        cycle_spec(s, random).current_input is None,
{
}

/// Drawing the same sprite twice at the same place leaves the screen as it
/// was, provided neither coordinate is held in VF, which the first drawing
/// overwrites with its collision flag.
pub proof fn lemma_draw_twice_restores_display(s: MachineState, x: u8, y: u8, n: u8, r1: u8, r2: u8)
    requires
        state_wf(s),
        opcode_wf(OpCode::Draw { x, y, n }),
        execute_defined(s, OpCode::Draw { x, y, n }),
        x != CARRY_FLAG_REG,
        y != CARRY_FLAG_REG,
    ensures
        execute_spec(execute_spec(s, OpCode::Draw { x, y, n }, r1), OpCode::Draw { x, y, n }, r2).display
            == s.display,
{
    let s1 = execute_spec(s, OpCode::Draw { x, y, n }, r1);
    let s2 = execute_spec(s1, OpCode::Draw { x, y, n }, r2);
    assert(reg(s1, x) == reg(s, x));
    assert(reg(s1, y) == reg(s, y));
    assert forall|p: int| 0 <= p < SCREEN_SIZE implies s2.display[p] == s.display[p] by {
        assert(draw_flips(s1, x, y, n, p) == draw_flips(s, x, y, n, p));
    }
    assert(s2.display =~= s.display);
}

/// A sprite drawn on a cleared screen turns nothing off, so VF becomes 0.
pub proof fn lemma_draw_on_clear_screen_no_collision(s: MachineState, x: u8, y: u8, n: u8, r1: u8, r2: u8)
    requires
        state_wf(s),
    ensures
        ({
            let cleared = execute_spec(s, OpCode::ClearScreen, r1);
            reg(execute_spec(cleared, OpCode::Draw { x, y, n }, r2), CARRY_FLAG_REG as u8) == 0
        }),
{
    let cleared = execute_spec(s, OpCode::ClearScreen, r1);
    assert(!draw_collides(cleared, x, y, n));
}

/// Returning from a subroutine right after calling it restores the machine
/// exactly: the program counter comes back from the stack, and the stack
/// loses the address it gained.
pub proof fn lemma_call_then_return(s: MachineState, nnn: u16, r1: u8, r2: u8)
    ensures
        execute_spec(execute_spec(s, OpCode::CallSubroutine { nnn }, r1), OpCode::PopSubroutine, r2) == s,
{
    let s1 = execute_spec(s, OpCode::CallSubroutine { nnn }, r1);
    assert(s1.stack.drop_last() =~= s.stack);
}

/// With the modern behaviour, FX65 right after FX55 (same X, same index)
/// reads back what was stored: registers and everything else stay as FX55 left them.
pub proof fn lemma_store_then_load_round_trip(s: MachineState, x: u8, r1: u8, r2: u8)
    requires
        state_wf(s),
        !s.original_behaviour,
        x < 16,
        execute_defined(s, OpCode::StoreRegistersToMemory { x }),
    ensures
        ({
            let stored = execute_spec(s, OpCode::StoreRegistersToMemory { x }, r1);
            let loaded = execute_spec(stored, OpCode::LoadRegistersFromMemory { x }, r2);
            loaded == stored && loaded.registers == s.registers
        }),
{
    let stored = execute_spec(s, OpCode::StoreRegistersToMemory { x }, r1);
    let loaded = execute_spec(stored, OpCode::LoadRegistersFromMemory { x }, r2);
    assert(loaded.registers =~= s.registers);
    assert(loaded =~= stored);
}

/// FX33 writes the three decimal digits of VX: each below ten, and together
/// they make up VX.
pub proof fn lemma_bcd_digits(s: MachineState, x: u8, random: u8)
    requires
        state_wf(s),
        x < 16,
        execute_defined(s, OpCode::BinaryCodedDecimalConversion { x }),
    ensures
        ({
            let t = execute_spec(s, OpCode::BinaryCodedDecimalConversion { x }, random);
            let m = t.memory;
            let i = s.index_register as int;
            &&& m[i] < 10 && m[i + 1] < 10 && m[i + 2] < 10
            &&& 100 * m[i] + 10 * m[i + 1] + m[i + 2] == reg(s, x)
            &&& m.len() == s.memory.len()
            &&& forall|a: int| 0 <= a < m.len() && !(i <= a <= i + 2) ==> m[a] == s.memory[a]
            &&& t == (MachineState { memory: m, ..s })
        }),
{
    let v = reg(s, x);
    assert(v / 100 < 10 && (v % 100) / 10 < 10 && v % 10 < 10 && 100 * (v / 100) + 10 * ((v % 100) / 10) + v % 10 == v) by (nonlinear_arith);
}

/// 8XY4: VF becomes 1 exactly when VX + VY exceeds 255, and unless X is VF
/// itself, VX becomes the sum modulo 256; no other register changes.
pub proof fn lemma_add_sets_carry(s: MachineState, x: u8, y: u8, random: u8)
    requires
        state_wf(s),
        x < 16,
        y < 16,
    ensures
        ({
            let t = execute_spec(s, OpCode::AddRegisterToRegister { x, y }, random);
            &&& reg(t, CARRY_FLAG_REG as u8) == if reg(s, x) + reg(s, y) > 255 { 1u8 } else { 0u8 }
            &&& x != CARRY_FLAG_REG ==> reg(t, x) == (reg(s, x) + reg(s, y)) % 256
            &&& forall|r: u8| r < 16 && r != x && r != CARRY_FLAG_REG ==> reg(t, r) == reg(s, r)
            &&& t == (MachineState { registers: t.registers, ..s })
        }),
{
}

/// `k` calls of the timer tick take `k` from each timer, stopping at zero;
/// once `k` reaches 255 both timers are zero and the sound is off.
pub proof fn lemma_timers_count_down(s: MachineState, k: nat)
    ensures
        tick_timers_times(s, k).delay_timer == if s.delay_timer >= k { s.delay_timer - k } else { 0 },
        tick_timers_times(s, k).sound_timer == if s.sound_timer >= k { s.sound_timer - k } else { 0 },
        tick_timers_times(s, k) == (MachineState {
            delay_timer: tick_timers_times(s, k).delay_timer,
            sound_timer: tick_timers_times(s, k).sound_timer,
            ..s
        }),
        k >= 255 ==> tick_timers_times(s, k).sound_timer == 0 && tick_timers_times(s, k).delay_timer == 0,
    decreases k,
{
    if k > 0 {
        lemma_timers_count_down(s, (k - 1) as nat);
    }
}

/// 8XY5 with registers other than VF: VX becomes VX - VY modulo 256, and VF
/// is 1 exactly when no borrow occurs (VX >= VY).
pub proof fn lemma_subtract_sets_borrow(s: MachineState, x: u8, y: u8, random: u8)
    requires
        state_wf(s),
        x < 15,
        y < 15,
    ensures
        ({
            let t = execute_spec(s, OpCode::SubtractXY { x, y }, random);
            &&& reg(t, x) == (reg(s, x) - reg(s, y) + 256) % 256
            &&& reg(t, CARRY_FLAG_REG as u8) == if reg(s, x) >= reg(s, y) { 1u8 } else { 0u8 }
            &&& forall|r: u8| r < 15 && r != x ==> reg(t, r) == reg(s, r)
            &&& t == (MachineState { registers: t.registers, ..s })
        }),
{
}

/// 8XY6 with the modern behaviour and X other than VF: VF receives the bit
/// shifted out, and VX is halved.
pub proof fn lemma_shift_right_flag(s: MachineState, x: u8, y: u8, random: u8)
    requires
        state_wf(s),
        !s.original_behaviour,
        x < 15,
        y < 16,
    ensures
        ({
            let t = execute_spec(s, OpCode::ShiftRight { x, y }, random);
            &&& reg(t, x) == reg(s, x) / 2
            &&& reg(t, CARRY_FLAG_REG as u8) == reg(s, x) % 2
        }),
{
    let v = reg(s, x);
    assert((v & 1u8) == v % 2 && (v >> 1u8) == v / 2) by (bit_vector);
}

/// CXNN leaves no bit set in VX that is clear in NN, whatever the random byte.
pub proof fn lemma_random_is_masked(s: MachineState, x: u8, nn: u8, random: u8)
    requires
        state_wf(s),
        x < 16,
    ensures
        reg(execute_spec(s, OpCode::Random { x, nn }, random), x) & !nn == 0,
{
    assert((random & nn) & !nn == 0) by (bit_vector);
}

/// FX0A waits for its key: without the key in VX pressed, the cycle leaves the
/// program counter where it was, so the instruction runs again; with it, the
/// program moves on to the next instruction.
pub proof fn lemma_get_key_waits(s: MachineState, x: u8, random: u8)
    requires
        state_wf(s),
        s.program_counter + 1 < s.memory.len(),
        next_opcode(s) == (OpCode::GetKey { x }),
    ensures
        (s.current_input != Some(reg(s, x))) ==> cycle_spec(s, random).program_counter == s.program_counter,
        (s.current_input == Some(reg(s, x))) ==> cycle_spec(s, random).program_counter == s.program_counter + 2,
{
    let f = crate::semantics::fetched(s);
    assert(f.program_counter == s.program_counter + 2);
    assert(f.program_counter.wrapping_sub(2) == s.program_counter);
}

} // verus!
