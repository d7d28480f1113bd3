//! Properties of loading, of the screen's text and of the fetch step.
use vstd::prelude::*;
use crate::semantics::{MachineState, state_wf, initial_state, display_text, cycle_spec};

verus! {

/// A freshly loaded machine: execution starts at 0x200 where the program
/// lies byte for byte; the font sits at 0x50 to 0x9F; every other byte,
/// every register, both timers, the index register and every pixel are
/// zero; the stack is empty and no key is pressed.
pub proof fn lemma_initial_state(program: Seq<u8>, original_behaviour: bool)
    requires
        program.len() <= 4096 - 0x200,
    ensures
        ({
            let s = initial_state(program, original_behaviour);
            &&& state_wf(s)
            &&& s.program_counter == 0x200
            &&& s.index_register == 0
            &&& s.stack.len() == 0
            &&& s.delay_timer == 0 && s.sound_timer == 0
            &&& s.current_input is None
            &&& s.original_behaviour == original_behaviour
            &&& forall|i: int| 0 <= i < 16 ==> s.registers[i] == 0
            &&& forall|p: int| 0 <= p < 2048 ==> !s.display[p]
            &&& forall|i: int| 0 <= i < program.len() ==> s.memory[0x200 + i] == program[i]
            &&& forall|a: int|
                (0 <= a < 0x50 || 0xA0 <= a < 0x200 || 0x200 + program.len() <= a < 4096) ==> s.memory[a] == 0
            &&& s.memory.subrange(0x50, 0xA0) == seq![
                0xF0u8, 0x90, 0x90, 0x90, 0xF0, // 0
                0x20, 0x60, 0x20, 0x20, 0x70, // 1
                0xF0, 0x10, 0xF0, 0x80, 0xF0, // 2
                0xF0, 0x10, 0xF0, 0x10, 0xF0, // 3
                0x90, 0x90, 0xF0, 0x10, 0x10, // 4
                0xF0, 0x80, 0xF0, 0x10, 0xF0, // 5
                0xF0, 0x80, 0xF0, 0x90, 0xF0, // 6
                0xF0, 0x10, 0x20, 0x40, 0x40, // 7
                0xF0, 0x90, 0xF0, 0x90, 0xF0, // 8
                0xF0, 0x90, 0xF0, 0x10, 0xF0, // 9
                0xF0, 0x90, 0xF0, 0x90, 0x90, // A
                0xE0, 0x90, 0xE0, 0x90, 0xE0, // B
                0xF0, 0x80, 0x80, 0x80, 0xF0, // C
                0xE0, 0x90, 0x90, 0x90, 0xE0, // D
                0xF0, 0x80, 0xF0, 0x80, 0xF0, // E
                0xF0, 0x80, 0xF0, 0x80, 0x80, // F
            ]
        }),
{
    let s = initial_state(program, original_behaviour);
    assert(s.memory.subrange(0x50, 0xA0) =~= seq![
        0xF0u8, 0x90, 0x90, 0x90, 0xF0, 0x20, 0x60, 0x20, 0x20, 0x70, 0xF0, 0x10, 0xF0, 0x80, 0xF0,
        0xF0, 0x10, 0xF0, 0x10, 0xF0, 0x90, 0x90, 0xF0, 0x10, 0x10, 0xF0, 0x80, 0xF0, 0x10, 0xF0,
        0xF0, 0x80, 0xF0, 0x90, 0xF0, 0xF0, 0x10, 0x20, 0x40, 0x40, 0xF0, 0x90, 0xF0, 0x90, 0xF0,
        0xF0, 0x90, 0xF0, 0x10, 0xF0, 0xF0, 0x90, 0xF0, 0x90, 0x90, 0xE0, 0x90, 0xE0, 0x90, 0xE0,
        0xF0, 0x80, 0x80, 0x80, 0xF0, 0xE0, 0x90, 0x90, 0x90, 0xE0, 0xF0, 0x80, 0xF0, 0x80, 0xF0,
        0xF0, 0x80, 0xF0, 0x80, 0x80,
    ]);
}

proof fn lemma_display_text_rows(d: Seq<bool>, k: nat)
    requires
        d.len() == 2048,
        k <= 32,
    ensures
        display_text(d, k).len() == k * 65,
        forall|r: int, c: int|
            0 <= r < k && 0 <= c < 64 ==> #[trigger] display_text(d, k)[r * 65 + c] == if d[r * 64 + c] {
                '■'
            } else {
                '□'
            },
        forall|r: int| 0 <= r < k ==> #[trigger] display_text(d, k)[r * 65 + 64] == '\n',
    decreases k,
{
    if k > 0 {
        let k1 = (k - 1) as nat;
        lemma_display_text_rows(d, k1);
        let prev = display_text(d, k1);
        let t = display_text(d, k);
        assert(t.len() == k * 65) by (nonlinear_arith)
            requires
                t.len() == prev.len() + 65,
                prev.len() == k1 * 65,
                k1 + 1 == k,
        ;
        assert forall|r: int, c: int| 0 <= r < k && 0 <= c < 64 implies #[trigger] t[r * 65 + c] == if d[r * 64
            + c] {
            '■'
        } else {
            '□'
        } by {
            if r < k1 {
                assert(r * 65 + c < k1 * 65) by (nonlinear_arith)
                    requires
                        r < k1,
                        c < 64,
                ;
                assert(t[r * 65 + c] == prev[r * 65 + c]);
            } else {
                assert(r * 65 + c - prev.len() == c);
            }
        }
        assert forall|r: int| 0 <= r < k implies #[trigger] t[r * 65 + 64] == '\n' by {
            if r < k1 {
                assert(r * 65 + 64 < k1 * 65) by (nonlinear_arith)
                    requires
                        r < k1,
                ;
                assert(t[r * 65 + 64] == prev[r * 65 + 64]);
            } else {
                assert(r * 65 + 64 - prev.len() == 64);
            }
        }
    }
}

/// The screen's text has 32 lines of 65 characters: the character in line
/// `r` and column `c` is '■' when pixel `r * 64 + c` is lit and '□' when it
/// is dark, and each line ends in a newline.
pub proof fn lemma_display_text(d: Seq<bool>)
    requires
        d.len() == 2048,
    ensures
        display_text(d, 32).len() == 32 * 65,
        forall|r: int, c: int|
            0 <= r < 32 && 0 <= c < 64 ==> #[trigger] display_text(d, 32)[r * 65 + c] == if d[r * 64 + c] {
                '■'
            } else {
                '□'
            },
        forall|r: int| 0 <= r < 32 ==> #[trigger] display_text(d, 32)[r * 65 + 64] == '\n',
{
    lemma_display_text_rows(d, 32);
}

/// A cycle reads its instruction from the byte at the program counter (high
/// byte) and the byte after it: on a word 6XNN it puts NN in VX, moves the
/// program counter 2 on, forgets the key and changes nothing else.
pub proof fn lemma_cycle_fetches_word(s: MachineState, random: u8)
    requires
        state_wf(s),
        s.program_counter + 1 < 4096,
        s.memory[s.program_counter as int] / 16 == 6,
    ensures
        ({
            let t = cycle_spec(s, random);
            let x = s.memory[s.program_counter as int] % 16;
            &&& t.registers == s.registers.update(x as int, s.memory[s.program_counter + 1])
            &&& t.program_counter == s.program_counter + 2
            &&& t == (MachineState {
                registers: t.registers,
                program_counter: t.program_counter,
                current_input: None,
                ..s
            })
        }),
{
}

/// A cycle on a word 1NNN continues at NNN, and a cycle on a word 2NNN
/// continues at NNN with the address after the call on top of the stack.
pub proof fn lemma_cycle_control_flow(s: MachineState, random: u8)
    requires
        state_wf(s),
        s.program_counter + 1 < 4096,
    ensures
        ({
            let hi = s.memory[s.program_counter as int];
            let lo = s.memory[s.program_counter + 1];
            let t = cycle_spec(s, random);
            &&& hi / 16 == 1 ==> t.program_counter == (hi % 16) * 256 + lo && t.stack == s.stack
            &&& hi / 16 == 2 ==> t.program_counter == (hi % 16) * 256 + lo && t.stack == s.stack.push(
                (s.program_counter + 2) as u16,
            )
        }),
{
}

} // verus!
