//! The CHIP-8 machine: loading a program, running instruction cycles, timers,
//! key input and what a front end reads back.
use vstd::prelude::*;
use crate::entropy::{random_byte, thread_rng};
use crate::opcode::{OpCode, decode, opcode_wf};
use crate::semantics::{tick_timers, cycle_defined, cycle_spec, next_opcode, display_text, display_row_text, pixel_char, store_spec, load_spec, bcd_spec, execute_spec, draw_flips, draw_collides, draw_spec, draw_row, draw_column, sprite_bit, execute_defined, PIXEL_COLUMNS, PIXEL_ROWS, CARRY_FLAG_REG, MachineState, state_wf, initial_state, max_program_len, font_set, fetched, MEMORY_SIZE, REGISTER_COUNT, SCREEN_SIZE, FONT_SET_STARTING_ADDRESS, PROG_STARTING_ADDRESS};

verus! {

/// A CHIP-8 machine with its program loaded.
#[derive(Debug)]
pub struct Chip8Machine {
    memory: Vec<u8>,
    program_counter: u16,
    index_register: u16,
    stack: Vec<u16>,
    delay_timer: u8,
    sound_timer: u8,
    registers: Vec<u8>,
    current_input: Option<u8>,
    display: Vec<bool>,
    original_behaviour: bool,
    rand: rand::rngs::ThreadRng,
}

impl View for Chip8Machine {
    type V = MachineState;

    closed spec fn view(&self) -> MachineState {
        MachineState {
            memory: self.memory@,
            program_counter: self.program_counter,
            index_register: self.index_register,
            stack: self.stack@,
            delay_timer: self.delay_timer,
            sound_timer: self.sound_timer,
            registers: self.registers@,
            current_input: self.current_input,
            display: self.display@,
            original_behaviour: self.original_behaviour,
        }
    }
}

/// DXYN has treated pixel `p` once it has gone through the sprite rows
/// before `row`, and through the columns before `col` of row `row`.
spec fn draw_done(s: MachineState, x: u8, y: u8, n: u8, p: int, row: int, col: int) -> bool {
    &&& draw_flips(s, x, y, n, p)
    &&& (p / 64 < draw_row(s, y) + row || (p / 64 == draw_row(s, y) + row && p % 64 < draw_column(s, x) + col))
}

/// Whether DXYN has turned off a lit pixel among those it has treated.
spec fn draw_collided(s: MachineState, x: u8, y: u8, n: u8, row: int, col: int) -> bool {
    exists|p: int| 0 <= p < SCREEN_SIZE && #[trigger] draw_done(s, x, y, n, p, row, col) && s.display[p]
}

proof fn lemma_collided_same(s: MachineState, x: u8, y: u8, n: u8, r1: int, c1: int, r2: int, c2: int)
    requires
        forall|p: int|
            0 <= p < SCREEN_SIZE ==> (draw_done(s, x, y, n, p, r1, c1) && s.display[p]) == (draw_done(
                s,
                x,
                y,
                n,
                p,
                r2,
                c2,
            ) && s.display[p]),
    ensures
        draw_collided(s, x, y, n, r1, c1) == draw_collided(s, x, y, n, r2, c2),
{
    if draw_collided(s, x, y, n, r1, c1) {
        let p = choose|p: int| 0 <= p < SCREEN_SIZE && #[trigger] draw_done(s, x, y, n, p, r1, c1) && s.display[p];
        assert(draw_done(s, x, y, n, p, r2, c2));
    }
    if draw_collided(s, x, y, n, r2, c2) {
        let p = choose|p: int| 0 <= p < SCREEN_SIZE && #[trigger] draw_done(s, x, y, n, p, r2, c2) && s.display[p];
        assert(draw_done(s, x, y, n, p, r1, c1));
    }
}

proof fn lemma_pixel_position(r: int, c: int)
    requires
        0 <= r,
        0 <= c < 64,
    ensures
        (r * 64 + c) / 64 == r,
        (r * 64 + c) % 64 == c,
{
    vstd::arithmetic::div_mod::lemma_fundamental_div_mod_converse(r * 64 + c, 64, r, c);
}

proof fn lemma_pixel_split(p: int)
    requires
        0 <= p,
    ensures
        p == (p / 64) * 64 + p % 64,
        0 <= p % 64 < 64,
{
    vstd::arithmetic::div_mod::lemma_fundamental_div_mod(p, 64);
}

impl Chip8Machine {
    /// Memory, registers and screen have their fixed sizes.
    pub open spec fn wf(&self) -> bool {
        state_wf(self@)
    }

    /// Loads the font at 0x50 and `program` at 0x200, with every register,
    /// timer and pixel cleared. The machine is always made.
    pub fn new(program: &[u8], original_behaviour: bool) -> (res: Option<Chip8Machine>)
        requires
            program@.len() <= max_program_len(),
        ensures
            res matches Some(m) && m.wf() && m@ == initial_state(program@, original_behaviour),
    {
        let mut memory: Vec<u8> = vec![0u8; MEMORY_SIZE];
        let font: [u8; 80] = [
            0xF0, 0x90, 0x90, 0x90, 0xF0, 0x20, 0x60, 0x20, 0x20, 0x70, 0xF0, 0x10, 0xF0, 0x80, 0xF0, 0xF0,
            0x10, 0xF0, 0x10, 0xF0, 0x90, 0x90, 0xF0, 0x10, 0x10, 0xF0, 0x80, 0xF0, 0x10, 0xF0, 0xF0, 0x80,
            0xF0, 0x90, 0xF0, 0xF0, 0x10, 0x20, 0x40, 0x40, 0xF0, 0x90, 0xF0, 0x90, 0xF0, 0xF0, 0x90, 0xF0,
            0x10, 0xF0, 0xF0, 0x90, 0xF0, 0x90, 0x90, 0xE0, 0x90, 0xE0, 0x90, 0xE0, 0xF0, 0x80, 0x80, 0x80,
            0xF0, 0xE0, 0x90, 0x90, 0x90, 0xE0, 0xF0, 0x80, 0xF0, 0x80, 0xF0, 0xF0, 0x80, 0xF0, 0x80, 0x80,
        ];
        assert(font@ =~= font_set());
        assert(forall|i: int| 0 <= i < MEMORY_SIZE ==> memory@[i] == 0u8);
        let ghost start = FONT_SET_STARTING_ADDRESS as int;
        let mut i: usize = 0;
        while i < 80
            invariant
                0 <= i <= 80,
                start == FONT_SET_STARTING_ADDRESS,
                font@ == font_set(),
                memory@.len() == MEMORY_SIZE,
                forall|k: int|
                    0 <= k < MEMORY_SIZE ==> #[trigger] memory@[k] == if start <= k < start + i {
                        font_set()[k - start]
                    } else {
                        0u8
                    },
            decreases 80 - i,
        {
            memory[FONT_SET_STARTING_ADDRESS as usize + i] = font[i];
            i = i + 1;
        }
        let ghost load = PROG_STARTING_ADDRESS as int;
        let mut j: usize = 0;
        while j < program.len()
            invariant
                0 <= j <= program@.len() <= max_program_len(),
                start == FONT_SET_STARTING_ADDRESS,
                load == PROG_STARTING_ADDRESS,
                memory@.len() == MEMORY_SIZE,
                forall|k: int|
                    0 <= k < MEMORY_SIZE ==> #[trigger] memory@[k] == if start <= k < start + 80 {
                        font_set()[k - start]
                    } else if load <= k < load + j {
                        program@[k - load]
                    } else {
                        0u8
                    },
            decreases program@.len() - j,
        {
            memory[PROG_STARTING_ADDRESS as usize + j] = program[j];
            j = j + 1;
        }
        let machine = Chip8Machine {
            memory,
            program_counter: PROG_STARTING_ADDRESS,
            index_register: 0,
            stack: Vec::new(),
            delay_timer: 0,
            sound_timer: 0,
            registers: vec![0u8; REGISTER_COUNT],
            current_input: None,
            display: vec![false; SCREEN_SIZE],
            original_behaviour,
            rand: thread_rng(),
        };
        assert(machine@.registers =~= initial_state(program@, original_behaviour).registers);
        assert(machine@.display =~= initial_state(program@, original_behaviour).display);
        assert(machine@.memory =~= initial_state(program@, original_behaviour).memory);
        assert(machine@ =~= initial_state(program@, original_behaviour));
        Some(machine)
    }

    /// Counts each timer down by one unless it is already zero; meant to be
    /// called sixty times a second.
    pub fn decrement_timers(&mut self)
        requires
            old(self).wf(),
        ensures
            final(self).wf(),
            final(self)@ == tick_timers(old(self)@),
    {
        if self.delay_timer > 0 {
            self.delay_timer -= 1;
        }
        if self.sound_timer > 0 {
            self.sound_timer -= 1;
        }
    }

    /// Records `key` as pressed until the end of the next cycle.
    pub fn input(&mut self, key: u8)
        requires
            old(self).wf(),
        ensures
            final(self).wf(),
            final(self)@ == (MachineState { current_input: Some(key), ..old(self)@ }),
    {
        self.current_input = Some(key);
    }

    /// Runs one instruction, drawing a random byte for CXNN. The byte rests on
    /// chance, so only the rest is fixed.
    fn execute(&mut self, operation: OpCode)
        requires
            old(self).wf(),
            opcode_wf(operation),
            execute_defined(old(self)@, operation),
        ensures
            final(self).wf(),
            exists|random: u8| final(self)@ == #[trigger] execute_spec(old(self)@, operation, random),
            !(operation is Random) ==> final(self)@ == execute_spec(old(self)@, operation, 0),
    {
        let random: u8 = match operation {
            OpCode::Random { .. } => random_byte(&mut self.rand),
            _ => 0,
        };
        self.execute_with_random(operation, random);
    }

    /// Fetches, decodes and executes the instruction at the program counter,
    /// then forgets the pressed key.
    pub fn cycle(&mut self)
        requires
            old(self).wf(),
            cycle_defined(old(self)@),
        ensures
            final(self).wf(),
            exists|random: u8| final(self)@ == #[trigger] cycle_spec(old(self)@, random),
            !(next_opcode(old(self)@) is Random) ==> final(self)@ == cycle_spec(old(self)@, 0),
    {
        let ghost s0 = self@;
        // Fetch instruction at the PC
        let (instruction_one, instruction_two) = self.fetch();
        // Decode the instruction
        let operation = decode(instruction_one, instruction_two).expect("Unknown OpCode number");
        // Execute the instruction
        let ghost s1 = self@;
        self.execute(operation);
        let ghost s2 = self@;
        self.current_input = None;
        proof {
            let random = choose|random: u8| s2 == #[trigger] execute_spec(s1, operation, random);
            assert(self@ == cycle_spec(s0, random));
        }
    }

    /// Whether the instruction runs without a fault on this machine.
    fn can_execute(&self, operation: OpCode) -> (res: bool)
        requires
            self.wf(),
            opcode_wf(operation),
        ensures
            res == execute_defined(self@, operation),
    {
        match operation {
            OpCode::PopSubroutine => self.stack.len() > 0,
            OpCode::Draw { x: _, y, n } => {
                let y_coord: u8 = self.registers[y as usize] % (PIXEL_ROWS as u8);
                let rows: usize = if y_coord as usize + n as usize <= PIXEL_ROWS {
                    n as usize
                } else {
                    PIXEL_ROWS - y_coord as usize
                };
                rows == 0 || self.index_register as usize + rows <= MEMORY_SIZE
            },
            OpCode::BinaryCodedDecimalConversion { x: _ } => (self.index_register as usize) + 2 < MEMORY_SIZE,
            OpCode::StoreRegistersToMemory { x } => (self.index_register as usize) + (x as usize) < MEMORY_SIZE,
            OpCode::LoadRegistersFromMemory { x } => (self.index_register as usize) + (x as usize) < MEMORY_SIZE,
            _ => true,
        }
    }

    /// Whether `cycle` may run: the instruction word at the program counter
    /// lies inside memory, names an instruction, and that instruction runs
    /// without a fault. A machine for which this is false cannot go on.
    pub fn can_cycle(&self) -> (res: bool)
        requires
            self.wf(),
        ensures
            res == cycle_defined(self@),
    {
        if self.program_counter as usize + 1 >= MEMORY_SIZE {
            return false;
        }
        let instruction_one: u8 = self.memory[self.program_counter as usize];
        let instruction_two: u8 = self.memory[self.program_counter as usize + 1];
        match decode(instruction_one, instruction_two) {
            Ok(operation) => self.can_execute(operation),
            Err(_) => false,
        }
    }

    /// The screen as text: one line of 64 characters for each of the 32
    /// rows, '■' for a lit pixel and '□' for a dark one, each line ended by a
    /// newline.
    pub fn get_display(&self) -> (res: String)
        requires
            self.wf(),
        ensures
            res@ == display_text(self@.display, PIXEL_ROWS as nat),
    {
        let mut output: String = String::new();
        proof {
            reveal_strlit("■");
            reveal_strlit("□");
            reveal_strlit("\n");
        }
        let ghost d = self@.display;
        let mut row: usize = 0;
        while row < PIXEL_ROWS
            invariant
                self.wf(),
                d == self@.display,
                row <= PIXEL_ROWS,
                output@ == display_text(d, row as nat),
                "■"@ == seq!['■'],
                "□"@ == seq!['□'],
                "\n"@ == seq!['\n'],
            decreases PIXEL_ROWS - row,
        {
            let mut col: usize = 0;
            while col < PIXEL_COLUMNS
                invariant
                    self.wf(),
                    d == self@.display,
                    row < PIXEL_ROWS,
                    col <= PIXEL_COLUMNS,
                    output@ == display_text(d, row as nat) + Seq::new(col as nat, |c: int| pixel_char(d[row * 64 + c])),
                    "■"@ == seq!['■'],
                    "□"@ == seq!['□'],
                    "\n"@ == seq!['\n'],
                decreases PIXEL_COLUMNS - col,
            {
                let ghost before = output@;
                if self.display[row * PIXEL_COLUMNS + col] {
                    output.append("■");
                } else {
                    output.append("□");
                }
                assert(output@ =~= display_text(d, row as nat) + Seq::new((col + 1) as nat, |c: int| pixel_char(d[row * 64 + c])));
                col += 1;
            }
            output.append("\n");
            assert(display_row_text(d, row as int) =~= Seq::new(PIXEL_COLUMNS as nat, |c: int| pixel_char(d[row * 64 + c])).push('\n'));
            assert(output@ =~= display_text(d, (row + 1) as nat));
            row += 1;
        }
        output
    }

    /// The value of register V`register`.
    pub fn get_register(&self, register: u8) -> (res: u8)
        requires
            self.wf(),
            register < 16,
        ensures
            res == self@.registers[register as int],
    {
        self.registers[register as usize]
    }

    /// The byte of memory at `address`.
    pub fn read_memory(&self, address: u16) -> (res: u8)
        requires
            self.wf(),
            address < MEMORY_SIZE,
        ensures
            res == self@.memory[address as int],
    {
        self.memory[address as usize]
    }

    /// The address of the next instruction.
    pub fn get_program_counter(&self) -> (res: u16)
        ensures
            res == self@.program_counter,
    {
        self.program_counter
    }

    /// The index register I.
    pub fn get_index_register(&self) -> (res: u16)
        ensures
            res == self@.index_register,
    {
        self.index_register
    }

    /// The delay timer.
    pub fn get_delay_timer(&self) -> (res: u8)
        ensures
            res == self@.delay_timer,
    {
        self.delay_timer
    }

    /// Whether the buzzer sounds: the sound timer is not zero.
    pub fn get_playing_sound(&self) -> (res: bool)
        ensures
            res == (self@.sound_timer > 0),
    {
        self.sound_timer > 0
    }

    /// DXYN: draws the `n`-row sprite at the index register at (VX, VY).
    fn draw(&mut self, x: u8, y: u8, n: u8)
        requires
            old(self).wf(),
            x < 16,
            y < 16,
            n < 16,
            execute_defined(old(self)@, OpCode::Draw { x, y, n }),
        ensures
            final(self).wf(),
            final(self)@ == draw_spec(old(self)@, x, y, n),
    {
        let ghost s0 = self@;
        let x_coord: u8 = self.registers[x as usize] % (PIXEL_COLUMNS as u8);
        let y_coord: u8 = self.registers[y as usize] % (PIXEL_ROWS as u8);
        self.registers[CARRY_FLAG_REG] = 0;
        assert(!draw_collided(s0, x, y, n, 0, 0));
        assert(self.registers@ =~= s0.registers.update(CARRY_FLAG_REG as int, 0u8));
        let mut row: u8 = 0;
        while row < n && (y_coord as usize + row as usize) < PIXEL_ROWS
            invariant
                state_wf(s0),
                self.wf(),
                x < 16,
                y < 16,
                n < 16,
                execute_defined(s0, OpCode::Draw { x, y, n }),
                x_coord == draw_column(s0, x),
                y_coord == draw_row(s0, y),
                row <= n,
                y_coord + row <= PIXEL_ROWS,
                self@ == (MachineState { display: self.display@, registers: self.registers@, ..s0 }),
                self.registers@ == s0.registers.update(
                    CARRY_FLAG_REG as int,
                    if draw_collided(s0, x, y, n, row as int, 0) { 1u8 } else { 0u8 },
                ),
                forall|p: int|
                    0 <= p < SCREEN_SIZE ==> #[trigger] self.display@[p] == (s0.display[p]
                        != draw_done(s0, x, y, n, p, row as int, 0)),
            decreases n - row,
        {
            let pixel_y: u8 = y_coord + row;
            let sprite_row: u8 = self.memory[(self.index_register + row as u16) as usize];
            let mut bit: u8 = 0;
            while bit < 8
                invariant
                    state_wf(s0),
                    self.wf(),
                    x < 16,
                    y < 16,
                    n < 16,
                    x_coord == draw_column(s0, x),
                    y_coord == draw_row(s0, y),
                    row < n,
                    pixel_y == y_coord + row,
                    pixel_y < PIXEL_ROWS,
                    bit <= 8,
                    s0.index_register + row < MEMORY_SIZE,
                    sprite_row == s0.memory[s0.index_register + row],
                    self@ == (MachineState { display: self.display@, registers: self.registers@, ..s0 }),
                    self.registers@ == s0.registers.update(
                        CARRY_FLAG_REG as int,
                        if draw_collided(s0, x, y, n, row as int, bit as int) { 1u8 } else { 0u8 },
                    ),
                    forall|p: int|
                        0 <= p < SCREEN_SIZE ==> #[trigger] self.display@[p] == (s0.display[p]
                            != draw_done(s0, x, y, n, p, row as int, bit as int)),
                decreases 8 - bit,
            {
                let mask: u8 = 0b_10000000 >> bit;
                let sprite_pixel_on: bool = (sprite_row | mask) == sprite_row;
                assert(sprite_pixel_on == sprite_bit(sprite_row, bit as int)) by {
                    assert(((sprite_row | (0b_10000000u8 >> bit)) == sprite_row) == ((sprite_row >> ((7 - bit) as u8)) & 1u8 == 1u8)) by (bit_vector)
                        requires
                            bit < 8,
                    ;
                }
                let pixel_x: u8 = x_coord + bit;
                if pixel_x < PIXEL_COLUMNS as u8 {
                    let display_pixel_index: usize = pixel_y as usize * PIXEL_COLUMNS + pixel_x as usize;
                    let ghost q = display_pixel_index as int;
                    proof {
                        lemma_pixel_position(pixel_y as int, pixel_x as int);
                        assert forall|p: int| 0 <= p < SCREEN_SIZE && p != q implies
                            draw_done(s0, x, y, n, p, row as int, bit + 1) == draw_done(s0, x, y, n, p, row as int, bit as int)
                        by {
                            lemma_pixel_split(p);
                        }
                        assert(draw_flips(s0, x, y, n, q) == sprite_pixel_on);
                        assert(!draw_done(s0, x, y, n, q, row as int, bit as int));
                        assert(draw_done(s0, x, y, n, q, row as int, bit + 1) == sprite_pixel_on);
                    }
                    let display_pixel_on: bool = self.display[display_pixel_index];
                    if sprite_pixel_on && display_pixel_on {
                        self.registers[CARRY_FLAG_REG] = 1;
                        self.display[display_pixel_index] = false;
                        assert(draw_collided(s0, x, y, n, row as int, bit + 1));
                    } else if sprite_pixel_on {
                        self.display[display_pixel_index] = true;
                        proof {
                            lemma_collided_same(s0, x, y, n, row as int, bit + 1, row as int, bit as int);
                        }
                    } else {
                        proof {
                            lemma_collided_same(s0, x, y, n, row as int, bit + 1, row as int, bit as int);
                        }
                    }
                } else {
                    proof {
                        assert forall|p: int| 0 <= p < SCREEN_SIZE implies
                            draw_done(s0, x, y, n, p, row as int, bit + 1) == draw_done(s0, x, y, n, p, row as int, bit as int)
                        by {
                            lemma_pixel_split(p);
                        }
                        lemma_collided_same(s0, x, y, n, row as int, bit + 1, row as int, bit as int);
                    }
                }
                bit = bit + 1;
            }
            proof {
                assert forall|p: int| 0 <= p < SCREEN_SIZE implies
                    draw_done(s0, x, y, n, p, row + 1, 0) == draw_done(s0, x, y, n, p, row as int, 8)
                by {
                    lemma_pixel_split(p);
                }
                lemma_collided_same(s0, x, y, n, row + 1, 0, row as int, 8);
            }
            row = row + 1;
        }
        proof {
            assert forall|p: int| 0 <= p < SCREEN_SIZE implies
                draw_done(s0, x, y, n, p, row as int, 0) == draw_flips(s0, x, y, n, p)
            by {
                lemma_pixel_split(p);
            }
            if draw_collided(s0, x, y, n, row as int, 0) {
                let p = choose|p: int| 0 <= p < SCREEN_SIZE && #[trigger] draw_done(s0, x, y, n, p, row as int, 0) && s0.display[p];
                assert(draw_flips(s0, x, y, n, p));
            }
            if draw_collides(s0, x, y, n) {
                let p = choose|p: int| 0 <= p < SCREEN_SIZE && #[trigger] draw_flips(s0, x, y, n, p) && s0.display[p];
                assert(draw_done(s0, x, y, n, p, row as int, 0));
            }
            assert(self.display@ =~= draw_spec(s0, x, y, n).display);
            assert(self.registers@ =~= draw_spec(s0, x, y, n).registers);
        }
    }

    /// FX55: writes V0 to VX to memory from the index register on.
    fn store_registers(&mut self, x: u8)
        requires
            old(self).wf(),
            x < 16,
            old(self)@.index_register + x < MEMORY_SIZE,
        ensures
            final(self).wf(),
            final(self)@ == store_spec(old(self)@, x),
    {
        let ghost s0 = self@;
        let ghost i0 = s0.index_register as int;
        let mut register: u8 = 0;
        if self.original_behaviour {
            while register <= x
                invariant
                    state_wf(s0),
                    self.wf(),
                    x < 16,
                    i0 + x < MEMORY_SIZE,
                    i0 == s0.index_register,
                    register <= x + 1,
                    self.index_register == i0 + register,
                    self@ == (MachineState { memory: self.memory@, index_register: self.index_register, ..s0 }),
                    forall|i: int|
                        0 <= i < MEMORY_SIZE ==> #[trigger] self.memory@[i] == if i0 <= i < i0 + register {
                            s0.registers[i - i0]
                        } else {
                            s0.memory[i]
                        },
                decreases x + 1 - register,
            {
                self.memory[self.index_register as usize] = self.registers[register as usize];
                self.index_register += 1;
                register += 1;
            }
        } else {
            while register <= x
                invariant
                    state_wf(s0),
                    self.wf(),
                    x < 16,
                    i0 + x < MEMORY_SIZE,
                    i0 == s0.index_register,
                    register <= x + 1,
                    self@ == (MachineState { memory: self.memory@, ..s0 }),
                    forall|i: int|
                        0 <= i < MEMORY_SIZE ==> #[trigger] self.memory@[i] == if i0 <= i < i0 + register {
                            s0.registers[i - i0]
                        } else {
                            s0.memory[i]
                        },
                decreases x + 1 - register,
            {
                self.memory[(self.index_register + register as u16) as usize] = self.registers[register as usize];
                register += 1;
            }
        }
        assert(self.memory@ =~= store_spec(s0, x).memory);
    }

    /// FX65: reads V0 to VX from memory from the index register on.
    fn load_registers(&mut self, x: u8)
        requires
            old(self).wf(),
            x < 16,
            old(self)@.index_register + x < MEMORY_SIZE,
        ensures
            final(self).wf(),
            final(self)@ == load_spec(old(self)@, x),
    {
        let ghost s0 = self@;
        let ghost i0 = s0.index_register as int;
        let mut register: u8 = 0;
        if self.original_behaviour {
            while register <= x
                invariant
                    state_wf(s0),
                    self.wf(),
                    x < 16,
                    i0 + x < MEMORY_SIZE,
                    i0 == s0.index_register,
                    register <= x + 1,
                    self.index_register == i0 + register,
                    self@ == (MachineState { registers: self.registers@, index_register: self.index_register, ..s0 }),
                    forall|i: int|
                        0 <= i < REGISTER_COUNT ==> #[trigger] self.registers@[i] == if i < register {
                            s0.memory[i0 + i]
                        } else {
                            s0.registers[i]
                        },
                decreases x + 1 - register,
            {
                self.registers[register as usize] = self.memory[self.index_register as usize];
                self.index_register += 1;
                register += 1;
            }
        } else {
            while register <= x
                invariant
                    state_wf(s0),
                    self.wf(),
                    x < 16,
                    i0 + x < MEMORY_SIZE,
                    i0 == s0.index_register,
                    register <= x + 1,
                    self@ == (MachineState { registers: self.registers@, ..s0 }),
                    forall|i: int|
                        0 <= i < REGISTER_COUNT ==> #[trigger] self.registers@[i] == if i < register {
                            s0.memory[i0 + i]
                        } else {
                            s0.registers[i]
                        },
                decreases x + 1 - register,
            {
                self.registers[register as usize] = self.memory[(self.index_register + register as u16) as usize];
                register += 1;
            }
        }
        assert(self.registers@ =~= load_spec(s0, x).registers);
    }

    /// FX33: writes the decimal digits of VX from the index register on.
    fn binary_coded_decimal(&mut self, x: u8)
        requires
            old(self).wf(),
            x < 16,
            old(self)@.index_register + 2 < MEMORY_SIZE,
        ensures
            final(self).wf(),
            final(self)@ == bcd_spec(old(self)@, x),
    {
        let value = self.registers[x as usize];
        let first_digit = value / 100;
        let second_digit = (value % 100) / 10;
        let third_digit = value % 10;
        self.memory[self.index_register as usize] = first_digit;
        self.memory[self.index_register as usize + 1] = second_digit;
        self.memory[self.index_register as usize + 2] = third_digit;
    }

    /// Runs one instruction; `random` is the byte that CXNN masks, and no
    /// other instruction reads it.
    pub fn execute_with_random(&mut self, operation: OpCode, random: u8)
        requires
            old(self).wf(),
            opcode_wf(operation),
            execute_defined(old(self)@, operation),
        ensures
            final(self).wf(),
            final(self)@ == execute_spec(old(self)@, operation, random),
    {
        let ghost s0 = self@;
        match operation {
            OpCode::ClearScreen => {
                self.display = vec![false; SCREEN_SIZE];
                assert(self.display@ =~= execute_spec(s0, operation, random).display);
            },
            OpCode::Jump { nnn } => {
                self.program_counter = nnn;
            },
            OpCode::PopSubroutine => {
                let prev = self.stack.pop().unwrap();
                self.program_counter = prev;
            },
            OpCode::CallSubroutine { nnn } => {
                self.stack.push(self.program_counter);
                self.program_counter = nnn;
            },
            OpCode::SkipIfEqual { x, nn } => {
                if self.registers[x as usize] == nn {
                    self.program_counter = self.program_counter.wrapping_add(2);
                }
            },
            OpCode::SkipIfNotEqual { x, nn } => {
                if self.registers[x as usize] != nn {
                    self.program_counter = self.program_counter.wrapping_add(2);
                }
            },
            OpCode::SkipIfRegisterEqual { x, y } => {
                if self.registers[x as usize] == self.registers[y as usize] {
                    self.program_counter = self.program_counter.wrapping_add(2);
                }
            },
            OpCode::SkipIfRegisterNotEqual { x, y } => {
                if self.registers[x as usize] != self.registers[y as usize] {
                    self.program_counter = self.program_counter.wrapping_add(2);
                }
            },
            OpCode::SetRegister { x, nn } => {
                self.registers[x as usize] = nn;
            },
            OpCode::AddValueToRegister { x, nn } => {
                self.registers[x as usize] = self.registers[x as usize].wrapping_add(nn);
            },
            OpCode::SetRegisterToRegister { x, y } => {
                self.registers[x as usize] = self.registers[y as usize];
            },
            OpCode::BinaryOr { x, y } => {
                self.registers[x as usize] = self.registers[x as usize] | self.registers[y as usize];
            },
            OpCode::BinaryAnd { x, y } => {
                self.registers[x as usize] = self.registers[x as usize] & self.registers[y as usize];
            },
            OpCode::LogicalXor { x, y } => {
                self.registers[x as usize] = self.registers[x as usize] ^ self.registers[y as usize];
            },
            OpCode::AddRegisterToRegister { x, y } => {
                let vx: u8 = self.registers[x as usize];
                let vy: u8 = self.registers[y as usize];
                self.registers[x as usize] = vx.wrapping_add(vy);
                // If this overflows, set VF to 1
                if vx as u16 + vy as u16 > 255 {
                    self.registers[CARRY_FLAG_REG] = 1;
                } else {
                    self.registers[CARRY_FLAG_REG] = 0;
                }
            },
            OpCode::SubtractXY { x, y } => {
                if self.registers[x as usize] >= self.registers[y as usize] {
                    self.registers[CARRY_FLAG_REG] = 1;
                } else {
                    self.registers[CARRY_FLAG_REG] = 0;
                }
                self.registers[x as usize] = self.registers[x as usize].wrapping_sub(self.registers[y as usize]);
            },
            OpCode::SubtractYX { x, y } => {
                if self.registers[y as usize] >= self.registers[x as usize] {
                    self.registers[CARRY_FLAG_REG] = 1;
                } else {
                    self.registers[CARRY_FLAG_REG] = 0;
                }
                self.registers[x as usize] = self.registers[y as usize].wrapping_sub(self.registers[x as usize]);
            },
            OpCode::ShiftRight { x, y } => {
                if self.original_behaviour {
                    self.registers[x as usize] = self.registers[y as usize];
                }
                // Set carry flag to bit about to be shifted out
                self.registers[CARRY_FLAG_REG] = self.registers[x as usize] & 0b_00000001;
                self.registers[x as usize] = self.registers[x as usize] >> 1;
            },
            OpCode::ShiftLeft { x, y } => {
                if self.original_behaviour {
                    self.registers[x as usize] = self.registers[y as usize];
                }
                // Set carry flag to bit about to be shifted out
                if self.registers[x as usize] & 0b_10000000 == 0b_10000000 {
                    self.registers[CARRY_FLAG_REG] = 1;
                } else {
                    self.registers[CARRY_FLAG_REG] = 0;
                }
                self.registers[x as usize] = self.registers[x as usize] << 1;
            },
            OpCode::SetIndexRegister { nnn } => {
                self.index_register = nnn;
            },
            OpCode::JumpWithOffset { x, nnn } => {
                if self.original_behaviour {
                    self.program_counter = self.registers[0x0] as u16 + nnn;
                } else {
                    self.program_counter = self.registers[x as usize] as u16 + nnn;
                }
            },
            OpCode::Random { x, nn } => {
                self.registers[x as usize] = random & nn;
            },
            OpCode::Draw { x, y, n } => {
                self.draw(x, y, n);
            },
            OpCode::SkipIfKey { x } => match self.current_input {
                None => {},
                Some(key) => {
                    if key == self.registers[x as usize] {
                        self.program_counter = self.program_counter.wrapping_add(2);
                    }
                },
            },
            OpCode::SkipIfNotKey { x } => match self.current_input {
                None => {
                    self.program_counter = self.program_counter.wrapping_add(2);
                },
                Some(key) => {
                    if key != self.registers[x as usize] {
                        self.program_counter = self.program_counter.wrapping_add(2);
                    }
                },
            },
            OpCode::SetRegisterToDelayTimer { x } => {
                self.registers[x as usize] = self.delay_timer;
            },
            OpCode::SetDelayTimerToRegister { x } => {
                self.delay_timer = self.registers[x as usize];
            },
            OpCode::SetSoundTimerToRegister { x } => {
                self.sound_timer = self.registers[x as usize];
            },
            OpCode::AddRegisterToIndex { x } => {
                self.index_register = self.index_register.wrapping_add(self.registers[x as usize] as u16);
                if self.index_register > 0xFFF {
                    self.registers[CARRY_FLAG_REG] = 1;
                }
            },
            OpCode::GetKey { x } => {
                match self.current_input {
                    None => {
                        self.program_counter = self.program_counter.wrapping_sub(2);
                    },
                    Some(key) => {
                        if key != self.registers[x as usize] {
                            // Block until the key is pressed
                            self.program_counter = self.program_counter.wrapping_sub(2);
                        }
                    },
                }
            },
            OpCode::FontCharacter { x } => {
                self.index_register = FONT_SET_STARTING_ADDRESS + (self.registers[x as usize] as u16) * 5;
            },
            OpCode::BinaryCodedDecimalConversion { x } => {
                self.binary_coded_decimal(x);
            },
            OpCode::StoreRegistersToMemory { x } => {
                self.store_registers(x);
            },
            OpCode::LoadRegistersFromMemory { x } => {
                self.load_registers(x);
            },
        }
    }

    /// Reads the instruction word at the program counter and moves the
    /// counter past it.
    fn fetch(&mut self) -> (res: (u8, u8))
        requires
            old(self).wf(),
            old(self)@.program_counter + 1 < MEMORY_SIZE,
        ensures
            final(self).wf(),
            final(self)@ == fetched(old(self)@),
            res == (old(self)@.memory[old(self)@.program_counter as int], old(self)@.memory[old(self)@.program_counter + 1]),
    {
        let instruction_one: u8 = self.memory[self.program_counter as usize];
        let instruction_two: u8 = self.memory[self.program_counter as usize + 1];
        self.program_counter += 2;
        (instruction_one, instruction_two)
    }
}

} // verus!
