use chip8::{Chip8Machine, OpCode};

fn load(program: &[u8], original_behaviour: bool) -> Chip8Machine {
    Chip8Machine::new(program, original_behaviour).expect("the machine is always made")
}

fn run(machine: &mut Chip8Machine, cycles: usize) {
    for _ in 0..cycles {
        assert!(machine.can_cycle());
        machine.cycle();
    }
}

fn lit_rows(display: &str) -> Vec<String> {
    display.lines().map(|l| l.to_string()).collect()
}

#[test]
fn new_loads_font_and_program() {
    let m = load(&[0x12, 0x34, 0x56], false);
    assert_eq!(m.read_memory(0x050), 0xF0);
    assert_eq!(m.read_memory(0x051), 0x90);
    assert_eq!(m.read_memory(0x09F), 0x80);
    assert_eq!(m.read_memory(0x0A0), 0x00);
    assert_eq!(m.read_memory(0x200), 0x12);
    assert_eq!(m.read_memory(0x201), 0x34);
    assert_eq!(m.read_memory(0x202), 0x56);
    assert_eq!(m.read_memory(0x203), 0x00);
    assert_eq!(m.get_program_counter(), 0x200);
    assert_eq!(m.get_index_register(), 0);
    for r in 0..16 {
        assert_eq!(m.get_register(r), 0);
    }
    assert!(!m.get_playing_sound());
}

#[test]
fn new_accepts_largest_program() {
    let program = vec![0xAB; 4096 - 0x200];
    let m = load(&program, false);
    assert_eq!(m.read_memory(0xFFF), 0xAB);
}

#[test]
fn initial_display_is_dark() {
    let m = load(&[], false);
    let text = m.get_display();
    let rows = lit_rows(&text);
    assert_eq!(rows.len(), 32);
    for row in rows {
        assert_eq!(row.chars().count(), 64);
        assert!(row.chars().all(|c| c == '□'));
    }
    assert!(text.ends_with('\n'));
    assert_eq!(text.chars().count(), 32 * 65);
}

#[test]
fn set_and_add_value_wraps() {
    let mut m = load(&[0x60, 0x05, 0x70, 0x03, 0x61, 0xFF, 0x71, 0x02], false);
    run(&mut m, 4);
    assert_eq!(m.get_register(0), 8);
    assert_eq!(m.get_register(1), 1);
    // 7XNN never touches VF
    assert_eq!(m.get_register(0xF), 0);
}

#[test]
fn add_registers_sets_carry() {
    let mut m = load(&[0x60, 0xFF, 0x61, 0x02, 0x80, 0x14], false);
    run(&mut m, 3);
    assert_eq!(m.get_register(0), 0x01);
    assert_eq!(m.get_register(0xF), 1);
    let mut m = load(&[0x60, 0x10, 0x61, 0x02, 0x80, 0x14], false);
    run(&mut m, 3);
    assert_eq!(m.get_register(0), 0x12);
    assert_eq!(m.get_register(0xF), 0);
}

#[test]
fn subtract_sets_borrow_flag() {
    let mut m = load(&[0x60, 0x05, 0x61, 0x07, 0x80, 0x15], false);
    run(&mut m, 3);
    assert_eq!(m.get_register(0), 0xFE);
    assert_eq!(m.get_register(0xF), 0);
    let mut m = load(&[0x60, 0x05, 0x61, 0x07, 0x80, 0x17], false);
    run(&mut m, 3);
    assert_eq!(m.get_register(0), 0x02);
    assert_eq!(m.get_register(0xF), 1);
}

#[test]
fn logic_instructions() {
    let mut m = load(&[0x60, 0b1100, 0x61, 0b1010, 0x82, 0x00, 0x82, 0x11, 0x83, 0x00, 0x83, 0x12, 0x84, 0x00, 0x84, 0x13], false);
    run(&mut m, 8);
    assert_eq!(m.get_register(2), 0b1110);
    assert_eq!(m.get_register(3), 0b1000);
    assert_eq!(m.get_register(4), 0b0110);
}

#[test]
fn shifts_modern_and_original() {
    // modern: shift VX in place
    let mut m = load(&[0x60, 0x81, 0x61, 0x02, 0x80, 0x16], false);
    run(&mut m, 3);
    assert_eq!(m.get_register(0), 0x40);
    assert_eq!(m.get_register(0xF), 1);
    // original: VX takes VY first
    let mut m = load(&[0x60, 0x81, 0x61, 0x02, 0x80, 0x16], true);
    run(&mut m, 3);
    assert_eq!(m.get_register(0), 0x01);
    assert_eq!(m.get_register(0xF), 0);
    let mut m = load(&[0x60, 0x81, 0x80, 0x0E], false);
    run(&mut m, 2);
    assert_eq!(m.get_register(0), 0x02);
    assert_eq!(m.get_register(0xF), 1);
}

#[test]
fn skips_when_equal() {
    let mut m = load(&[0x60, 0x05, 0x30, 0x05], false);
    run(&mut m, 2);
    assert_eq!(m.get_program_counter(), 0x206);
    let mut m = load(&[0x60, 0x05, 0x40, 0x05], false);
    run(&mut m, 2);
    assert_eq!(m.get_program_counter(), 0x204);
    let mut m = load(&[0x60, 0x05, 0x61, 0x05, 0x50, 0x10, 0x00, 0x00, 0x90, 0x10], false);
    run(&mut m, 4);
    assert_eq!(m.get_program_counter(), 0x20A);
}

#[test]
fn jumps_and_subroutines() {
    let mut m = load(&[0x12, 0x06, 0x00, 0x00, 0x00, 0x00, 0x22, 0x0A, 0x00, 0x00, 0x00, 0xEE], false);
    run(&mut m, 1);
    assert_eq!(m.get_program_counter(), 0x206);
    run(&mut m, 1);
    assert_eq!(m.get_program_counter(), 0x20A);
    run(&mut m, 1);
    assert_eq!(m.get_program_counter(), 0x208);
}

#[test]
fn jump_with_offset_modern_and_original() {
    let program = [0x60, 0x10, 0x62, 0x20, 0xB2, 0x00];
    let mut m = load(&program, false);
    run(&mut m, 3);
    assert_eq!(m.get_program_counter(), 0x220);
    let mut m = load(&program, true);
    run(&mut m, 3);
    assert_eq!(m.get_program_counter(), 0x210);
}

#[test]
fn return_without_call_cannot_cycle() {
    let m = load(&[0x00, 0xEE], false);
    assert!(!m.can_cycle());
}

#[test]
fn unknown_instruction_cannot_cycle() {
    assert!(!load(&[0x80, 0x08], false).can_cycle());
    assert!(!load(&[0xE0, 0x00], false).can_cycle());
    assert!(!load(&[0xF0, 0x00], false).can_cycle());
    assert!(!load(&[0x01, 0x00], false).can_cycle());
    assert!(load(&[0x00, 0xE0], false).can_cycle());
}

#[test]
fn draws_font_sprite_and_erases_it() {
    // V0 = 0, V1 = 0, I = font "0", draw 5 rows, then draw again
    let program = [0x60, 0x00, 0x61, 0x00, 0xA0, 0x50, 0xD0, 0x15, 0xD0, 0x15];
    let mut m = load(&program, false);
    run(&mut m, 4);
    let rows = lit_rows(&m.get_display());
    assert!(rows[0].starts_with("■■■■□□□□"));
    assert!(rows[1].starts_with("■□□■□□□□"));
    assert!(rows[4].starts_with("■■■■□□□□"));
    assert!(rows[5].chars().all(|c| c == '□'));
    assert_eq!(m.get_register(0xF), 0);
    run(&mut m, 1);
    assert_eq!(m.get_register(0xF), 1);
    assert!(m.get_display().chars().all(|c| c == '□' || c == '\n'));
}

#[test]
fn draw_clips_at_right_and_bottom_edges() {
    // V0 = 62, V1 = 30, I = font "0" (0xF0 rows), draw 5 rows
    let program = [0x60, 62, 0x61, 30, 0xA0, 0x50, 0xD0, 0x15];
    let mut m = load(&program, false);
    run(&mut m, 4);
    let rows = lit_rows(&m.get_display());
    assert!(rows[30].ends_with("■■"));
    assert!(rows[31].ends_with("■□"));
    assert!(rows[0].chars().all(|c| c == '□'));
    assert!(rows[30].chars().take(62).all(|c| c == '□'));
}

#[test]
fn draw_wraps_start_coordinates() {
    // V0 = 64 + 1 draws at column 1, V1 = 32 draws at row 0
    let program = [0x60, 65, 0x61, 32, 0xA0, 0x50, 0xD0, 0x11];
    let mut m = load(&program, false);
    run(&mut m, 4);
    let rows = lit_rows(&m.get_display());
    assert!(rows[0].starts_with("□■■■■□"));
}

#[test]
fn clear_screen_turns_all_pixels_off() {
    let program = [0xA0, 0x50, 0xD0, 0x15, 0x00, 0xE0];
    let mut m = load(&program, false);
    run(&mut m, 3);
    assert!(m.get_display().chars().all(|c| c == '□' || c == '\n'));
}

#[test]
fn binary_coded_decimal() {
    let mut m = load(&[0x60, 0xFE, 0xA3, 0x00, 0xF0, 0x33], false);
    run(&mut m, 3);
    assert_eq!(m.read_memory(0x300), 2);
    assert_eq!(m.read_memory(0x301), 5);
    assert_eq!(m.read_memory(0x302), 4);
}

#[test]
fn store_and_load_registers_modern() {
    let program = [0x60, 0x11, 0x61, 0x22, 0x62, 0x33, 0xA3, 0x00, 0xF2, 0x55, 0x60, 0x00, 0x61, 0x00, 0xF1, 0x65];
    let mut m = load(&program, false);
    run(&mut m, 5);
    assert_eq!(m.read_memory(0x300), 0x11);
    assert_eq!(m.read_memory(0x301), 0x22);
    assert_eq!(m.read_memory(0x302), 0x33);
    assert_eq!(m.get_index_register(), 0x300);
    run(&mut m, 3);
    assert_eq!(m.get_register(0), 0x11);
    assert_eq!(m.get_register(1), 0x22);
    assert_eq!(m.get_register(2), 0x33);
}

#[test]
fn store_registers_original_advances_index() {
    let program = [0x60, 0x11, 0x61, 0x22, 0xA3, 0x00, 0xF1, 0x55];
    let mut m = load(&program, true);
    run(&mut m, 4);
    assert_eq!(m.read_memory(0x300), 0x11);
    assert_eq!(m.read_memory(0x301), 0x22);
    assert_eq!(m.get_index_register(), 0x302);
}

#[test]
fn store_past_end_of_memory_cannot_cycle() {
    let mut m = load(&[0xAF, 0xFF, 0xF1, 0x55], false);
    run(&mut m, 1);
    assert!(!m.can_cycle());
}

#[test]
fn index_register_instructions() {
    let mut m = load(&[0x60, 0x0A, 0xF0, 0x29], false);
    run(&mut m, 2);
    assert_eq!(m.get_index_register(), 0x50 + 50);
    let mut m = load(&[0x60, 0x02, 0xAF, 0xFE, 0xF0, 0x1E], false);
    run(&mut m, 3);
    assert_eq!(m.get_index_register(), 0x1000);
    assert_eq!(m.get_register(0xF), 1);
}

#[test]
fn timers_count_down_to_zero() {
    let mut m = load(&[0x60, 0x02, 0xF0, 0x15, 0xF0, 0x18, 0xF1, 0x07], false);
    run(&mut m, 4);
    assert_eq!(m.get_register(1), 2);
    assert_eq!(m.get_delay_timer(), 2);
    assert!(m.get_playing_sound());
    m.decrement_timers();
    assert_eq!(m.get_delay_timer(), 1);
    assert!(m.get_playing_sound());
    m.decrement_timers();
    assert_eq!(m.get_delay_timer(), 0);
    assert!(!m.get_playing_sound());
    m.decrement_timers();
    assert_eq!(m.get_delay_timer(), 0);
    assert!(!m.get_playing_sound());
}

#[test]
fn get_key_waits_for_the_key() {
    let mut m = load(&[0x60, 0x07, 0xF0, 0x0A], false);
    run(&mut m, 2);
    assert_eq!(m.get_program_counter(), 0x202);
    m.input(3);
    run(&mut m, 1);
    assert_eq!(m.get_program_counter(), 0x202);
    m.input(7);
    run(&mut m, 1);
    assert_eq!(m.get_program_counter(), 0x204);
}

#[test]
fn key_skips_and_input_is_consumed() {
    let mut m = load(&[0x60, 0x07, 0xE0, 0x9E, 0x00, 0x00, 0xE0, 0xA1], false);
    run(&mut m, 1);
    m.input(7);
    run(&mut m, 1);
    assert_eq!(m.get_program_counter(), 0x206);
    // the key was forgotten, so EXA1 skips
    run(&mut m, 1);
    assert_eq!(m.get_program_counter(), 0x20A);
}

#[test]
fn random_is_masked() {
    for _ in 0..20 {
        let mut m = load(&[0xC0, 0x0F], false);
        run(&mut m, 1);
        assert_eq!(m.get_register(0) & 0xF0, 0);
    }
}

#[test]
fn execute_with_random_masks_given_byte() {
    let mut m = load(&[], false);
    m.execute_with_random(OpCode::Random { x: 3, nn: 0x0F }, 0xAB);
    assert_eq!(m.get_register(3), 0x0B);
    m.execute_with_random(OpCode::SetRegister { x: 4, nn: 9 }, 0xAB);
    assert_eq!(m.get_register(4), 9);
}

#[test]
fn add_register_to_itself_sets_carry() {
    // V0 = 0x80, V0 += V0 overflows
    let mut m = load(&[0x60, 0x80, 0x80, 0x04], false);
    run(&mut m, 2);
    assert_eq!(m.get_register(0), 0x00);
    assert_eq!(m.get_register(0xF), 1);
    let mut m = load(&[0x60, 0x40, 0x80, 0x04], false);
    run(&mut m, 2);
    assert_eq!(m.get_register(0), 0x80);
    assert_eq!(m.get_register(0xF), 0);
}

#[test]
fn add_into_flag_register_keeps_the_flag() {
    // VF = 0xFF, V1 = 0x01, VF += V1: the flag is written last
    let mut m = load(&[0x6F, 0xFF, 0x61, 0x01, 0x8F, 0x14], false);
    run(&mut m, 3);
    assert_eq!(m.get_register(0xF), 1);
    let mut m = load(&[0x6F, 0x10, 0x61, 0x01, 0x8F, 0x14], false);
    run(&mut m, 3);
    assert_eq!(m.get_register(0xF), 0);
}

#[test]
fn timers_stop_at_zero_after_many_ticks() {
    let mut m = load(&[0x60, 0x03, 0xF0, 0x15, 0xF0, 0x18], false);
    run(&mut m, 3);
    for _ in 0..300 {
        m.decrement_timers();
    }
    assert_eq!(m.get_delay_timer(), 0);
    assert!(!m.get_playing_sound());
}
