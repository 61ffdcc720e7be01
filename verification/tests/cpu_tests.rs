use chip8::cpu::Cpu;
use chip8::fault::Fault;
use chip8::machine::Progress;

fn loaded(program: &[u8]) -> Cpu {
    let mut cpu = Cpu::new();
    cpu.reset();
    assert_eq!(cpu.load_program(program), Ok(()));
    cpu
}

fn run(cpu: &mut Cpu, cycles: usize) {
    for _ in 0..cycles {
        assert_eq!(cpu.step(None, 0), Ok(Progress::Stepped));
    }
}

fn lit_cells(cpu: &Cpu) -> Vec<usize> {
    let grid = cpu.display().snapshot();
    (0..grid.len()).filter(|cell| grid[*cell]).collect()
}

#[test]
fn new_engine_is_in_the_initial_state() {
    let cpu = Cpu::new();
    assert_eq!(cpu.registers(), [0u8; 16]);
    assert_eq!(cpu.index_register(), 0);
    assert_eq!(cpu.program_counter(), 0x200);
    assert_eq!(cpu.stack_depth(), 0);
    assert_eq!(cpu.delay_timer(), 0);
    assert_eq!(cpu.sound_timer(), 0);
    assert!(lit_cells(&cpu).is_empty());
    assert_eq!(cpu.memory().read(0), 0xF0);
    assert_eq!(cpu.memory().read(79), 0x80);
    assert_eq!(cpu.memory().read(80), 0);
    assert_eq!(cpu.memory().read(0x200), 0);
    assert_eq!(cpu.keypad().get_keys().len(), 16);
}

#[test]
fn load_program_places_the_image_and_keeps_the_rest() {
    let cpu = loaded(&[0x12, 0x34, 0x56]);
    assert_eq!(cpu.memory().read(0x1FF), 0);
    assert_eq!(cpu.memory().read(0x200), 0x12);
    assert_eq!(cpu.memory().read(0x201), 0x34);
    assert_eq!(cpu.memory().read(0x202), 0x56);
    assert_eq!(cpu.memory().read(0x203), 0);
    assert_eq!(cpu.memory().read(5), 0x20);
    assert_eq!(cpu.program_counter(), 0x200);
}

#[test]
fn load_program_rejects_an_image_that_is_too_large() {
    let mut cpu = Cpu::new();
    let image = vec![0x11u8; 3585];
    assert_eq!(cpu.load_program(&image), Err(Fault::ProgramTooLarge { length: 3585 }));
    assert_eq!(cpu.memory().read(0x200), 0);
    assert_eq!(cpu.load_program(&image[..3584]), Ok(()));
    assert_eq!(cpu.memory().read(0xFFF), 0x11);
}

#[test]
fn reset_is_idempotent_and_undoes_everything() {
    let mut cpu = loaded(&[0x60, 0x07, 0xF0, 0x15, 0xF0, 0x18, 0xA1, 0x23, 0x22, 0x0A, 0xD0, 0x05]);
    run(&mut cpu, 5);
    cpu.set_overlay(1, 1, true);
    cpu.reset();
    for _ in 0..2 {
        assert_eq!(cpu.registers(), [0u8; 16]);
        assert_eq!(cpu.index_register(), 0);
        assert_eq!(cpu.program_counter(), 0x200);
        assert_eq!(cpu.stack_depth(), 0);
        assert_eq!(cpu.delay_timer(), 0);
        assert_eq!(cpu.sound_timer(), 0);
        assert!(lit_cells(&cpu).is_empty());
        assert_eq!(cpu.memory().read(0x200), 0);
        assert_eq!(cpu.memory().read(0x20B), 0);
        assert_eq!(cpu.memory().read(0), 0xF0);
        cpu.reset();
    }
}

#[test]
fn clear_screen_and_jump_run_without_end() {
    let mut cpu = loaded(&[0x00, 0xE0, 0x12, 0x00]);
    cpu.set_overlay(3, 3, true);
    assert_eq!(cpu.execute_cycle(None), Ok(Progress::Stepped));
    assert!(lit_cells(&cpu).is_empty());
    assert_eq!(cpu.program_counter(), 0x202);
    for cycle in 0..2000 {
        assert_eq!(cpu.execute_cycle(None), Ok(Progress::Stepped));
        assert!(lit_cells(&cpu).is_empty());
        let expected = if cycle % 2 == 0 { 0x200 } else { 0x202 };
        assert_eq!(cpu.program_counter(), expected);
    }
}

#[test]
fn load_load_add_yields_fifteen() {
    let mut cpu = loaded(&[0x60, 0x05, 0x61, 0x0A, 0x80, 0x14]);
    for _ in 0..3 {
        assert_eq!(cpu.execute_cycle(None), Ok(Progress::Stepped));
    }
    assert_eq!(cpu.registers()[0], 15);
    assert_eq!(cpu.registers()[1], 10);
    assert_eq!(cpu.registers()[15], 0);
    assert_eq!(cpu.program_counter(), 0x206);
}

#[test]
fn add_reports_the_carry() {
    // V0 = 200, V1 = 100, V0 += V1; V2 = 255, V3 = 1, V2 += V3; V4 = 255, V5 = 0, V4 += V5.
    let mut cpu = loaded(&[
        0x60, 200, 0x61, 100, 0x80, 0x14, 0x62, 255, 0x63, 1, 0x82, 0x34, 0x64, 255, 0x65, 0, 0x84,
        0x54,
    ]);
    run(&mut cpu, 3);
    assert_eq!(cpu.registers()[0], 44);
    assert_eq!(cpu.registers()[15], 1);
    run(&mut cpu, 3);
    assert_eq!(cpu.registers()[2], 0);
    assert_eq!(cpu.registers()[15], 1);
    run(&mut cpu, 3);
    assert_eq!(cpu.registers()[4], 255);
    assert_eq!(cpu.registers()[15], 0);
}

#[test]
fn add_into_the_flag_register_leaves_the_flag() {
    // VF = 200, V1 = 100, VF += V1.
    let mut cpu = loaded(&[0x6F, 200, 0x61, 100, 0x8F, 0x14]);
    run(&mut cpu, 3);
    assert_eq!(cpu.registers()[15], 1);
}

#[test]
fn subtract_reports_the_absence_of_a_borrow() {
    // V0 = 5, V1 = 10, V0 -= V1; V2 = 10, V3 = 10, V2 -= V3; V4 = 9, V5 = 3, V4 -= V5.
    let mut cpu = loaded(&[
        0x60, 5, 0x61, 10, 0x80, 0x15, 0x62, 10, 0x63, 10, 0x82, 0x35, 0x64, 9, 0x65, 3, 0x84,
        0x55,
    ]);
    run(&mut cpu, 3);
    assert_eq!(cpu.registers()[0], 251);
    assert_eq!(cpu.registers()[15], 0);
    run(&mut cpu, 3);
    assert_eq!(cpu.registers()[2], 0);
    assert_eq!(cpu.registers()[15], 1);
    run(&mut cpu, 3);
    assert_eq!(cpu.registers()[4], 6);
    assert_eq!(cpu.registers()[15], 1);
}

#[test]
fn subtract_from_takes_the_other_order() {
    // V0 = 5, V1 = 10, V0 = V1 - V0; V2 = 10, V3 = 5, V2 = V3 - V2.
    let mut cpu = loaded(&[0x60, 5, 0x61, 10, 0x80, 0x17, 0x62, 10, 0x63, 5, 0x82, 0x37]);
    run(&mut cpu, 3);
    assert_eq!(cpu.registers()[0], 5);
    assert_eq!(cpu.registers()[15], 1);
    run(&mut cpu, 3);
    assert_eq!(cpu.registers()[2], 251);
    assert_eq!(cpu.registers()[15], 0);
}

#[test]
fn shifts_capture_the_bit_shifted_out() {
    // V0 = 0x81, V0 >>= 1; V1 = 0x81, V1 <<= 1; V2 = 0x42, V2 >>= 1; V3 = 0x42, V3 <<= 1.
    let mut cpu = loaded(&[
        0x60, 0x81, 0x80, 0x06, 0x61, 0x81, 0x81, 0x0E, 0x62, 0x42, 0x82, 0x06, 0x63, 0x42, 0x83,
        0x0E,
    ]);
    run(&mut cpu, 2);
    assert_eq!(cpu.registers()[0], 0x40);
    assert_eq!(cpu.registers()[15], 1);
    run(&mut cpu, 2);
    assert_eq!(cpu.registers()[1], 0x02);
    assert_eq!(cpu.registers()[15], 1);
    run(&mut cpu, 2);
    assert_eq!(cpu.registers()[2], 0x21);
    assert_eq!(cpu.registers()[15], 0);
    run(&mut cpu, 2);
    assert_eq!(cpu.registers()[3], 0x84);
    assert_eq!(cpu.registers()[15], 0);
}

#[test]
fn bitwise_operations_leave_the_flag() {
    // VF = 7, V0 = 0xCC, V1 = 0xAA, V2 = V0 | V1, V3 = V0 & V1, V4 = V0 ^ V1.
    let mut cpu = loaded(&[
        0x6F, 7, 0x60, 0xCC, 0x61, 0xAA, 0x82, 0x00, 0x82, 0x11, 0x83, 0x00, 0x83, 0x12, 0x84,
        0x00, 0x84, 0x13,
    ]);
    run(&mut cpu, 9);
    assert_eq!(cpu.registers()[2], 0xEE);
    assert_eq!(cpu.registers()[3], 0x88);
    assert_eq!(cpu.registers()[4], 0x66);
    assert_eq!(cpu.registers()[15], 7);
}

#[test]
fn add_immediate_wraps_without_a_flag() {
    let mut cpu = loaded(&[0x60, 250, 0x70, 10]);
    run(&mut cpu, 2);
    assert_eq!(cpu.registers()[0], 4);
    assert_eq!(cpu.registers()[15], 0);
}

#[test]
fn skip_instructions_compare_registers_and_immediates() {
    // V0 = 5; SE V0, 5 skips; SNE V0, 5 does not; V1 = 5; SE V0, V1 skips; SNE V0, V1 does not.
    let mut cpu = loaded(&[
        0x60, 5, 0x30, 5, 0x00, 0x00, 0x40, 5, 0x61, 5, 0x50, 0x10, 0x00, 0x00, 0x90, 0x10, 0x12,
        0x10,
    ]);
    run(&mut cpu, 1);
    run(&mut cpu, 1);
    assert_eq!(cpu.program_counter(), 0x206);
    run(&mut cpu, 1);
    assert_eq!(cpu.program_counter(), 0x208);
    run(&mut cpu, 2);
    assert_eq!(cpu.program_counter(), 0x20E);
    run(&mut cpu, 1);
    assert_eq!(cpu.program_counter(), 0x210);
}

#[test]
fn skips_not_taken_and_taken_on_difference() {
    // V0 = 5; SE V0, 6 does not skip; SNE V0, 6 skips; V1 = 6; SNE V0, V1 skips.
    let mut cpu = loaded(&[0x60, 5, 0x30, 6, 0x40, 6, 0x00, 0x00, 0x61, 6, 0x90, 0x10]);
    run(&mut cpu, 2);
    assert_eq!(cpu.program_counter(), 0x204);
    run(&mut cpu, 1);
    assert_eq!(cpu.program_counter(), 0x208);
    run(&mut cpu, 2);
    assert_eq!(cpu.program_counter(), 0x20E);
}

#[test]
fn jump_and_jump_with_offset() {
    let mut cpu = loaded(&[0x12, 0x04, 0x00, 0x00, 0x60, 4, 0xB3, 0x00]);
    run(&mut cpu, 1);
    assert_eq!(cpu.program_counter(), 0x204);
    run(&mut cpu, 2);
    assert_eq!(cpu.program_counter(), 0x304);
}

#[test]
fn jump_with_offset_stays_within_twelve_bits() {
    let mut cpu = loaded(&[0x60, 0xFF, 0xBF, 0xFF]);
    run(&mut cpu, 2);
    assert_eq!(cpu.program_counter(), 0x0FE);
}

#[test]
fn call_pushes_and_return_pops() {
    // 0x200: CALL 0x206; 0x202: V1 = 1; 0x204: JP 0x204; 0x206: V0 = 9; 0x208: RET.
    let mut cpu = loaded(&[0x22, 0x06, 0x61, 1, 0x12, 0x04, 0x60, 9, 0x00, 0xEE]);
    run(&mut cpu, 1);
    assert_eq!(cpu.program_counter(), 0x206);
    assert_eq!(cpu.stack_depth(), 1);
    run(&mut cpu, 2);
    assert_eq!(cpu.program_counter(), 0x202);
    assert_eq!(cpu.stack_depth(), 0);
    run(&mut cpu, 1);
    assert_eq!(cpu.registers()[0], 9);
    assert_eq!(cpu.registers()[1], 1);
}

#[test]
fn sixteen_nested_calls_succeed_and_the_seventeenth_fails() {
    let mut program = Vec::new();
    for k in 0..17u16 {
        let word = 0x2000 | (0x202 + 2 * k);
        program.push((word >> 8) as u8);
        program.push((word & 0xFF) as u8);
    }
    let mut cpu = loaded(&program);
    for k in 0..16 {
        assert_eq!(cpu.execute_cycle(None), Ok(Progress::Stepped));
        assert_eq!(cpu.stack_depth(), k + 1);
    }
    assert_eq!(cpu.program_counter(), 0x220);
    assert_eq!(cpu.execute_cycle(None), Err(Fault::StackOverflow));
    assert_eq!(cpu.stack_depth(), 16);
    assert_eq!(cpu.program_counter(), 0x220);
    assert_eq!(cpu.execute_cycle(None), Err(Fault::StackOverflow));
}

#[test]
fn return_with_an_empty_stack_fails() {
    let mut cpu = loaded(&[0x00, 0xEE]);
    assert_eq!(cpu.execute_cycle(None), Err(Fault::StackUnderflow));
    assert_eq!(cpu.program_counter(), 0x200);
    assert_eq!(cpu.stack_depth(), 0);
}

#[test]
fn unknown_word_is_reported_with_address_and_word() {
    let mut cpu = loaded(&[0x60, 1, 0xF0, 0xFF]);
    run(&mut cpu, 1);
    assert_eq!(
        cpu.execute_cycle(None),
        Err(Fault::UnknownInstruction { address: 0x202, word: 0xF0FF })
    );
    assert_eq!(cpu.program_counter(), 0x202);
    assert_eq!(cpu.registers()[0], 1);
}

#[test]
fn a_fault_leaves_the_timers_alone() {
    // V0 = 9, delay = V0, sound = V0, unknown word.
    let mut cpu = loaded(&[0x60, 9, 0xF0, 0x15, 0xF0, 0x18, 0x00, 0x00]);
    run(&mut cpu, 3);
    assert_eq!(cpu.delay_timer(), 7);
    assert_eq!(cpu.sound_timer(), 8);
    assert_eq!(
        cpu.execute_cycle(None),
        Err(Fault::UnknownInstruction { address: 0x206, word: 0x0000 })
    );
    assert_eq!(cpu.delay_timer(), 7);
    assert_eq!(cpu.sound_timer(), 8);
}

#[test]
fn empty_memory_is_no_program() {
    let mut cpu = Cpu::new();
    assert_eq!(
        cpu.execute_cycle(None),
        Err(Fault::UnknownInstruction { address: 0x200, word: 0x0000 })
    );
}

#[test]
fn delay_timer_counts_down_to_zero_and_stays() {
    // V0 = 5, delay = V0, JP 0x204.
    let mut cpu = loaded(&[0x60, 5, 0xF0, 0x15, 0x12, 0x04]);
    run(&mut cpu, 1);
    assert_eq!(cpu.delay_timer(), 0);
    run(&mut cpu, 1);
    assert_eq!(cpu.delay_timer(), 4);
    for expected in [3u8, 2, 1, 0, 0, 0, 0] {
        run(&mut cpu, 1);
        assert_eq!(cpu.delay_timer(), expected);
    }
}

#[test]
fn sound_timer_counts_down_on_its_own() {
    // V0 = 3, sound = V0, V1 = 200, delay = V1, JP 0x208.
    let mut cpu = loaded(&[0x60, 3, 0xF0, 0x18, 0x61, 200, 0xF1, 0x15, 0x12, 0x08]);
    run(&mut cpu, 2);
    assert_eq!(cpu.sound_timer(), 2);
    run(&mut cpu, 2);
    assert_eq!(cpu.sound_timer(), 0);
    assert_eq!(cpu.delay_timer(), 199);
    run(&mut cpu, 10);
    assert_eq!(cpu.sound_timer(), 0);
    assert_eq!(cpu.delay_timer(), 189);
}

#[test]
fn read_delay_copies_the_timer() {
    // V0 = 50, delay = V0, V1 = delay.
    let mut cpu = loaded(&[0x60, 50, 0xF0, 0x15, 0xF1, 0x07]);
    run(&mut cpu, 3);
    assert_eq!(cpu.registers()[1], 49);
    assert_eq!(cpu.delay_timer(), 48);
}

#[test]
fn wait_for_key_suspends_the_machine_and_its_timers() {
    // V0 = 10, delay = V0, V3 = key.
    let mut cpu = loaded(&[0x60, 10, 0xF0, 0x15, 0xF3, 0x0A]);
    run(&mut cpu, 2);
    assert_eq!(cpu.delay_timer(), 9);
    for input in [None, Some('p'), Some('0'), None] {
        assert_eq!(cpu.execute_cycle(input), Ok(Progress::AwaitingKey));
        assert_eq!(cpu.program_counter(), 0x204);
        assert_eq!(cpu.delay_timer(), 9);
        assert_eq!(cpu.registers()[3], 0);
    }
    assert_eq!(cpu.execute_cycle(Some('q')), Ok(Progress::Stepped));
    assert_eq!(cpu.registers()[3], 0x4);
    assert_eq!(cpu.program_counter(), 0x206);
    assert_eq!(cpu.delay_timer(), 8);
}

#[test]
fn wait_for_key_stores_the_logical_code() {
    for (symbol, code) in [('x', 0x0u8), ('1', 0x1), ('4', 0xC), ('v', 0xF), ('z', 0xA)] {
        let mut cpu = loaded(&[0xF7, 0x0A]);
        assert_eq!(cpu.execute_cycle(Some(symbol)), Ok(Progress::Stepped));
        assert_eq!(cpu.registers()[7], code);
    }
}

#[test]
fn key_skips_poll_the_snapshot() {
    // V0 = 4; SKP V0; (skipped); SKNP V0; V1 = 1.
    let program = [0x60, 4, 0xE0, 0x9E, 0x00, 0x00, 0xE0, 0xA1, 0x61, 1];
    let mut cpu = loaded(&program);
    run(&mut cpu, 1);
    assert_eq!(cpu.step(Some('q'), 0), Ok(Progress::Stepped));
    assert_eq!(cpu.program_counter(), 0x206);
    assert_eq!(cpu.step(Some('q'), 0), Ok(Progress::Stepped));
    assert_eq!(cpu.program_counter(), 0x208);

    let mut cpu = loaded(&program);
    run(&mut cpu, 1);
    assert_eq!(cpu.step(Some('w'), 0), Ok(Progress::Stepped));
    assert_eq!(cpu.program_counter(), 0x204);

    let mut cpu = loaded(&[0x60, 4, 0xE0, 0xA1, 0x00, 0x00, 0x61, 1]);
    run(&mut cpu, 2);
    assert_eq!(cpu.program_counter(), 0x206);
}

#[test]
fn key_skips_ignore_register_values_that_name_no_key() {
    // V0 = 0x14, whose low nibble is the code of 'q'; SKP V0 does not skip.
    let mut cpu = loaded(&[0x60, 0x14, 0xE0, 0x9E]);
    run(&mut cpu, 1);
    assert_eq!(cpu.step(Some('q'), 0), Ok(Progress::Stepped));
    assert_eq!(cpu.program_counter(), 0x204);
}

#[test]
fn random_is_masked_by_the_immediate() {
    let mut cpu = loaded(&[0xC0, 0x0F]);
    assert_eq!(cpu.step(None, 0xA7), Ok(Progress::Stepped));
    assert_eq!(cpu.registers()[0], 0x07);
    let mut cpu = loaded(&[0xC1, 0xF0]);
    assert_eq!(cpu.step(None, 0xA7), Ok(Progress::Stepped));
    assert_eq!(cpu.registers()[1], 0xA0);
    let mut cpu = loaded(&[0xC2, 0x00]);
    assert_eq!(cpu.step(None, 0xFF), Ok(Progress::Stepped));
    assert_eq!(cpu.registers()[2], 0);
}

#[test]
fn execute_cycle_draws_its_own_random_byte() {
    let mut seen = [false; 4];
    for _ in 0..400 {
        let mut cpu = loaded(&[0xC5, 0x03]);
        assert!(cpu.draws_random());
        assert_eq!(cpu.execute_cycle(None), Ok(Progress::Stepped));
        let value = cpu.registers()[5];
        assert!(value <= 3);
        seen[value as usize] = true;
        assert!(!cpu.draws_random());
    }
    // Four hundred draws of two bits that miss one of the four values would
    // be a generator that is stuck.
    assert!(seen.iter().all(|s| *s));
}

#[test]
fn index_register_instructions() {
    // I = 0x123; V0 = 0x10; I += V0; V1 = 0xA; I = glyph(V1); V2 = 0x3F; I = glyph(V2).
    let mut cpu = loaded(&[0xA1, 0x23, 0x60, 0x10, 0xF0, 0x1E, 0x61, 0x0A, 0xF1, 0x29, 0x62, 0x3F, 0xF2, 0x29]);
    run(&mut cpu, 1);
    assert_eq!(cpu.index_register(), 0x123);
    run(&mut cpu, 2);
    assert_eq!(cpu.index_register(), 0x133);
    run(&mut cpu, 2);
    assert_eq!(cpu.index_register(), 50);
    run(&mut cpu, 2);
    assert_eq!(cpu.index_register(), 75);
}

#[test]
fn index_register_wraps_at_twelve_bits() {
    let mut cpu = loaded(&[0xAF, 0xFF, 0x60, 2, 0xF0, 0x1E]);
    run(&mut cpu, 3);
    assert_eq!(cpu.index_register(), 1);
}

#[test]
fn decimal_digits_are_stored_hundreds_first() {
    // V0 = 254, I = 0x300, BCD V0; V1 = 7, I = 0x310, BCD V1.
    let mut cpu = loaded(&[0x60, 254, 0xA3, 0x00, 0xF0, 0x33, 0x61, 7, 0xA3, 0x10, 0xF1, 0x33]);
    run(&mut cpu, 6);
    assert_eq!(cpu.memory().read(0x300), 2);
    assert_eq!(cpu.memory().read(0x301), 5);
    assert_eq!(cpu.memory().read(0x302), 4);
    assert_eq!(cpu.memory().read(0x303), 0);
    assert_eq!(cpu.memory().read(0x310), 0);
    assert_eq!(cpu.memory().read(0x311), 0);
    assert_eq!(cpu.memory().read(0x312), 7);
    assert_eq!(cpu.index_register(), 0x310);
}

#[test]
fn registers_are_stored_and_loaded_in_a_block() {
    // V0 = 11, V1 = 22, V2 = 33, V3 = 44, I = 0x400, store V0..V2,
    // V0 = 0, V1 = 0, V2 = 0, load V0..V1.
    let mut cpu = loaded(&[
        0x60, 11, 0x61, 22, 0x62, 33, 0x63, 44, 0xA4, 0x00, 0xF2, 0x55, 0x60, 0, 0x61, 0, 0x62, 0,
        0xF1, 0x65,
    ]);
    run(&mut cpu, 6);
    assert_eq!(cpu.memory().read(0x3FF), 0);
    assert_eq!(cpu.memory().read(0x400), 11);
    assert_eq!(cpu.memory().read(0x401), 22);
    assert_eq!(cpu.memory().read(0x402), 33);
    assert_eq!(cpu.memory().read(0x403), 0);
    assert_eq!(cpu.index_register(), 0x400);
    run(&mut cpu, 4);
    assert_eq!(cpu.registers()[0], 11);
    assert_eq!(cpu.registers()[1], 22);
    assert_eq!(cpu.registers()[2], 0);
    assert_eq!(cpu.registers()[3], 44);
    assert_eq!(cpu.index_register(), 0x400);
}

#[test]
fn block_transfers_wrap_at_the_end_of_memory() {
    // V0 = 1, V1 = 2, V2 = 3, I = 0xFFE, store V0..V2, V3 = 9, V4 = 9, V5 = 9, ...
    let mut cpu = loaded(&[0x60, 1, 0x61, 2, 0x62, 3, 0xAF, 0xFE, 0xF2, 0x55]);
    run(&mut cpu, 5);
    assert_eq!(cpu.memory().read(0xFFE), 1);
    assert_eq!(cpu.memory().read(0xFFF), 2);
    assert_eq!(cpu.memory().read(0x000), 3);
    assert_eq!(cpu.memory().read(0x001), 0x90);
}

#[test]
fn draw_instruction_blits_the_glyph_and_reports_collisions() {
    // V0 = 2, V1 = 3, V2 = 7, I = glyph(V2), draw 5 rows at (V0, V1), twice.
    let mut cpu = loaded(&[0x60, 2, 0x61, 3, 0x62, 7, 0xF2, 0x29, 0xD0, 0x15, 0xD0, 0x15]);
    run(&mut cpu, 5);
    assert_eq!(cpu.index_register(), 35);
    assert_eq!(cpu.registers()[15], 0);
    // Glyph 7: F0 10 20 40 40.
    let at = |x: usize, y: usize| y * 64 + x;
    assert_eq!(
        lit_cells(&cpu),
        vec![at(2, 3), at(3, 3), at(4, 3), at(5, 3), at(5, 4), at(4, 5), at(3, 6), at(3, 7)]
    );
    run(&mut cpu, 1);
    assert_eq!(cpu.registers()[15], 1);
    assert!(lit_cells(&cpu).is_empty());
}

#[test]
fn draw_instruction_with_no_rows_draws_nothing() {
    let mut cpu = loaded(&[0x6F, 1, 0xD0, 0x00]);
    run(&mut cpu, 2);
    assert!(lit_cells(&cpu).is_empty());
    assert_eq!(cpu.registers()[15], 0);
}

#[test]
fn draw_instruction_wraps_coordinates() {
    // V0 = 64 + 62, V1 = 32 + 31, I = 0x208, draw 1 row; sprite byte 0xC3.
    let mut cpu = loaded(&[0x60, 126, 0x61, 63, 0xA2, 0x08, 0xD0, 0x11, 0xC3]);
    run(&mut cpu, 4);
    let row = 31 * 64;
    assert_eq!(lit_cells(&cpu), vec![row + 4, row + 5, row + 62, row + 63]);
}

#[test]
fn overlay_does_not_decide_collisions_of_the_machine() {
    // I = 0x206, draw one row at (0, 0), JP 0x204; sprite byte 0x80.
    let mut cpu = loaded(&[0xA2, 0x06, 0xD0, 0x01, 0x12, 0x04, 0x80]);
    cpu.set_overlay(0, 0, true);
    run(&mut cpu, 2);
    assert_eq!(cpu.registers()[15], 0);
    assert!(cpu.display().pixel(0, 0));
}

#[test]
fn program_counter_wraps_at_the_end_of_memory() {
    // The last word of memory is LD V0, 1; the cycle after it fetches at 0.
    let mut image = vec![0u8; 3584];
    image[3582] = 0x60;
    image[3583] = 0x01;
    image[0] = 0x1F;
    image[1] = 0xFE;
    let mut cpu = loaded(&image);
    run(&mut cpu, 2);
    assert_eq!(cpu.registers()[0], 1);
    assert_eq!(cpu.program_counter(), 0);
    // The font byte pair at address 0 is F0 90, which is no instruction.
    assert_eq!(
        cpu.execute_cycle(None),
        Err(Fault::UnknownInstruction { address: 0, word: 0xF090 })
    );
}
