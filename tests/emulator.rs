use chip8_core::{decode, EmuError, Emulator, Instr, SCREEN_HEIGHT, SCREEN_WIDTH, START_ADDR};

fn machine(program: &[u8]) -> Emulator {
    let mut e = Emulator::new();
    e.load(program).unwrap();
    e
}

fn run(e: &mut Emulator, steps: usize) {
    for _ in 0..steps {
        e.tick_with(0).unwrap();
    }
}

fn pixel(e: &Emulator, x: usize, y: usize) -> bool {
    e.get_display()[x + SCREEN_WIDTH * y]
}

#[test]
fn register_add_wraps_and_sets_carry() {
    let mut e = machine(&[0x60, 0xFF, 0x61, 0x01, 0x80, 0x14]);
    run(&mut e, 3);
    assert_eq!(e.register(0), 0x00);
    assert_eq!(e.register(0xF), 1);

    let mut e = machine(&[0x60, 0x01, 0x61, 0x01, 0x80, 0x14]);
    run(&mut e, 3);
    assert_eq!(e.register(0), 0x02);
    assert_eq!(e.register(0xF), 0);
}

#[test]
fn register_subtract_borrow_flag() {
    let mut e = machine(&[0x60, 0x05, 0x61, 0x03, 0x80, 0x15]);
    run(&mut e, 3);
    assert_eq!(e.register(0), 0x02);
    assert_eq!(e.register(0xF), 1);

    let mut e = machine(&[0x60, 0x03, 0x61, 0x05, 0x80, 0x15]);
    run(&mut e, 3);
    assert_eq!(e.register(0), 0xFE);
    assert_eq!(e.register(0xF), 0);
}

#[test]
fn reverse_subtract_borrow_flag() {
    let mut e = machine(&[0x60, 0x03, 0x61, 0x05, 0x80, 0x17]);
    run(&mut e, 3);
    assert_eq!(e.register(0), 0x02);
    assert_eq!(e.register(0xF), 1);

    let mut e = machine(&[0x60, 0x05, 0x61, 0x03, 0x80, 0x17]);
    run(&mut e, 3);
    assert_eq!(e.register(0), 0xFE);
    assert_eq!(e.register(0xF), 0);
}

#[test]
fn shifts_capture_the_bit_shifted_out() {
    let mut e = machine(&[0x60, 0x01, 0x80, 0x06]);
    run(&mut e, 2);
    assert_eq!(e.register(0), 0x00);
    assert_eq!(e.register(0xF), 1);

    let mut e = machine(&[0x60, 0x80, 0x80, 0x0E]);
    run(&mut e, 2);
    assert_eq!(e.register(0), 0x00);
    assert_eq!(e.register(0xF), 1);

    let mut e = machine(&[0x60, 0x06, 0x80, 0x06, 0x61, 0x41, 0x81, 0x0E]);
    run(&mut e, 4);
    assert_eq!(e.register(0), 0x03);
    assert_eq!(e.register(1), 0x82);
    assert_eq!(e.register(0xF), 0);
}

#[test]
fn drawing_twice_restores_display_and_reports_collision() {
    // I = 0 (glyph "0"), draw it at (0, 0) twice.
    let mut e = machine(&[0xA0, 0x00, 0x60, 0x00, 0x61, 0x00, 0xD0, 0x15, 0xD0, 0x15]);
    run(&mut e, 4);
    assert_eq!(e.register(0xF), 0);
    assert!(pixel(&e, 0, 0));
    assert!(pixel(&e, 3, 0));
    assert!(!pixel(&e, 4, 0));
    assert!(!pixel(&e, 1, 1));
    run(&mut e, 1);
    assert_eq!(e.register(0xF), 1);
    assert!(e.get_display().iter().all(|p| !*p));
}

#[test]
fn sprite_wraps_around_both_edges() {
    // V0 = 63, V1 = 31, I = 0x20A, draw two full rows.
    let mut e = machine(&[
        0x60, 0x3F, 0x61, 0x1F, 0xA2, 0x0A, 0xD0, 0x12, 0x00, 0x00, 0xFF, 0xFF,
    ]);
    run(&mut e, 4);
    assert!(pixel(&e, 63, 31));
    assert!(pixel(&e, 0, 31));
    assert!(pixel(&e, 6, 31));
    assert!(pixel(&e, 63, 0));
    assert!(pixel(&e, 0, 0));
    assert!(pixel(&e, 6, 0));
    assert!(!pixel(&e, 7, 0));
    assert!(!pixel(&e, 62, 0));
    assert!(!pixel(&e, 0, 1));
    assert_eq!(e.get_display().iter().filter(|p| **p).count(), 16);
    assert_eq!(e.register(0xF), 0);
}

#[test]
fn dump_then_load_restores_registers() {
    let mut program = vec![];
    for r in 0..6u8 {
        program.extend_from_slice(&[0x60 | r, 0x10 + r]);
    }
    program.extend_from_slice(&[0xA3, 0x00, 0xF5, 0x55]);
    for r in 0..6u8 {
        program.extend_from_slice(&[0x60 | r, 0x00]);
    }
    program.extend_from_slice(&[0xF5, 0x65]);
    let mut e = machine(&program);
    run(&mut e, 8);
    for r in 0..6usize {
        assert_eq!(e.read_memory(0x300 + r), 0x10 + r as u8);
    }
    run(&mut e, 6);
    for r in 0..6usize {
        assert_eq!(e.register(r), 0);
    }
    run(&mut e, 1);
    for r in 0..6usize {
        assert_eq!(e.register(r), 0x10 + r as u8);
    }
    assert_eq!(e.read_memory(0x306), 0);
    assert_eq!(e.index(), 0x300);
}

#[test]
fn bcd_stores_three_digits() {
    let mut e = machine(&[0x60, 123, 0xA3, 0x00, 0xF0, 0x33]);
    run(&mut e, 3);
    assert_eq!(e.read_memory(0x300), 1);
    assert_eq!(e.read_memory(0x301), 2);
    assert_eq!(e.read_memory(0x302), 3);

    let mut e = machine(&[0x60, 255, 0xA3, 0x00, 0xF0, 0x33]);
    run(&mut e, 3);
    assert_eq!(e.read_memory(0x300), 2);
    assert_eq!(e.read_memory(0x301), 5);
    assert_eq!(e.read_memory(0x302), 5);
}

#[test]
fn key_wait_blocks_until_a_key_is_pressed() {
    let mut e = machine(&[0xF3, 0x0A]);
    run(&mut e, 2);
    assert_eq!(e.pc(), START_ADDR);
    e.keypress(9, true);
    e.keypress(5, true);
    run(&mut e, 1);
    assert_eq!(e.register(3), 5);
    assert_eq!(e.pc(), START_ADDR + 2);
}

#[test]
fn two_instruction_program() {
    let mut e = machine(&[0x60, 0x42, 0x70, 0x01]);
    run(&mut e, 2);
    assert_eq!(e.register(0), 0x43);
    assert_eq!(e.pc(), START_ADDR + 4);
}

#[test]
fn add_immediate_wraps_without_flag() {
    let mut e = machine(&[0x6F, 0x07, 0x60, 0xFE, 0x70, 0x03]);
    run(&mut e, 3);
    assert_eq!(e.register(0), 0x01);
    assert_eq!(e.register(0xF), 0x07);
}

#[test]
fn bitwise_register_ops() {
    let mut e = machine(&[
        0x60, 0b1100, 0x61, 0b1010, 0x62, 0b1100, 0x63, 0b1100, 0x80, 0x11, 0x82, 0x12, 0x83, 0x13,
        0x84, 0x10,
    ]);
    run(&mut e, 8);
    assert_eq!(e.register(0), 0b1110);
    assert_eq!(e.register(2), 0b1000);
    assert_eq!(e.register(3), 0b0110);
    assert_eq!(e.register(4), 0b1010);
}

#[test]
fn skips_compare_registers_and_immediates() {
    // 3xnn taken, 4xnn not taken, 5xy0 taken, 9xy0 not taken.
    let mut e = machine(&[0x60, 0x07, 0x61, 0x07, 0x30, 0x07]);
    run(&mut e, 3);
    assert_eq!(e.pc(), START_ADDR + 8);

    let mut e = machine(&[0x60, 0x07, 0x40, 0x07]);
    run(&mut e, 2);
    assert_eq!(e.pc(), START_ADDR + 4);

    let mut e = machine(&[0x60, 0x07, 0x61, 0x07, 0x50, 0x10]);
    run(&mut e, 3);
    assert_eq!(e.pc(), START_ADDR + 8);

    let mut e = machine(&[0x60, 0x07, 0x61, 0x07, 0x90, 0x10]);
    run(&mut e, 3);
    assert_eq!(e.pc(), START_ADDR + 6);

    let mut e = machine(&[0x60, 0x07, 0x61, 0x08, 0x90, 0x10]);
    run(&mut e, 3);
    assert_eq!(e.pc(), START_ADDR + 8);
}

#[test]
fn jumps_calls_and_returns() {
    // 0x200: call 0x206; 0x202: jump 0x202; 0x206: return
    let mut e = machine(&[0x22, 0x06, 0x12, 0x02, 0x00, 0x00, 0x00, 0xEE]);
    run(&mut e, 1);
    assert_eq!(e.pc(), 0x206);
    assert_eq!(e.stack_depth(), 1);
    run(&mut e, 1);
    assert_eq!(e.pc(), 0x202);
    assert_eq!(e.stack_depth(), 0);
    run(&mut e, 1);
    assert_eq!(e.pc(), 0x202);
}

#[test]
fn jump_with_offset_adds_register_zero() {
    let mut e = machine(&[0x60, 0x10, 0xB3, 0x00]);
    run(&mut e, 2);
    assert_eq!(e.pc(), 0x310);
}

#[test]
fn key_skips_use_low_nibble() {
    let mut e = machine(&[0x60, 0x12, 0xE0, 0x9E]);
    e.keypress(2, true);
    run(&mut e, 2);
    assert_eq!(e.pc(), START_ADDR + 6);

    let mut e = machine(&[0x60, 0x02, 0xE0, 0xA1]);
    run(&mut e, 2);
    assert_eq!(e.pc(), START_ADDR + 6);

    let mut e = machine(&[0x60, 0x02, 0xE0, 0xA1]);
    e.keypress(2, true);
    run(&mut e, 2);
    assert_eq!(e.pc(), START_ADDR + 4);
}

#[test]
fn timers_are_set_read_and_ticked() {
    let mut e = machine(&[0x60, 0x02, 0xF0, 0x15, 0x61, 0x01, 0xF1, 0x18, 0xF2, 0x07]);
    run(&mut e, 5);
    assert_eq!(e.delay_timer(), 2);
    assert_eq!(e.sound_timer(), 1);
    assert_eq!(e.register(2), 2);
    assert!(e.sound_on());
    e.tick_timers();
    assert_eq!(e.delay_timer(), 1);
    assert_eq!(e.sound_timer(), 0);
    assert!(!e.sound_on());
    e.tick_timers();
    e.tick_timers();
    assert_eq!(e.delay_timer(), 0);
    assert_eq!(e.sound_timer(), 0);
}

#[test]
fn index_add_wraps_and_font_address_uses_low_nibble() {
    let mut e = machine(&[0xAF, 0xFF, 0x60, 0xFF, 0xF0, 0x1E]);
    run(&mut e, 3);
    assert_eq!(e.index(), 0x10FE);

    let mut e = machine(&[0x60, 0x1A, 0xF0, 0x29]);
    run(&mut e, 2);
    assert_eq!(e.index(), 50);
    assert_eq!(e.read_memory(50), 0xF0);
    assert_eq!(e.read_memory(51), 0x90);
}

#[test]
fn clear_turns_every_cell_off() {
    let mut e = machine(&[0xA0, 0x00, 0xD0, 0x05, 0x00, 0xE0]);
    run(&mut e, 2);
    assert!(e.get_display().iter().any(|p| *p));
    run(&mut e, 1);
    assert!(e.get_display().iter().all(|p| !*p));
    assert_eq!(e.get_display().len(), SCREEN_WIDTH * SCREEN_HEIGHT);
}

#[test]
fn random_uses_the_given_byte_and_mask() {
    let mut e = machine(&[0xC0, 0xF0]);
    e.tick_with(0xAB).unwrap();
    assert_eq!(e.register(0), 0xA0);

    let mut e = machine(&[0xC0, 0x0F, 0xC1, 0x00]);
    e.tick().unwrap();
    e.tick().unwrap();
    assert!(e.register(0) <= 0x0F);
    assert_eq!(e.register(1), 0);
}

#[test]
fn unknown_opcode_is_reported_and_changes_nothing() {
    let mut e = machine(&[0x60, 0x01, 0x50, 0x01]);
    run(&mut e, 1);
    assert_eq!(e.tick(), Err(EmuError::UnknownOpcode { op: 0x5001, pc: 0x202 }));
    assert_eq!(e.pc(), 0x202);
    assert_eq!(e.register(0), 1);

    let mut e = machine(&[0x00, 0x00]);
    assert_eq!(e.tick_with(0), Err(EmuError::UnknownOpcode { op: 0x0000, pc: 0x200 }));
}

#[test]
fn stack_underflow_is_reported() {
    let mut e = machine(&[0x00, 0xEE]);
    assert_eq!(e.tick_with(0), Err(EmuError::StackUnderflow { pc: 0x200 }));
    assert_eq!(e.pc(), 0x200);
}

#[test]
fn stack_overflow_is_reported() {
    let mut e = machine(&[0x22, 0x00]);
    run(&mut e, 16);
    assert_eq!(e.stack_depth(), 16);
    assert_eq!(e.tick_with(0), Err(EmuError::StackOverflow { pc: 0x200 }));
    assert_eq!(e.stack_depth(), 16);
}

#[test]
fn memory_access_out_of_range_is_reported() {
    // BCD into the font area.
    let mut e = machine(&[0xA0, 0x10, 0xF0, 0x33]);
    run(&mut e, 1);
    assert_eq!(e.tick_with(0), Err(EmuError::AddressOutOfRange { pc: 0x202, index: 0x10 }));
    assert_eq!(e.read_memory(0x10), 0x10);

    // A sprite read past the top of memory.
    let mut e = machine(&[0xAF, 0xFF, 0xD0, 0x02]);
    run(&mut e, 1);
    assert_eq!(e.tick_with(0), Err(EmuError::AddressOutOfRange { pc: 0x202, index: 0xFFF }));

    // A register load past the top of memory.
    let mut e = machine(&[0xAF, 0xFE, 0xF2, 0x65]);
    run(&mut e, 1);
    assert_eq!(e.tick_with(0), Err(EmuError::AddressOutOfRange { pc: 0x202, index: 0xFFE }));

    // A register dump that fits exactly.
    let mut e = machine(&[0x61, 0x09, 0xAF, 0xFE, 0xF1, 0x55]);
    run(&mut e, 3);
    assert_eq!(e.read_memory(0xFFF), 0x09);
}

#[test]
fn program_counter_out_of_memory_is_reported() {
    let mut e = machine(&[0x1F, 0xFF]);
    run(&mut e, 1);
    assert_eq!(e.pc(), 0xFFF);
    assert_eq!(e.tick_with(0), Err(EmuError::PcOutOfRange { pc: 0xFFF }));
}

#[test]
fn load_checks_program_size() {
    let mut e = Emulator::new();
    let big = vec![0xAAu8; 4096 - 0x200 + 1];
    assert_eq!(e.load(&big), Err(EmuError::ProgramTooLarge { len: 3585 }));
    assert_eq!(e.read_memory(0x200), 0);

    let fits = vec![0xAAu8; 4096 - 0x200];
    assert_eq!(e.load(&fits), Ok(()));
    assert_eq!(e.read_memory(0x200), 0xAA);
    assert_eq!(e.read_memory(0xFFF), 0xAA);
    assert_eq!(e.read_memory(0x1FF), 0);
}

#[test]
fn new_installs_font_and_reset_restores_it() {
    let mut e = Emulator::new();
    assert_eq!(e.pc(), START_ADDR);
    assert_eq!(e.read_memory(0), 0xF0);
    assert_eq!(e.read_memory(5), 0x20);
    assert_eq!(e.read_memory(79), 0x80);
    assert_eq!(e.read_memory(80), 0);
    e.load(&[0x60, 0x05, 0xF0, 0x15]).unwrap();
    run(&mut e, 2);
    e.keypress(3, true);
    e.reset();
    assert_eq!(e.pc(), START_ADDR);
    assert_eq!(e.read_memory(0x200), 0);
    assert_eq!(e.register(0), 0);
    assert_eq!(e.delay_timer(), 0);
    assert_eq!(e.read_memory(0), 0xF0);
    assert_eq!(e.read_memory(79), 0x80);
}

#[test]
fn decode_table() {
    assert_eq!(decode(0x00E0), Some(Instr::Clear));
    assert_eq!(decode(0x00EE), Some(Instr::Return));
    assert_eq!(decode(0x1ABC), Some(Instr::Jump { addr: 0xABC }));
    assert_eq!(decode(0x8AB4), Some(Instr::AddReg { x: 0xA, y: 0xB }));
    assert_eq!(decode(0xD12F), Some(Instr::Draw { x: 1, y: 2, n: 0xF }));
    assert_eq!(decode(0xF465), Some(Instr::Load { x: 4 }));
    assert_eq!(decode(0x0000), None);
    assert_eq!(decode(0x5121), None);
    assert_eq!(decode(0x8008), None);
    assert_eq!(decode(0xE09F), None);
    assert_eq!(decode(0xF0FF), None);
}

#[test]
fn flag_register_as_operand_ends_with_the_flag() {
    let mut e = machine(&[0x6F, 0x03, 0x8F, 0x06]);
    run(&mut e, 2);
    assert_eq!(e.register(0xF), 1);

    let mut e = machine(&[0x6F, 0xFF, 0x60, 0x02, 0x8F, 0x04]);
    run(&mut e, 3);
    assert_eq!(e.register(0xF), 1);
}
