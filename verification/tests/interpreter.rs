use chio::{Chip8, Fault};

fn machine_with(rom: &[u8]) -> Chip8 {
    let mut c = Chip8::new_seeded(7);
    c.load_rom(rom).unwrap();
    c
}

#[test]
fn load_rom_then_first_cycle_executes_at_entry() {
    // The first instruction is fetched at 0x200, high byte first:
    // 0x6A 0x42 is "load VA, 0x42".
    let mut c = machine_with(&[0x6A, 0x42]);
    assert_eq!(c.program_counter(), 0x200);
    assert_eq!(c.read_memory(0x200), 0x6A);
    assert_eq!(c.read_memory(0x201), 0x42);
    c.execute_cycle().unwrap();
    assert_eq!(c.register(0xA), 0x42);
    assert_eq!(c.program_counter(), 0x202);
}

#[test]
fn add_immediate_wraps_modulo_256() {
    let mut c = machine_with(&[0x6A, 0xFF, 0x7A, 0x01]);
    c.execute_cycle().unwrap();
    c.execute_cycle().unwrap();
    assert_eq!(c.register(0xA), 0x00);
    // add-immediate sets no flag
    assert_eq!(c.register(0xF), 0x00);
}

#[test]
fn add_register_sets_flag_on_overflow() {
    let mut c = machine_with(&[0x60, 0xFF, 0x61, 0x01, 0x80, 0x14]);
    for _ in 0..3 {
        c.execute_cycle().unwrap();
    }
    assert_eq!(c.register(0), 0x00);
    assert_eq!(c.register(0xF), 1);

    let mut c = machine_with(&[0x60, 0x01, 0x61, 0x01, 0x80, 0x14]);
    for _ in 0..3 {
        c.execute_cycle().unwrap();
    }
    assert_eq!(c.register(0), 0x02);
    assert_eq!(c.register(0xF), 0);
}

#[test]
fn sub_register_sets_flag_on_no_borrow() {
    let mut c = machine_with(&[0x60, 0x05, 0x61, 0x03, 0x80, 0x15]);
    for _ in 0..3 {
        c.execute_cycle().unwrap();
    }
    assert_eq!(c.register(0), 0x02);
    assert_eq!(c.register(0xF), 1);

    let mut c = machine_with(&[0x60, 0x03, 0x61, 0x05, 0x80, 0x15]);
    for _ in 0..3 {
        c.execute_cycle().unwrap();
    }
    assert_eq!(c.register(0), 0xFE);
    assert_eq!(c.register(0xF), 0);
}

#[test]
fn subn_and_bitwise_ops() {
    let mut c = machine_with(&[0x60, 0x03, 0x61, 0x05, 0x80, 0x17]);
    for _ in 0..3 {
        c.execute_cycle().unwrap();
    }
    assert_eq!(c.register(0), 0x02);
    assert_eq!(c.register(0xF), 1);

    let mut c = machine_with(&[
        0x60, 0x0C, 0x61, 0x0A, 0x80, 0x11, // or -> 0x0E
        0x62, 0x0C, 0x82, 0x12, // and -> 0x08
        0x63, 0x0C, 0x83, 0x13, // xor -> 0x06
        0x84, 0x10, // move -> 0x0A
    ]);
    for _ in 0..8 {
        c.execute_cycle().unwrap();
    }
    assert_eq!(c.register(0), 0x0E);
    assert_eq!(c.register(2), 0x08);
    assert_eq!(c.register(3), 0x06);
    assert_eq!(c.register(4), 0x0A);
}

#[test]
fn shifts_report_shifted_out_bit() {
    let mut c = machine_with(&[0x60, 0x05, 0x80, 0x06]);
    c.execute_cycle().unwrap();
    c.execute_cycle().unwrap();
    assert_eq!(c.register(0), 0x02);
    assert_eq!(c.register(0xF), 1);

    let mut c = machine_with(&[0x60, 0x81, 0x80, 0x0E]);
    c.execute_cycle().unwrap();
    c.execute_cycle().unwrap();
    assert_eq!(c.register(0), 0x02);
    assert_eq!(c.register(0xF), 1);
}

#[test]
fn skip_instructions_advance_by_four() {
    // 3xkk skips when equal.
    let mut c = machine_with(&[0x60, 0x07, 0x30, 0x07]);
    c.execute_cycle().unwrap();
    c.execute_cycle().unwrap();
    assert_eq!(c.program_counter(), 0x206);

    // 4xkk skips when not equal; V0 == 0x07, so no skip here.
    let mut c = machine_with(&[0x60, 0x07, 0x40, 0x07]);
    c.execute_cycle().unwrap();
    c.execute_cycle().unwrap();
    assert_eq!(c.program_counter(), 0x204);

    // 5xy0 and 9xy0 compare registers.
    let mut c = machine_with(&[0x60, 0x07, 0x61, 0x07, 0x50, 0x10]);
    for _ in 0..3 {
        c.execute_cycle().unwrap();
    }
    assert_eq!(c.program_counter(), 0x208);

    let mut c = machine_with(&[0x60, 0x07, 0x61, 0x07, 0x90, 0x10]);
    for _ in 0..3 {
        c.execute_cycle().unwrap();
    }
    assert_eq!(c.program_counter(), 0x206);
}

#[test]
fn jumps_set_the_program_counter() {
    let mut c = machine_with(&[0x12, 0x08]);
    c.execute_cycle().unwrap();
    assert_eq!(c.program_counter(), 0x208);

    let mut c = machine_with(&[0x60, 0x04, 0xB2, 0x08]);
    c.execute_cycle().unwrap();
    c.execute_cycle().unwrap();
    assert_eq!(c.program_counter(), 0x20C);
}

#[test]
fn call_then_return_restores_program_counter() {
    // call 0x204; the instruction there returns.
    let mut c = machine_with(&[0x22, 0x04, 0x00, 0x00, 0x00, 0xEE]);
    c.execute_cycle().unwrap();
    assert_eq!(c.program_counter(), 0x204);
    assert_eq!(c.stack_depth(), 1);
    c.execute_cycle().unwrap();
    assert_eq!(c.program_counter(), 0x202);
    assert_eq!(c.stack_depth(), 0);
}

#[test]
fn call_stack_overflows_past_sixteen_frames() {
    // A call that targets itself nests one level per cycle.
    let mut c = machine_with(&[0x22, 0x00]);
    for depth in 1..=16 {
        c.execute_cycle().unwrap();
        assert_eq!(c.stack_depth(), depth);
    }
    let err = c.execute_cycle().unwrap_err();
    assert_eq!(err, Fault::StackOverflow { addr: 0x200 });
    assert_eq!(c.stack_depth(), 16);
}

#[test]
fn return_on_empty_stack_underflows() {
    let mut c = machine_with(&[0x00, 0xEE]);
    let err = c.execute_cycle().unwrap_err();
    assert_eq!(err, Fault::StackUnderflow { addr: 0x200 });
    assert_eq!(c.program_counter(), 0x200);
}

#[test]
fn unrecognized_opcode_is_a_fault() {
    let mut c = machine_with(&[0xFF, 0xFF]);
    let err = c.execute_cycle().unwrap_err();
    assert_eq!(err, Fault::UnrecognizedOpcode { addr: 0x200, opcode: 0xFFFF });
    assert_eq!(c.program_counter(), 0x200);
}

#[test]
fn machine_code_call_is_ignored() {
    let mut c = machine_with(&[0x01, 0x23]);
    c.execute_cycle().unwrap();
    assert_eq!(c.program_counter(), 0x202);
}

#[test]
fn rom_larger_than_memory_is_refused() {
    let mut c = Chip8::new();
    let rom = vec![0u8; 3585];
    let err = c.load_rom(&rom).unwrap_err();
    assert_eq!(err, Fault::RomTooLarge { len: 3585 });
    assert_eq!(c.program_counter(), 0x200);

    let rom = vec![0u8; 3584];
    assert!(c.load_rom(&rom).is_ok());
}

#[test]
fn wait_for_key_rewinds_until_a_key_is_pressed() {
    let mut c = machine_with(&[0xF5, 0x0A]);
    // No key pressed: the program counter is net-unchanged, so the
    // same instruction is fetched again next cycle.
    c.execute_cycle().unwrap();
    assert_eq!(c.program_counter(), 0x200);
    c.execute_cycle().unwrap();
    assert_eq!(c.program_counter(), 0x200);
    // The lowest-indexed pressed key lands in V5.
    c.keypad.set_key(7, true);
    c.keypad.set_key(3, true);
    c.execute_cycle().unwrap();
    assert_eq!(c.register(5), 3);
    assert_eq!(c.program_counter(), 0x202);
}

#[test]
fn key_skips_test_the_named_key() {
    // E09E skips when the key in V0 is down.
    let mut c = machine_with(&[0x60, 0x04, 0xE0, 0x9E]);
    c.execute_cycle().unwrap();
    c.keypad.set_key(4, true);
    c.execute_cycle().unwrap();
    assert_eq!(c.program_counter(), 0x206);

    // E0A1 skips when it is up.
    let mut c = machine_with(&[0x60, 0x04, 0xE0, 0xA1]);
    c.execute_cycle().unwrap();
    c.execute_cycle().unwrap();
    assert_eq!(c.program_counter(), 0x206);
}

#[test]
fn key_index_past_the_pad_is_a_fault() {
    let mut c = machine_with(&[0x60, 0x20, 0xE0, 0x9E]);
    c.execute_cycle().unwrap();
    let err = c.execute_cycle().unwrap_err();
    assert_eq!(err, Fault::KeyOutOfRange { key: 0x20 });
}

#[test]
fn store_bcd_writes_three_decimal_digits() {
    // I = 0x300, V0 = 234, then store-BCD.
    let mut c = machine_with(&[0xA3, 0x00, 0x60, 0xEA, 0xF0, 0x33]);
    for _ in 0..3 {
        c.execute_cycle().unwrap();
    }
    assert_eq!(c.read_memory(0x300), 2);
    assert_eq!(c.read_memory(0x301), 3);
    assert_eq!(c.read_memory(0x302), 4);
}

#[test]
fn store_and_load_registers_round_trip() {
    let mut c = machine_with(&[
        0x60, 0x11, 0x61, 0x22, 0x62, 0x33, // V0..V2
        0xA3, 0x00, 0xF2, 0x55, // store V0..=V2 at 0x300
        0x60, 0x00, 0x61, 0x00, 0x62, 0x00, // clear them
        0xF2, 0x65, // load them back
    ]);
    for _ in 0..9 {
        c.execute_cycle().unwrap();
    }
    assert_eq!(c.read_memory(0x300), 0x11);
    assert_eq!(c.read_memory(0x301), 0x22);
    assert_eq!(c.read_memory(0x302), 0x33);
    assert_eq!(c.register(0), 0x11);
    assert_eq!(c.register(1), 0x22);
    assert_eq!(c.register(2), 0x33);
}

#[test]
fn index_register_instructions() {
    // load I, nnn then add V0 to I.
    let mut c = machine_with(&[0xA1, 0x23, 0x60, 0x02, 0xF0, 0x1E]);
    for _ in 0..3 {
        c.execute_cycle().unwrap();
    }
    assert_eq!(c.index_register(), 0x125);

    // load I, font(V0): each glyph is five bytes.
    let mut c = machine_with(&[0x60, 0x0A, 0xF0, 0x29]);
    c.execute_cycle().unwrap();
    c.execute_cycle().unwrap();
    assert_eq!(c.index_register(), 50);
}

#[test]
fn drawing_the_zero_glyph_from_font_memory() {
    // V0 = 0, I = font(0), draw a five-byte sprite at (V0, V0).
    let mut c = machine_with(&[0x60, 0x00, 0xF0, 0x29, 0xD0, 0x05]);
    for _ in 0..3 {
        c.execute_cycle().unwrap();
    }
    assert_eq!(c.register(0xF), 0);
    for x in 0..4u8 {
        assert!(c.framebuffer.get(x, 0));
        assert!(c.framebuffer.get(x, 4));
    }
    for y in 1..4u8 {
        assert!(c.framebuffer.get(0, y));
        assert!(c.framebuffer.get(3, y));
        assert!(!c.framebuffer.get(1, y));
        assert!(!c.framebuffer.get(2, y));
    }
}

#[test]
fn drawing_past_memory_is_a_fault() {
    let mut c = machine_with(&[0xAF, 0xFF, 0xD0, 0x02]);
    c.execute_cycle().unwrap();
    let err = c.execute_cycle().unwrap_err();
    assert_eq!(err, Fault::MemoryOutOfBounds { addr: 0xFFF });
}

#[test]
fn clear_screen_instruction_blanks_the_display() {
    let mut c = machine_with(&[0x60, 0x00, 0xF0, 0x29, 0xD0, 0x05, 0x00, 0xE0]);
    for _ in 0..4 {
        c.execute_cycle().unwrap();
    }
    for y in 0..32u8 {
        for x in 0..64u8 {
            assert!(!c.framebuffer.get(x, y));
        }
    }
}

#[test]
fn random_byte_is_masked() {
    let mut c = machine_with(&[0xC0, 0x00, 0xC1, 0x0F]);
    c.execute_cycle().unwrap();
    c.execute_cycle().unwrap();
    assert_eq!(c.register(0), 0);
    assert!(c.register(1) < 16);
}

#[test]
fn random_bytes_repeat_under_the_same_seed() {
    let rom = [0xC0, 0xFF, 0xC1, 0xFF];
    let mut a = Chip8::new_seeded(42);
    a.load_rom(&rom).unwrap();
    let mut b = Chip8::new_seeded(42);
    b.load_rom(&rom).unwrap();
    for _ in 0..2 {
        a.execute_cycle().unwrap();
        b.execute_cycle().unwrap();
    }
    assert_eq!(a.register(0), b.register(0));
    assert_eq!(a.register(1), b.register(1));
}

#[test]
fn timers_saturate_at_zero() {
    // V0 = 2 into the delay timer, V1 = 1 into the sound timer.
    let mut c = machine_with(&[0x60, 0x02, 0xF0, 0x15, 0x61, 0x01, 0xF1, 0x18]);
    for _ in 0..4 {
        c.execute_cycle().unwrap();
    }
    assert_eq!(c.delay_timer(), 2);
    assert_eq!(c.sound_timer(), 1);
    c.decrement_timers();
    assert_eq!(c.delay_timer(), 1);
    assert_eq!(c.sound_timer(), 0);
    c.decrement_timers();
    c.decrement_timers();
    assert_eq!(c.delay_timer(), 0);
    assert_eq!(c.sound_timer(), 0);
}

#[test]
fn delay_timer_reads_back() {
    let mut c = machine_with(&[0x60, 0x09, 0xF0, 0x15, 0xF1, 0x07]);
    for _ in 0..3 {
        c.execute_cycle().unwrap();
    }
    assert_eq!(c.register(1), 9);
}

#[test]
fn load_rom_resets_machine_state() {
    let mut c = machine_with(&[0x60, 0x55, 0xA1, 0x23, 0x22, 0x08]);
    for _ in 0..3 {
        c.execute_cycle().unwrap();
    }
    assert_eq!(c.register(0), 0x55);
    assert_eq!(c.stack_depth(), 1);
    c.load_rom(&[0x00, 0xE0]).unwrap();
    assert_eq!(c.register(0), 0);
    assert_eq!(c.index_register(), 0);
    assert_eq!(c.program_counter(), 0x200);
    assert_eq!(c.stack_depth(), 0);
    assert_eq!(c.delay_timer(), 0);
    assert_eq!(c.sound_timer(), 0);
}

#[test]
fn font_data_occupies_the_first_eighty_bytes() {
    let c = Chip8::new();
    // Digit 0 glyph.
    assert_eq!(c.read_memory(0), 0xF0);
    assert_eq!(c.read_memory(1), 0x90);
    assert_eq!(c.read_memory(4), 0xF0);
    // Digit F glyph starts at 75.
    assert_eq!(c.read_memory(75), 0xF0);
    assert_eq!(c.read_memory(79), 0x80);
    assert_eq!(c.read_memory(80), 0x00);
}
