use chip8::cpu::Cpu;
use chip8::interp::cycle;
use chip8::loader::load_rom;
use chip8::semantics::VmError;
use chip8::timers::tick_timer;

/// A fresh machine with `program` placed at 0x200.
fn machine_with(program: &[u8]) -> Cpu {
    let mut cpu = Cpu::new();
    let rom: Vec<u8> = program.to_vec();
    load_rom(&mut cpu, &rom).expect("program fits in memory");
    cpu
}

fn step_ok(cpu: &mut Cpu) {
    cycle(cpu).expect("step succeeds");
}

#[test]
fn initial_state() {
    let cpu = Cpu::new();
    assert_eq!(cpu.pc, 0x200);
    assert_eq!(cpu.sp, 0);
    assert_eq!(cpu.i, 0);
    assert_eq!(cpu.delay_timer, 0);
    assert_eq!(cpu.sound_timer, 0);
    assert!(!cpu.redraw);
    assert!(cpu.memory.iter().all(|&b| b == 0));
    assert!(cpu.v.iter().all(|&b| b == 0));
    assert!(cpu.display.iter().all(|&p| !p));
    assert!(cpu.keypad.iter().all(|&k| !k));
    assert_eq!(cpu.memory.len(), 4096);
    assert_eq!(cpu.display.len(), 64 * 32);
}

#[test]
fn default_matches_new() {
    let a = Cpu::new();
    let b = Cpu::default();
    assert_eq!(a.pc, b.pc);
    assert_eq!(a.memory, b.memory);
    assert_eq!(a.v, b.v);
}

#[test]
fn load_rom_writes_at_program_start() {
    let mut cpu = Cpu::new();
    cpu.memory[0x1FF] = 0xAB;
    let rom = vec![1u8, 2, 3];
    load_rom(&mut cpu, &rom).unwrap();
    assert_eq!(cpu.memory[0x1FF], 0xAB);
    assert_eq!(&cpu.memory[0x200..0x203], &[1, 2, 3]);
    assert_eq!(cpu.memory[0x203], 0);
}

#[test]
fn load_rom_largest_fit_and_rejection() {
    let mut cpu = Cpu::new();
    let largest = vec![7u8; 4096 - 0x200];
    load_rom(&mut cpu, &largest).unwrap();
    assert_eq!(cpu.memory[4095], 7);

    let mut cpu = Cpu::new();
    let too_big = vec![7u8; 4096 - 0x200 + 1];
    assert_eq!(load_rom(&mut cpu, &too_big), Err(VmError::RomTooLarge));
    assert_eq!(cpu.memory[0x200], 0, "a rejected image is not partially loaded");
}

#[test]
fn set_then_add_wraps() {
    // 6xkk then 7xkk: V[0] = 250, add 10, wraps to 4.
    let mut cpu = machine_with(&[0x60, 250, 0x70, 10]);
    step_ok(&mut cpu);
    assert_eq!(cpu.v[0], 250);
    let flag_before = cpu.v[0xF];
    step_ok(&mut cpu);
    assert_eq!(cpu.v[0], 4);
    assert_eq!(cpu.pc, 0x204);
    assert_eq!(cpu.v[0xF], flag_before, "7xkk touches no carry flag");
}

#[test]
fn add_reg_carry_set_from_old_operands() {
    // V0 = 200, V1 = 100; 8014 leaves 44 and carry 1.
    let mut cpu = machine_with(&[0x60, 200, 0x61, 100, 0x80, 0x14]);
    step_ok(&mut cpu);
    step_ok(&mut cpu);
    step_ok(&mut cpu);
    assert_eq!(cpu.v[0], 44);
    assert_eq!(cpu.v[0xF], 1);
}

#[test]
fn add_reg_no_carry() {
    let mut cpu = machine_with(&[0x60, 20, 0x61, 30, 0x80, 0x14]);
    cpu.v[0xF] = 9;
    step_ok(&mut cpu);
    step_ok(&mut cpu);
    step_ok(&mut cpu);
    assert_eq!(cpu.v[0], 50);
    assert_eq!(cpu.v[0xF], 0, "the flag is written on every add");
}

#[test]
fn sub_reg_not_borrow() {
    // 8xy5: V0 = 10, V1 = 20: borrow, flag 0, result wraps.
    let mut cpu = machine_with(&[0x60, 10, 0x61, 20, 0x80, 0x15]);
    step_ok(&mut cpu);
    step_ok(&mut cpu);
    step_ok(&mut cpu);
    assert_eq!(cpu.v[0], 246);
    assert_eq!(cpu.v[0xF], 0);
}

#[test]
fn sub_reg_equal_operands_sets_flag() {
    // V[x] >= V[y] includes equality: flag 1, result 0.
    let mut cpu = machine_with(&[0x60, 20, 0x61, 20, 0x80, 0x15]);
    step_ok(&mut cpu);
    step_ok(&mut cpu);
    step_ok(&mut cpu);
    assert_eq!(cpu.v[0], 0);
    assert_eq!(cpu.v[0xF], 1);
}

#[test]
fn subn_reg_reversed() {
    // 8xy7: V0 = 5, V1 = 7: V0 = 2, no borrow, flag 1.
    let mut cpu = machine_with(&[0x60, 5, 0x61, 7, 0x80, 0x17]);
    step_ok(&mut cpu);
    step_ok(&mut cpu);
    step_ok(&mut cpu);
    assert_eq!(cpu.v[0], 2);
    assert_eq!(cpu.v[0xF], 1);
}

#[test]
fn shr_flag_is_least_significant_bit() {
    // 8xy6 on V0 = 0b10110011: flag 1 (bit 0, not the low nibble), value halves.
    let mut cpu = machine_with(&[0x60, 0xB3, 0x80, 0x16]);
    step_ok(&mut cpu);
    step_ok(&mut cpu);
    assert_eq!(cpu.v[0xF], 1);
    assert_eq!(cpu.v[0], 0x59);
}

#[test]
fn shl_flag_is_most_significant_bit() {
    // 8xyE on V0 = 0b10110011: flag 1 (bit 7), value doubles mod 256.
    let mut cpu = machine_with(&[0x60, 0xB3, 0x80, 0x1E]);
    step_ok(&mut cpu);
    step_ok(&mut cpu);
    assert_eq!(cpu.v[0xF], 1);
    assert_eq!(cpu.v[0], 0x66);
}

#[test]
fn bitwise_ops() {
    let mut cpu = machine_with(&[
        0x60, 0xF0, 0x61, 0x3C, 0x80, 0x11, // V0 |= V1 -> 0xFC
        0x80, 0x12, // V0 &= V1 -> 0x3C
        0x80, 0x13, // V0 ^= V1 -> 0x00
    ]);
    step_ok(&mut cpu);
    step_ok(&mut cpu);
    step_ok(&mut cpu);
    assert_eq!(cpu.v[0], 0xFC);
    step_ok(&mut cpu);
    assert_eq!(cpu.v[0], 0x3C);
    step_ok(&mut cpu);
    assert_eq!(cpu.v[0], 0x00);
}

#[test]
fn copy_reg() {
    let mut cpu = machine_with(&[0x61, 0x42, 0x80, 0x10]);
    step_ok(&mut cpu);
    step_ok(&mut cpu);
    assert_eq!(cpu.v[0], 0x42);
}

#[test]
fn jump_sets_pc_exactly() {
    let mut cpu = machine_with(&[0x1A, 0xBC]);
    step_ok(&mut cpu);
    assert_eq!(cpu.pc, 0xABC, "a jump gets no extra advance");
}

#[test]
fn jump_v0_adds_register() {
    let mut cpu = machine_with(&[0x60, 0x10, 0xB3, 0x00]);
    step_ok(&mut cpu);
    step_ok(&mut cpu);
    assert_eq!(cpu.pc, 0x310);
}

#[test]
fn call_then_return_round_trip() {
    // 2nnn at 0x200 calls 0x300; 00EE there returns to 0x202.
    let mut cpu = machine_with(&[0x23, 0x00]);
    cpu.memory[0x300] = 0x00;
    cpu.memory[0x301] = 0xEE;
    step_ok(&mut cpu);
    assert_eq!(cpu.pc, 0x300);
    assert_eq!(cpu.sp, 1);
    step_ok(&mut cpu);
    assert_eq!(cpu.pc, 0x202, "return lands after the call instruction");
    assert_eq!(cpu.sp, 0);
}

#[test]
fn stack_underflow_is_fatal_and_leaves_state() {
    let mut cpu = machine_with(&[0x00, 0xEE]);
    assert_eq!(cycle(&mut cpu), Err(VmError::StackUnderflow));
    assert_eq!(cpu.pc, 0x200, "a faulting step changes nothing");
}

#[test]
fn stack_overflow_after_sixteen_calls() {
    // Sixteen nested calls fill the stack; the seventeenth faults.
    let mut cpu = Cpu::new();
    for _ in 0..16 {
        cpu.memory[cpu.pc as usize] = 0x22;
        cpu.memory[cpu.pc as usize + 1] = 0x00;
        // every call targets 0x200 again
        step_ok(&mut cpu);
    }
    assert_eq!(cpu.sp, 16);
    cpu.memory[0x200] = 0x22;
    cpu.memory[0x201] = 0x00;
    assert_eq!(cycle(&mut cpu), Err(VmError::StackOverflow));
    assert_eq!(cpu.sp, 16);
}

#[test]
fn skip_if_equal_immediate() {
    let mut cpu = machine_with(&[0x60, 7, 0x30, 7]);
    step_ok(&mut cpu);
    step_ok(&mut cpu);
    assert_eq!(cpu.pc, 0x206, "condition true: the next instruction is skipped");

    let mut cpu = machine_with(&[0x60, 7, 0x30, 8]);
    step_ok(&mut cpu);
    step_ok(&mut cpu);
    assert_eq!(cpu.pc, 0x204, "condition false: no skip");
}

#[test]
fn skip_if_not_equal_immediate() {
    let mut cpu = machine_with(&[0x60, 7, 0x40, 8]);
    step_ok(&mut cpu);
    step_ok(&mut cpu);
    assert_eq!(cpu.pc, 0x206);
}

#[test]
fn skip_register_comparisons() {
    // 5xy0 skips when equal.
    let mut cpu = machine_with(&[0x60, 7, 0x61, 7, 0x50, 0x10]);
    step_ok(&mut cpu);
    step_ok(&mut cpu);
    step_ok(&mut cpu);
    assert_eq!(cpu.pc, 0x208);

    // 9xy0 skips when different.
    let mut cpu = machine_with(&[0x60, 7, 0x61, 8, 0x90, 0x10]);
    step_ok(&mut cpu);
    step_ok(&mut cpu);
    step_ok(&mut cpu);
    assert_eq!(cpu.pc, 0x208);
}

#[test]
fn set_and_add_index() {
    let mut cpu = machine_with(&[0xA1, 0x23, 0x60, 0x10, 0xF0, 0x1E]);
    step_ok(&mut cpu);
    assert_eq!(cpu.i, 0x123);
    step_ok(&mut cpu);
    step_ok(&mut cpu);
    assert_eq!(cpu.i, 0x133);
}

#[test]
fn font_address_is_five_bytes_per_glyph() {
    let mut cpu = machine_with(&[0x60, 0x0B, 0xF0, 0x29]);
    step_ok(&mut cpu);
    step_ok(&mut cpu);
    assert_eq!(cpu.i, 11 * 5);
}

#[test]
fn bcd_decomposition() {
    // Fx33 on V0 = 157 at I = 0x400: memory takes 1, 5, 7.
    let mut cpu = machine_with(&[0x60, 157, 0xA4, 0x00, 0xF0, 0x33]);
    step_ok(&mut cpu);
    step_ok(&mut cpu);
    step_ok(&mut cpu);
    assert_eq!(cpu.memory[0x400], 1);
    assert_eq!(cpu.memory[0x401], 5);
    assert_eq!(cpu.memory[0x402], 7);
}

#[test]
fn bcd_single_digit() {
    let mut cpu = machine_with(&[0x60, 9, 0xA4, 0x00, 0xF0, 0x33]);
    step_ok(&mut cpu);
    step_ok(&mut cpu);
    step_ok(&mut cpu);
    assert_eq!(&cpu.memory[0x400..0x403], &[0, 0, 9]);
}

#[test]
fn bcd_out_of_bounds_is_fatal() {
    let mut cpu = machine_with(&[0x60, 5, 0xAF, 0xFE, 0xF0, 0x33]);
    step_ok(&mut cpu);
    step_ok(&mut cpu);
    // I = 0xFFE: the three digit cells would run past 0xFFF.
    assert_eq!(cycle(&mut cpu), Err(VmError::MemoryOutOfBounds));
}

#[test]
fn store_and_load_inclusive_range() {
    let mut cpu = machine_with(&[
        0x60, 0xAA, 0x61, 0xBB, 0x62, 0xCC, 0xA4, 0x00, 0xF1, 0x55,
    ]);
    for _ in 0..5 {
        step_ok(&mut cpu);
    }
    // Fx55 with x = 1 stores V0 and V1, nothing further.
    assert_eq!(cpu.memory[0x400], 0xAA);
    assert_eq!(cpu.memory[0x401], 0xBB);
    assert_eq!(cpu.memory[0x402], 0);

    let mut cpu = Cpu::new();
    cpu.memory[0x500] = 0x11;
    cpu.memory[0x501] = 0x22;
    cpu.memory[0x502] = 0x33;
    let rom = vec![0xA5, 0x00, 0xF1, 0x65];
    load_rom(&mut cpu, &rom).unwrap();
    step_ok(&mut cpu);
    step_ok(&mut cpu);
    assert_eq!(cpu.v[0], 0x11);
    assert_eq!(cpu.v[1], 0x22);
    assert_eq!(cpu.v[2], 0, "Fx65 with x = 1 loads only V0 and V1");
}

#[test]
fn store_out_of_bounds_is_fatal() {
    let mut cpu = machine_with(&[0xAF, 0xFF, 0xF1, 0x55]);
    step_ok(&mut cpu);
    assert_eq!(cycle(&mut cpu), Err(VmError::MemoryOutOfBounds));
}

#[test]
fn fetch_past_end_of_memory_is_fatal() {
    let mut cpu = Cpu::new();
    cpu.pc = 4095;
    assert_eq!(cycle(&mut cpu), Err(VmError::MemoryOutOfBounds));
    assert_eq!(cpu.pc, 4095);
}

#[test]
fn unknown_opcode_is_a_noop_that_advances() {
    let mut cpu = machine_with(&[0x50, 0x11]); // 5xy1 is no instruction
    step_ok(&mut cpu);
    assert_eq!(cpu.pc, 0x202);
    assert!(cpu.v.iter().all(|&b| b == 0));
}

#[test]
fn random_masked_with_zero_is_zero() {
    // Cxkk with kk = 0 must clear the register whatever byte was drawn.
    let mut cpu = machine_with(&[0x60, 0x55, 0xC0, 0x00]);
    step_ok(&mut cpu);
    step_ok(&mut cpu);
    assert_eq!(cpu.v[0], 0);
    assert_eq!(cpu.pc, 0x204, "the random instruction still advances");
}

#[test]
fn random_stays_within_mask() {
    let mut cpu = machine_with(&[0xC0, 0x0F]);
    step_ok(&mut cpu);
    assert_eq!(cpu.v[0] & 0xF0, 0);
}

#[test]
fn sprite_draw_bit_exact_and_collision() {
    // One row 0xF0 at (0,0): pixels 0..4 on, 4..8 off; drawing it again
    // toggles them back off and reports the collision in VF.
    let mut cpu = Cpu::new();
    cpu.memory[0x600] = 0xF0;
    let rom = vec![0xA6, 0x00, 0xD0, 0x01, 0xD0, 0x01];
    load_rom(&mut cpu, &rom).unwrap();
    step_ok(&mut cpu);
    step_ok(&mut cpu);
    for col in 0..4 {
        assert!(cpu.display[col], "pixel ({col}, 0) is on");
        assert!(cpu.pixel(0, col));
    }
    for col in 4..8 {
        assert!(!cpu.display[col], "pixel ({col}, 0) is off");
        assert!(!cpu.pixel(0, col));
    }
    assert_eq!(cpu.v[0xF], 0, "no collision on a clear display");
    assert!(cpu.redraw);

    step_ok(&mut cpu);
    for col in 0..8 {
        assert!(!cpu.display[col], "the second draw toggles every pixel off");
    }
    assert_eq!(cpu.v[0xF], 1, "the second draw collides");
}

#[test]
fn sprite_draw_wraps_at_edges() {
    // A one-row sprite at (62, 31) wraps into column 0 and stays in row 31.
    let mut cpu = Cpu::new();
    cpu.memory[0x600] = 0b11000000;
    let rom = vec![0xA6, 0x00, 0x60, 62, 0x61, 31, 0xD0, 0x11];
    load_rom(&mut cpu, &rom).unwrap();
    for _ in 0..4 {
        step_ok(&mut cpu);
    }
    assert!(cpu.display[31 * 64 + 62]);
    assert!(cpu.display[31 * 64 + 63]);
    assert!(!cpu.display[31 * 64 + 0]);

    // The same sprite with one more row wraps that row to the top.
    let mut cpu = Cpu::new();
    cpu.memory[0x600] = 0b11000000;
    cpu.memory[0x601] = 0b10000000;
    let rom = vec![0xA6, 0x00, 0x60, 62, 0x61, 31, 0xD0, 0x12];
    load_rom(&mut cpu, &rom).unwrap();
    for _ in 0..4 {
        step_ok(&mut cpu);
    }
    assert!(cpu.display[0 * 64 + 62], "second row wraps to row 0");
}

#[test]
fn sprite_draw_zero_rows_only_flags_redraw() {
    let mut cpu = machine_with(&[0xD0, 0x00]);
    step_ok(&mut cpu);
    assert!(cpu.display.iter().all(|&p| !p));
    assert_eq!(cpu.v[0xF], 0);
    assert!(cpu.redraw);
}

#[test]
fn sprite_read_out_of_bounds_is_fatal() {
    let mut cpu = machine_with(&[0xAF, 0xFF, 0xD0, 0x02]);
    step_ok(&mut cpu);
    assert_eq!(cycle(&mut cpu), Err(VmError::MemoryOutOfBounds));
}

#[test]
fn clear_display_resets_pixels_and_flags_redraw() {
    let mut cpu = Cpu::new();
    cpu.memory[0x600] = 0xF0;
    let rom = vec![0xA6, 0x00, 0xD0, 0x01, 0x00, 0xE0];
    load_rom(&mut cpu, &rom).unwrap();
    step_ok(&mut cpu);
    step_ok(&mut cpu);
    cpu.clear_redraw();
    assert!(!cpu.redraw);
    step_ok(&mut cpu);
    assert!(cpu.display.iter().all(|&p| !p));
    assert!(cpu.redraw);
    assert_eq!(cpu.pc, 0x206);
}

#[test]
fn key_skip_instructions() {
    // Ex9E skips when the key in V0 is pressed.
    let mut cpu = machine_with(&[0x60, 5, 0xE0, 0x9E]);
    cpu.set_key(5, true);
    step_ok(&mut cpu);
    step_ok(&mut cpu);
    assert_eq!(cpu.pc, 0x206);

    // ExA1 skips when it is not.
    let mut cpu = machine_with(&[0x60, 5, 0xE0, 0xA1]);
    step_ok(&mut cpu);
    step_ok(&mut cpu);
    assert_eq!(cpu.pc, 0x206);
}

#[test]
fn key_skip_with_bad_register_is_fatal() {
    let mut cpu = machine_with(&[0x60, 16, 0xE0, 0x9E]);
    step_ok(&mut cpu);
    assert_eq!(cycle(&mut cpu), Err(VmError::KeyOutOfBounds));
}

#[test]
fn wait_key_polls_without_spinning() {
    // Fx0A with no key down: each step leaves the machine untouched.
    let mut cpu = machine_with(&[0xF3, 0x0A]);
    for _ in 0..3 {
        step_ok(&mut cpu);
        assert_eq!(cpu.pc, 0x200, "the program counter does not move");
        assert!(cpu.v.iter().all(|&b| b == 0), "no register moves");
    }
    // Two keys down: the lowest-indexed one is taken.
    cpu.set_key(9, true);
    cpu.set_key(5, true);
    step_ok(&mut cpu);
    assert_eq!(cpu.v[3], 5);
    assert_eq!(cpu.pc, 0x202);
}

#[test]
fn delay_timer_write_and_read() {
    let mut cpu = machine_with(&[0x60, 42, 0xF0, 0x15, 0xF1, 0x07]);
    step_ok(&mut cpu);
    step_ok(&mut cpu);
    assert_eq!(cpu.delay_timer, 42);
    step_ok(&mut cpu);
    assert_eq!(cpu.v[1], 42);
}

#[test]
fn sound_timer_write_and_activity() {
    let mut cpu = machine_with(&[0x60, 3, 0xF0, 0x18]);
    assert!(!cpu.sound_active());
    step_ok(&mut cpu);
    step_ok(&mut cpu);
    assert_eq!(cpu.sound_timer, 3);
    assert!(cpu.sound_active());
}

#[test]
fn timer_decay_settles_at_zero() {
    // Repeated ticks on a timer at 1 reach 0 and stay there.
    let mut cpu = Cpu::new();
    cpu.delay_timer = 1;
    for _ in 0..10 {
        tick_timer(&mut cpu, 16667);
        assert!(cpu.delay_timer <= 1);
    }
    assert_eq!(cpu.delay_timer, 0);
    for _ in 0..10 {
        tick_timer(&mut cpu, 16667);
        assert_eq!(cpu.delay_timer, 0, "a timer at zero never underflows");
    }
}

#[test]
fn timer_accumulates_partial_ticks() {
    // Two calls short of a tick on their own must still add up to one.
    let mut cpu = Cpu::new();
    cpu.delay_timer = 10;
    tick_timer(&mut cpu, 8000);
    assert_eq!(cpu.delay_timer, 10, "8 ms is less than one tick");
    tick_timer(&mut cpu, 9000);
    assert_eq!(cpu.delay_timer, 9, "17 ms in all is one tick");
}

#[test]
fn timer_many_ticks_in_one_call() {
    let mut cpu = Cpu::new();
    cpu.delay_timer = 5;
    cpu.sound_timer = 200;
    tick_timer(&mut cpu, 3 * 16667);
    assert_eq!(cpu.delay_timer, 2);
    assert_eq!(cpu.sound_timer, 197);
}

#[test]
fn set_key_updates_only_that_key() {
    let mut cpu = Cpu::new();
    cpu.set_key(4, true);
    assert!(cpu.keypad[4]);
    assert!(cpu.keypad.iter().enumerate().all(|(k, &p)| p == (k == 4)));
    cpu.set_key(4, false);
    assert!(!cpu.keypad[4]);
}
