use chip8_core::cpu::Cpu;
use chip8_core::cpu::StepError;

/// Builds a program image from 16-bit instruction words, big-endian.
fn image(words: &[u16]) -> Vec<u8> {
    let mut bytes = Vec::new();
    for w in words {
        bytes.push((w >> 8) as u8);
        bytes.push((w & 0xFF) as u8);
    }
    bytes
}

fn step(cpu: &mut Cpu) {
    cpu.opcode().expect("step failed");
}

#[test]
fn initial_state() {
    let cpu = Cpu::new();
    assert_eq!(cpu.pc, 0x200);
    assert_eq!(cpu.ir, 0);
    assert_eq!(cpu.sp, 0);
    assert!(cpu.draw_flag);
    assert!(!cpu.beep_flag);
    assert_eq!(cpu.delay_timer, 0);
    assert_eq!(cpu.sound_timer, 0);
    assert_eq!(cpu.memory.len(), 4096);
    assert_eq!(cpu.gfx.len(), 2048);
    assert!(cpu.gfx.iter().all(|&p| p == 0));
    assert!(cpu.key.iter().all(|&k| k == 0));
    assert!(cpu.v.iter().all(|&r| r == 0));
    // glyph table: first glyph (0) and last glyph (F)
    assert_eq!(&cpu.memory[0..5], &[0xF0, 0x90, 0x90, 0x90, 0xF0]);
    assert_eq!(&cpu.memory[75..80], &[0xF0, 0x80, 0xF0, 0x80, 0x80]);
    assert!(cpu.memory[80..].iter().all(|&b| b == 0));
}

#[test]
fn load_application_copies_image() {
    let mut cpu = Cpu::new();
    let prog = vec![0x12, 0x34, 0x56];
    assert!(cpu.load_application(&prog));
    assert_eq!(&cpu.memory[0x200..0x203], &[0x12, 0x34, 0x56]);
    assert!(cpu.memory[0x203..].iter().all(|&b| b == 0));
    assert_eq!(cpu.pc, 0x200);
}

#[test]
fn load_application_max_size_accepted() {
    let mut cpu = Cpu::new();
    let prog = vec![0xAB; 3584];
    assert!(cpu.load_application(&prog));
    assert_eq!(cpu.memory[0x200], 0xAB);
    assert_eq!(cpu.memory[4095], 0xAB);
}

#[test]
fn load_application_too_large_rejected() {
    let mut cpu = Cpu::new();
    let prog = vec![0xAB; 3585];
    assert!(!cpu.load_application(&prog));
    assert!(cpu.memory[0x200..].iter().all(|&b| b == 0));
}

#[test]
fn set_register_then_clear_screen() {
    // Load `6A 05 00 E0`: set register A to 5, then clear the screen.
    let mut cpu = Cpu::new();
    assert!(cpu.load_application(&vec![0x6A, 0x05, 0x00, 0xE0]));
    cpu.draw_flag = false;
    step(&mut cpu);
    assert_eq!(cpu.v[0xA], 5);
    assert_eq!(cpu.pc, 0x202);
    step(&mut cpu);
    assert_eq!(cpu.v[0xA], 5);
    assert!(cpu.gfx.iter().all(|&p| p == 0));
    assert!(cpu.draw_flag);
    assert_eq!(cpu.pc, 0x204);
}

#[test]
fn delay_timer_counts_down_to_zero() {
    // v1 = 3; delay = v1; then three steps with no timer instruction.
    let mut cpu = Cpu::new();
    assert!(cpu.load_application(&image(&[0x6103, 0xF115, 0x6000, 0x6000, 0x6000])));
    step(&mut cpu);
    step(&mut cpu); // delay set to 3, then ticked once this same cycle
    assert_eq!(cpu.delay_timer, 2);
    step(&mut cpu);
    assert_eq!(cpu.delay_timer, 1);
    step(&mut cpu);
    assert_eq!(cpu.delay_timer, 0);
    step(&mut cpu);
    assert_eq!(cpu.delay_timer, 0); // floors at zero, never negative
}

#[test]
fn sound_timer_one_raises_beep() {
    // v1 = 1; sound = v1; one more step.
    let mut cpu = Cpu::new();
    assert!(cpu.load_application(&image(&[0x6101, 0xF118, 0x6000])));
    step(&mut cpu);
    assert!(!cpu.beep_flag);
    step(&mut cpu); // sound set to 1; the same cycle's tick is its last audible cycle
    assert!(cpu.beep_flag);
    assert_eq!(cpu.sound_timer, 0);
    step(&mut cpu);
    assert!(cpu.beep_flag);
    assert_eq!(cpu.sound_timer, 0);
}

#[test]
fn jump_sets_pc_exactly() {
    let mut cpu = Cpu::new();
    assert!(cpu.load_application(&image(&[0x1300])));
    step(&mut cpu);
    assert_eq!(cpu.pc, 0x300);
}

#[test]
fn jump_plus_v0() {
    let mut cpu = Cpu::new();
    assert!(cpu.load_application(&image(&[0x6004, 0xB300])));
    step(&mut cpu);
    step(&mut cpu);
    assert_eq!(cpu.pc, 0x304);
}

#[test]
fn add_with_carry_sets_flag() {
    // v0 = 200, v1 = 100; v0 += v1 -> 44 with carry.
    let mut cpu = Cpu::new();
    assert!(cpu.load_application(&image(&[0x60C8, 0x6164, 0x8014])));
    step(&mut cpu);
    step(&mut cpu);
    step(&mut cpu);
    assert_eq!(cpu.v[0], 44);
    assert_eq!(cpu.v[0xF], 1);
}

#[test]
fn add_without_carry_clears_flag() {
    // Flag starts dirty: 6F01 sets it; the add must clear it.
    let mut cpu = Cpu::new();
    assert!(cpu.load_application(&image(&[0x600A, 0x6114, 0x6F01, 0x8014])));
    for _ in 0..4 {
        step(&mut cpu);
    }
    assert_eq!(cpu.v[0], 30);
    assert_eq!(cpu.v[0xF], 0);
}

#[test]
fn subtract_with_borrow_clears_flag() {
    // v0 = 10, v1 = 20; v0 -= v1 -> 246, borrow -> flag 0.
    let mut cpu = Cpu::new();
    assert!(cpu.load_application(&image(&[0x600A, 0x6114, 0x6F01, 0x8015])));
    for _ in 0..4 {
        step(&mut cpu);
    }
    assert_eq!(cpu.v[0], 246);
    assert_eq!(cpu.v[0xF], 0);
}

#[test]
fn subtract_without_borrow_sets_flag() {
    // v0 = 20, v1 = 10; v0 -= v1 -> 10, no borrow -> flag 1.
    let mut cpu = Cpu::new();
    assert!(cpu.load_application(&image(&[0x6014, 0x610A, 0x8015])));
    for _ in 0..3 {
        step(&mut cpu);
    }
    assert_eq!(cpu.v[0], 10);
    assert_eq!(cpu.v[0xF], 1);
}

#[test]
fn reverse_subtract() {
    // v0 = 10, v1 = 30; v0 = v1 - v0 -> 20, no borrow -> flag 1.
    let mut cpu = Cpu::new();
    assert!(cpu.load_application(&image(&[0x600A, 0x611E, 0x8017])));
    for _ in 0..3 {
        step(&mut cpu);
    }
    assert_eq!(cpu.v[0], 20);
    assert_eq!(cpu.v[0xF], 1);
}

#[test]
fn shifts_report_edge_bits() {
    // v0 = 0b1000_0011; shr -> flag 1, v0 = 0b0100_0001.
    let mut cpu = Cpu::new();
    assert!(cpu.load_application(&image(&[0x6083, 0x8006, 0x800E])));
    step(&mut cpu);
    step(&mut cpu);
    assert_eq!(cpu.v[0], 0x41);
    assert_eq!(cpu.v[0xF], 1);
    // shl of 0b0100_0001 -> flag 0, v0 = 0b1000_0010.
    step(&mut cpu);
    assert_eq!(cpu.v[0], 0x82);
    assert_eq!(cpu.v[0xF], 0);
}

#[test]
fn bitwise_ops() {
    let mut cpu = Cpu::new();
    assert!(cpu.load_application(&image(&[
        0x60F0, 0x610F, 0x8011, // v0 |= v1 -> 0xFF
        0x62CC, 0x8022, // v0 &= v2 -> 0xCC
        0x63AA, 0x8033, // v0 ^= v3 -> 0x66
        0x8430, // v4 = v3
    ])));
    for _ in 0..8 {
        step(&mut cpu);
    }
    assert_eq!(cpu.v[0], 0x66);
    assert_eq!(cpu.v[4], 0xAA);
}

#[test]
fn add_immediate_wraps_without_flag() {
    let mut cpu = Cpu::new();
    assert!(cpu.load_application(&image(&[0x60FF, 0x7002])));
    step(&mut cpu);
    step(&mut cpu);
    assert_eq!(cpu.v[0], 1);
    assert_eq!(cpu.v[0xF], 0);
}

#[test]
fn skips_on_immediate_and_register() {
    // 3XNN taken, 4XNN not taken, 5XY0 taken, 9XY0 not taken.
    let mut cpu = Cpu::new();
    assert!(cpu.load_application(&image(&[0x6007, 0x3007])));
    step(&mut cpu);
    step(&mut cpu);
    assert_eq!(cpu.pc, 0x206);

    let mut cpu = Cpu::new();
    assert!(cpu.load_application(&image(&[0x6007, 0x4007])));
    step(&mut cpu);
    step(&mut cpu);
    assert_eq!(cpu.pc, 0x204);

    let mut cpu = Cpu::new();
    assert!(cpu.load_application(&image(&[0x6007, 0x6107, 0x5010])));
    for _ in 0..3 {
        step(&mut cpu);
    }
    assert_eq!(cpu.pc, 0x208);

    let mut cpu = Cpu::new();
    assert!(cpu.load_application(&image(&[0x6007, 0x6107, 0x9010])));
    for _ in 0..3 {
        step(&mut cpu);
    }
    assert_eq!(cpu.pc, 0x206);
}

#[test]
fn call_and_return() {
    // call 0x204; the callee returns; execution resumes after the call.
    let mut cpu = Cpu::new();
    assert!(cpu.load_application(&image(&[0x2204, 0x6000, 0x00EE])));
    step(&mut cpu);
    assert_eq!(cpu.pc, 0x204);
    assert_eq!(cpu.sp, 1);
    step(&mut cpu);
    assert_eq!(cpu.pc, 0x202);
    assert_eq!(cpu.sp, 0);
}

#[test]
fn set_address_register() {
    let mut cpu = Cpu::new();
    assert!(cpu.load_application(&image(&[0xA123])));
    step(&mut cpu);
    assert_eq!(cpu.ir, 0x123);
    assert_eq!(cpu.pc, 0x202);
}

#[test]
fn add_to_address_register_reports_range_overflow() {
    let mut cpu = Cpu::new();
    assert!(cpu.load_application(&image(&[0xAFFF, 0x6001, 0xF01E])));
    for _ in 0..3 {
        step(&mut cpu);
    }
    assert_eq!(cpu.ir, 0x1000);
    assert_eq!(cpu.v[0xF], 1);

    let mut cpu = Cpu::new();
    assert!(cpu.load_application(&image(&[0xA100, 0x6001, 0xF01E])));
    for _ in 0..3 {
        step(&mut cpu);
    }
    assert_eq!(cpu.ir, 0x101);
    assert_eq!(cpu.v[0xF], 0);
}

#[test]
fn glyph_address_is_five_per_digit() {
    let mut cpu = Cpu::new();
    assert!(cpu.load_application(&image(&[0x600A, 0xF029])));
    step(&mut cpu);
    step(&mut cpu);
    assert_eq!(cpu.ir, 50);
    // the glyph for digit A starts there
    assert_eq!(cpu.memory[50], 0xF0);
}

#[test]
fn bcd_stores_three_digits() {
    let mut cpu = Cpu::new();
    assert!(cpu.load_application(&image(&[0x60EA, 0xA300, 0xF033])));
    for _ in 0..3 {
        step(&mut cpu);
    }
    // 234 -> 2, 3, 4
    assert_eq!(cpu.memory[0x300], 2);
    assert_eq!(cpu.memory[0x301], 3);
    assert_eq!(cpu.memory[0x302], 4);
    assert_eq!(cpu.ir, 0x300);
}

#[test]
fn block_store_then_load_round_trips() {
    // Store v0..=v1 at 0x300, reset the address register, load back.
    let mut cpu = Cpu::new();
    assert!(cpu.load_application(&image(&[
        0x6005, 0x6107, 0xA300, 0xF155, 0xA300, 0x6000, 0x6100, 0xF165,
    ])));
    for _ in 0..4 {
        step(&mut cpu);
    }
    assert_eq!(cpu.memory[0x300], 5);
    assert_eq!(cpu.memory[0x301], 7);
    assert_eq!(cpu.ir, 0x302); // original + X + 1
    for _ in 0..4 {
        step(&mut cpu);
    }
    assert_eq!(cpu.v[0], 5);
    assert_eq!(cpu.v[1], 7);
    assert_eq!(cpu.ir, 0x302); // start + X + 1 again
}

#[test]
fn get_delay_timer() {
    let mut cpu = Cpu::new();
    assert!(cpu.load_application(&image(&[0x6105, 0xF115, 0xF007])));
    for _ in 0..3 {
        step(&mut cpu);
    }
    // delay was set to 5 and has ticked once before the read; the read
    // sees 4, and this step's own tick then brings the timer to 3
    assert_eq!(cpu.v[0], 4);
    assert_eq!(cpu.delay_timer, 3);
}

#[test]
fn random_mask_zero_gives_zero() {
    // v0 = random & 0x00 must be 0 whatever byte the source produced.
    let mut cpu = Cpu::new();
    assert!(cpu.load_application(&image(&[0x6077, 0xC000])));
    step(&mut cpu);
    step(&mut cpu);
    assert_eq!(cpu.v[0], 0);
    assert_eq!(cpu.pc, 0x204);
}

#[test]
fn random_mask_limits_bits() {
    let mut cpu = Cpu::new();
    assert!(cpu.load_application(&image(&[0xC00F])));
    step(&mut cpu);
    assert_eq!(cpu.v[0] & 0xF0, 0);
}

#[test]
fn skip_if_key_pressed() {
    let mut cpu = Cpu::new();
    assert!(cpu.load_application(&image(&[0x6003, 0xE09E])));
    cpu.key[3] = 1;
    step(&mut cpu);
    step(&mut cpu);
    assert_eq!(cpu.pc, 0x206);

    let mut cpu = Cpu::new();
    assert!(cpu.load_application(&image(&[0x6003, 0xE09E])));
    step(&mut cpu);
    step(&mut cpu);
    assert_eq!(cpu.pc, 0x204);
}

#[test]
fn skip_if_key_not_pressed() {
    let mut cpu = Cpu::new();
    assert!(cpu.load_application(&image(&[0x6003, 0xE0A1])));
    step(&mut cpu);
    step(&mut cpu);
    assert_eq!(cpu.pc, 0x206);
}

#[test]
fn await_key_blocks_until_pressed() {
    let mut cpu = Cpu::new();
    assert!(cpu.load_application(&image(&[0xF00A])));
    step(&mut cpu);
    assert_eq!(cpu.pc, 0x200); // no key: re-fetch the same instruction
    step(&mut cpu);
    assert_eq!(cpu.pc, 0x200);
    cpu.key[3] = 1;
    cpu.key[7] = 1;
    step(&mut cpu);
    assert_eq!(cpu.v[0], 7); // the highest pressed index wins
    assert_eq!(cpu.pc, 0x202);
}

#[test]
fn await_key_still_ticks_timers() {
    let mut cpu = Cpu::new();
    assert!(cpu.load_application(&image(&[0x6102, 0xF115, 0xF00A])));
    step(&mut cpu);
    step(&mut cpu);
    assert_eq!(cpu.delay_timer, 1);
    step(&mut cpu); // awaiting, no key pressed
    assert_eq!(cpu.pc, 0x204);
    assert_eq!(cpu.delay_timer, 0);
}

#[test]
fn draw_on_cleared_screen_matches_sprite() {
    // Sprite rows 0xFF, 0x81 drawn at (0, 0) on a cleared screen.
    let mut cpu = Cpu::new();
    assert!(cpu.load_application(&image(&[
        0x6000, 0x6100, 0xA20A, 0x00E0, 0xD012, 0xFF81,
    ])));
    cpu.draw_flag = false;
    for _ in 0..5 {
        step(&mut cpu);
    }
    for c in 0..8 {
        assert_eq!(cpu.gfx[c], 1, "row 0 col {}", c);
    }
    assert_eq!(cpu.gfx[64], 1);
    for c in 1..7 {
        assert_eq!(cpu.gfx[64 + c], 0, "row 1 col {}", c);
    }
    assert_eq!(cpu.gfx[71], 1);
    assert_eq!(cpu.v[0xF], 0); // nothing to collide with
    assert!(cpu.draw_flag);
    assert_eq!(cpu.ir, 0x20A); // the draw leaves the address register alone
}

#[test]
fn draw_twice_restores_screen_and_reports_collision() {
    let mut cpu = Cpu::new();
    assert!(cpu.load_application(&image(&[
        0x6000, 0x6100, 0xA20C, 0x00E0, 0xD012, 0xD012, 0xFF81,
    ])));
    for _ in 0..6 {
        step(&mut cpu);
    }
    assert!(cpu.gfx.iter().all(|&p| p == 0)); // XOR undone
    assert_eq!(cpu.v[0xF], 1); // the first draw set those pixels to 1
}

#[test]
fn draw_clips_pixels_past_screen_end() {
    // Draw 2 rows at (0, 31): the second row's cells would lie past the
    // bitmap and are dropped, not wrapped.
    let mut cpu = Cpu::new();
    assert!(cpu.load_application(&image(&[
        0x6000, 0x611F, 0xA20A, 0x00E0, 0xD012, 0xFFFF,
    ])));
    for _ in 0..5 {
        step(&mut cpu);
    }
    for c in 0..8 {
        assert_eq!(cpu.gfx[31 * 64 + c], 1);
    }
    assert_eq!(cpu.v[0xF], 0);
}

#[test]
fn unknown_opcode_is_fatal_and_leaves_state() {
    let mut cpu = Cpu::new();
    assert!(cpu.load_application(&image(&[0x0123])));
    let r = cpu.opcode();
    assert_eq!(
        r,
        Err(StepError::UnknownOpcode { opcode: 0x0123, fam: 0x0000 })
    );
    assert_eq!(cpu.pc, 0x200);

    let mut cpu = Cpu::new();
    assert!(cpu.load_application(&image(&[0xF0FF])));
    let r = cpu.opcode();
    assert_eq!(
        r,
        Err(StepError::UnknownOpcode { opcode: 0xF0FF, fam: 0xF000 })
    );

    let mut cpu = Cpu::new();
    assert!(cpu.load_application(&image(&[0x8008])));
    let r = cpu.opcode();
    assert_eq!(
        r,
        Err(StepError::UnknownOpcode { opcode: 0x8008, fam: 0x8000 })
    );
}

#[test]
fn return_with_empty_stack_is_fatal() {
    let mut cpu = Cpu::new();
    assert!(cpu.load_application(&image(&[0x00EE])));
    assert_eq!(cpu.opcode(), Err(StepError::StackUnderflow));
    assert_eq!(cpu.pc, 0x200);
}

#[test]
fn seventeenth_nested_call_is_fatal() {
    // 0x2200 calls address 0x200 over and over.
    let mut cpu = Cpu::new();
    assert!(cpu.load_application(&image(&[0x2200])));
    for depth in 1..=16 {
        assert_eq!(cpu.opcode(), Ok(()));
        assert_eq!(cpu.sp, depth);
    }
    assert_eq!(cpu.opcode(), Err(StepError::StackOverflow));
    assert_eq!(cpu.sp, 16);
}

#[test]
fn digit_store_past_memory_end_is_fatal() {
    let mut cpu = Cpu::new();
    assert!(cpu.load_application(&image(&[0xAFFF, 0xF033])));
    step(&mut cpu);
    assert_eq!(cpu.opcode(), Err(StepError::OutOfBounds));
}

#[test]
fn fetch_past_memory_end_is_fatal() {
    let mut cpu = Cpu::new();
    assert!(cpu.load_application(&image(&[0x1FFF])));
    step(&mut cpu);
    assert_eq!(cpu.pc, 0xFFF);
    assert_eq!(cpu.opcode(), Err(StepError::OutOfBounds));
}

#[test]
fn key_test_with_bad_index_is_fatal() {
    let mut cpu = Cpu::new();
    assert!(cpu.load_application(&image(&[0x6010, 0xE09E])));
    step(&mut cpu);
    assert_eq!(cpu.opcode(), Err(StepError::OutOfBounds));
}

#[test]
fn block_store_past_memory_end_is_fatal() {
    let mut cpu = Cpu::new();
    assert!(cpu.load_application(&image(&[0xAFFF, 0xF155])));
    step(&mut cpu);
    assert_eq!(cpu.opcode(), Err(StepError::OutOfBounds));
}

#[test]
fn draw_past_row_end_spills_by_linear_offset() {
    // The bitmap is addressed by linear offset only: a sprite drawn at
    // column 60 runs past the row boundary into the next row's first
    // cells rather than being clipped at column 63.
    let mut cpu = Cpu::new();
    assert!(cpu.load_application(&image(&[
        0x603C, 0x6100, 0xA208, 0xD011, 0xFF00,
    ])));
    for _ in 0..4 {
        step(&mut cpu);
    }
    for p in 60..68 {
        assert_eq!(cpu.gfx[p], 1, "cell {}", p);
    }
    assert_eq!(cpu.gfx[59], 0);
    assert_eq!(cpu.gfx[68], 0);
}
