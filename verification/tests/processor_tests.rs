use chip8_emulator_rust::processor::{CpuError, Processor};
use chip8_emulator_rust::CHIP8_START_OF_PROGRAM;

const NO_KEYS: [bool; 16] = [false; 16];

/// A processor with `bytes` loaded at the conventional start offset.
fn boot(bytes: &[u8]) -> Processor {
    let mut p = Processor::new();
    let prog: Vec<u8> = bytes.to_vec();
    p.load(&prog, prog.len(), CHIP8_START_OF_PROGRAM);
    p
}

fn px(p: &Processor, row: usize, col: usize) -> bool {
    p.vram[row * 64 + col]
}

#[test]
fn set_register_identity() {
    // Set register 3 to 0x2A, then copy register 3 onto itself.
    let mut p = boot(&[0x63, 0x2A, 0x83, 0x30]);
    p.step(NO_KEYS, 0).unwrap();
    assert_eq!(p.reg[3], 0x2A);
    p.step(NO_KEYS, 0).unwrap();
    assert_eq!(p.reg[3], 0x2A);
}

#[test]
fn add_with_flag_carry() {
    // 250 + 10 = 260: sum register holds 4, flag holds 1.
    let mut p = boot(&[0x60, 0xFA, 0x61, 0x0A, 0x80, 0x14]);
    p.step(NO_KEYS, 0).unwrap();
    p.step(NO_KEYS, 0).unwrap();
    p.step(NO_KEYS, 0).unwrap();
    assert_eq!(p.reg[0], 4);
    assert_eq!(p.reg[15], 1);
}

#[test]
fn add_with_flag_no_carry() {
    // 10 + 10 = 20: no carry, flag holds 0.
    let mut p = boot(&[0x60, 0x0A, 0x61, 0x0A, 0x80, 0x14]);
    p.step(NO_KEYS, 0).unwrap();
    p.step(NO_KEYS, 0).unwrap();
    p.step(NO_KEYS, 0).unwrap();
    assert_eq!(p.reg[0], 20);
    assert_eq!(p.reg[15], 0);
}

#[test]
fn add_immediate_wraps_without_flag() {
    // 250 + 10 wraps to 4 but the immediate add never touches the flag.
    let mut p = boot(&[0x60, 0xFA, 0x6F, 0x07, 0x70, 0x0A]);
    p.step(NO_KEYS, 0).unwrap();
    p.step(NO_KEYS, 0).unwrap();
    p.step(NO_KEYS, 0).unwrap();
    assert_eq!(p.reg[0], 4);
    assert_eq!(p.reg[15], 7);
}

#[test]
fn sub_with_flag_no_borrow() {
    // 10 - 3 = 7, no borrow: flag holds 1.
    let mut p = boot(&[0x60, 0x0A, 0x61, 0x03, 0x80, 0x15]);
    p.step(NO_KEYS, 0).unwrap();
    p.step(NO_KEYS, 0).unwrap();
    p.step(NO_KEYS, 0).unwrap();
    assert_eq!(p.reg[0], 7);
    assert_eq!(p.reg[15], 1);
}

#[test]
fn sub_with_flag_borrow() {
    // 3 - 10 wraps to 249, borrow: flag holds 0.
    let mut p = boot(&[0x60, 0x03, 0x61, 0x0A, 0x80, 0x15]);
    p.step(NO_KEYS, 0).unwrap();
    p.step(NO_KEYS, 0).unwrap();
    p.step(NO_KEYS, 0).unwrap();
    assert_eq!(p.reg[0], 249);
    assert_eq!(p.reg[15], 0);
}

#[test]
fn sub_reverse() {
    // Register 0 becomes 10 - 3 = 7; no borrow, flag holds 1.
    let mut p = boot(&[0x60, 0x03, 0x61, 0x0A, 0x80, 0x17]);
    p.step(NO_KEYS, 0).unwrap();
    p.step(NO_KEYS, 0).unwrap();
    p.step(NO_KEYS, 0).unwrap();
    assert_eq!(p.reg[0], 7);
    assert_eq!(p.reg[15], 1);
}

#[test]
fn shift_right() {
    // 0b00000101 >> 1 = 0b00000010, flag takes the old bit 0 (1).
    let mut p = boot(&[0x60, 0x05, 0x80, 0x06]);
    p.step(NO_KEYS, 0).unwrap();
    p.step(NO_KEYS, 0).unwrap();
    assert_eq!(p.reg[0], 0b0000_0010);
    assert_eq!(p.reg[15], 1);
}

#[test]
fn shift_left() {
    // 0b10000001 << 1 = 0b00000010, flag takes the old bit 7 (1).
    let mut p = boot(&[0x60, 0x81, 0x80, 0x0E]);
    p.step(NO_KEYS, 0).unwrap();
    p.step(NO_KEYS, 0).unwrap();
    assert_eq!(p.reg[0], 0b0000_0010);
    assert_eq!(p.reg[15], 1);
}

#[test]
fn bitwise_or_and_xor() {
    let mut p = boot(&[
        0x60, 0b1100, 0x61, 0b1010, 0x80, 0x11, // r0 |= r1
        0x62, 0b1100, 0x82, 0x12, // r2 &= r1
        0x63, 0b1100, 0x83, 0x13, // r3 ^= r1
    ]);
    for _ in 0..7 {
        p.step(NO_KEYS, 0).unwrap();
    }
    assert_eq!(p.reg[0], 0b1110);
    assert_eq!(p.reg[2], 0b1000);
    assert_eq!(p.reg[3], 0b0110);
}

#[test]
fn call_return_round_trip() {
    // Call 0x300 from 0x200: pushes 0x200, jumps; return restores 0x200.
    let mut bytes = vec![0u8; 258];
    bytes[0] = 0x23;
    bytes[1] = 0x00;
    bytes[256] = 0x00; // address 0x300
    bytes[257] = 0xEE;
    let mut p = boot(&bytes);
    p.step(NO_KEYS, 0).unwrap();
    assert_eq!(p.pc, 0x300);
    assert_eq!(p.stack_ptr, 1);
    assert_eq!(p.stack[0], 0x200);
    p.step(NO_KEYS, 0).unwrap();
    assert_eq!(p.pc, 0x200);
    assert_eq!(p.stack_ptr, 0);
}

#[test]
fn call_chain_to_depth_16_then_overflow() {
    // Sixteen nested calls fill the stack; the seventeenth push fails
    // fatally and corrupts nothing.
    let mut bytes = vec![0u8; 36];
    for k in 0..17 {
        let target = 0x200 + 2 * (k as u16 + 1);
        bytes[2 * k] = 0x20 | (target >> 8) as u8;
        bytes[2 * k + 1] = (target & 0xFF) as u8;
    }
    let mut p = boot(&bytes);
    for _ in 0..16 {
        p.step(NO_KEYS, 0).unwrap();
    }
    assert_eq!(p.stack_ptr, 16);
    let stack_before = p.stack.clone();
    let pc_before = p.pc;
    let err = p.step(NO_KEYS, 0).unwrap_err();
    assert_eq!(err, CpuError::StackOverflow);
    assert_eq!(p.stack, stack_before);
    assert_eq!(p.pc, pc_before);
    assert_eq!(p.stack_ptr, 16);
}

#[test]
fn matched_call_return_pairs_are_idempotent() {
    // A call and its matching return restore the program counter and
    // stack pointer exactly, so the pair can repeat indefinitely.
    let mut p = boot(&[0x22, 0x04, 0x00, 0x00, 0x00, 0xEE]);
    for _ in 0..20 {
        p.step(NO_KEYS, 0).unwrap();
        assert_eq!(p.pc, 0x204);
        assert_eq!(p.stack_ptr, 1);
        assert_eq!(p.stack[0], 0x200);
        p.step(NO_KEYS, 0).unwrap();
        assert_eq!(p.pc, 0x200);
        assert_eq!(p.stack_ptr, 0);
    }
}

#[test]
fn call_return_pair_at_depth_16() {
    // The pair behaves the same with 15 outer frames already live.
    let mut p = boot(&[0x22, 0x04, 0x00, 0x00, 0x00, 0xEE]);
    p.stack_ptr = 15;
    for s in 0..15 {
        p.stack[s] = 0x300 + 2 * s as u16;
    }
    p.step(NO_KEYS, 0).unwrap();
    assert_eq!(p.stack_ptr, 16);
    assert_eq!(p.stack[15], 0x200);
    p.step(NO_KEYS, 0).unwrap();
    assert_eq!(p.stack_ptr, 15);
    assert_eq!(p.pc, 0x200);
    for s in 0..15 {
        assert_eq!(p.stack[s], 0x300 + 2 * s as u16);
    }
}

#[test]
fn return_with_empty_stack_continues() {
    let mut p = boot(&[0x00, 0xEE]);
    p.step(NO_KEYS, 0).unwrap();
    assert_eq!(p.pc, 0x202);
    assert_eq!(p.stack_ptr, 0);
}

#[test]
fn draw_sprite_clipping() {
    // An 8-pixel row drawn at column 60 lights columns 60-63 only:
    // nothing wraps into columns 0-3.
    let mut p = boot(&[
        0x60, 0x3C, // r0 = 60
        0x61, 0x00, // r1 = 0
        0xA2, 0x0A, // index = 0x20A (the sprite byte below)
        0xD0, 0x11, // draw 1 row at (r0, r1)
        0x00, 0x00,
        0xFF,
    ]);
    for _ in 0..4 {
        p.step(NO_KEYS, 0).unwrap();
    }
    for col in 60..64 {
        assert!(px(&p, 0, col), "column {} should be set", col);
    }
    for col in 0..8 {
        assert!(!px(&p, 0, col), "column {} wrapped", col);
    }
    assert!(!px(&p, 1, 0));
    assert_eq!(p.reg[15], 0);
}

#[test]
fn draw_sprite_collision_and_erase() {
    // Drawing the same sprite twice at the same position turns the
    // pixels back off and raises the collision flag on the second draw.
    let mut p = boot(&[
        0x60, 0x00, 0x61, 0x00, 0xA2, 0x0A, 0xD0, 0x11, 0xD0, 0x11,
        0xFF,
    ]);
    for _ in 0..4 {
        p.step(NO_KEYS, 0).unwrap();
    }
    for col in 0..8 {
        assert!(px(&p, 0, col));
    }
    assert_eq!(p.reg[15], 0);
    p.step(NO_KEYS, 0).unwrap();
    for col in 0..8 {
        assert!(!px(&p, 0, col));
    }
    assert_eq!(p.reg[15], 1);
}

#[test]
fn draw_position_wraps_around_screen() {
    // The starting position is taken modulo the screen size.
    let mut p = boot(&[
        0x60, 0x40, // r0 = 64, wraps to column 0
        0x61, 0x20, // r1 = 32, wraps to row 0
        0xA2, 0x0A, 0xD0, 0x11,
        0x00, 0x00,
        0x80,
    ]);
    for _ in 0..4 {
        p.step(NO_KEYS, 0).unwrap();
    }
    assert!(px(&p, 0, 0));
}

#[test]
fn draw_clips_at_bottom_edge() {
    // A 5-row sprite starting at row 30 draws rows 30 and 31 only.
    let mut p = boot(&[
        0x60, 0x00, // r0 = 0
        0x61, 0x1E, // r1 = 30
        0xA2, 0x0A, 0xD0, 0x15,
        0x00, 0x00,
        0xFF, 0xFF, 0xFF, 0xFF, 0xFF,
    ]);
    for _ in 0..4 {
        p.step(NO_KEYS, 0).unwrap();
    }
    assert!(px(&p, 30, 0));
    assert!(px(&p, 31, 0));
    assert!(!px(&p, 0, 0));
    assert!(!px(&p, 1, 0));
}

#[test]
fn draw_zero_rows_clears_flag_only() {
    let mut p = boot(&[0x60, 0x05, 0x61, 0x03, 0x80, 0x14, 0xD0, 0x00]);
    for _ in 0..3 {
        p.step(NO_KEYS, 0).unwrap();
    }
    p.reg[15] = 1;
    let vram_before = p.vram.clone();
    p.step(NO_KEYS, 0).unwrap();
    assert_eq!(p.reg[15], 0);
    assert_eq!(p.vram, vram_before);
}

#[test]
fn bcd_digits() {
    // 234 stored as decimal digits 2, 3, 4 at the index register.
    let mut p = boot(&[0x60, 0xEA, 0xA3, 0x00, 0xF0, 0x33]);
    p.step(NO_KEYS, 0).unwrap();
    p.step(NO_KEYS, 0).unwrap();
    p.step(NO_KEYS, 0).unwrap();
    assert_eq!(p.ram[0x300], 2);
    assert_eq!(p.ram[0x301], 3);
    assert_eq!(p.ram[0x302], 4);
}

#[test]
fn store_load_round_trip() {
    // Store registers 0..=2, zero them, load them back.
    let mut p = boot(&[
        0x60, 0x0B, 0x61, 0x16, 0x62, 0x21, // r0=11, r1=22, r2=33
        0xA3, 0x00, // index = 0x300
        0xF2, 0x55, // store r0..=r2
        0xF2, 0x65, // load r0..=r2
    ]);
    for _ in 0..5 {
        p.step(NO_KEYS, 0).unwrap();
    }
    assert_eq!(&p.ram[0x300..0x303], &[11, 22, 33]);
    p.reg[0] = 0;
    p.reg[1] = 0;
    p.reg[2] = 0;
    p.step(NO_KEYS, 0).unwrap();
    assert_eq!(p.reg[0], 11);
    assert_eq!(p.reg[1], 22);
    assert_eq!(p.reg[2], 33);
}

#[test]
fn timer_saturation_at_zero() {
    let mut p = Processor::new();
    assert_eq!(p.delay_timer, 0);
    assert_eq!(p.sound_timer, 0);
    p.cycle_timers();
    assert_eq!(p.delay_timer, 0);
    assert_eq!(p.sound_timer, 0);
    p.delay_timer = 5;
    p.sound_timer = 1;
    p.cycle_timers();
    assert_eq!(p.delay_timer, 4);
    assert_eq!(p.sound_timer, 0);
    p.cycle_timers();
    assert_eq!(p.sound_timer, 0);
}

#[test]
fn timers_tick_once_per_executing_cycle() {
    let mut p = boot(&[0x60, 0x01, 0x61, 0x02]);
    p.delay_timer = 2;
    p.step(NO_KEYS, 0).unwrap();
    assert_eq!(p.delay_timer, 1);
    p.step(NO_KEYS, 0).unwrap();
    assert_eq!(p.delay_timer, 0);
}

#[test]
fn delay_timer_transfers() {
    // Set the delay timer to 9 from a register; the next cycle ticks it
    // to 8 before reading it back.
    let mut p = boot(&[0x60, 0x09, 0xF0, 0x15, 0xF1, 0x07]);
    p.step(NO_KEYS, 0).unwrap();
    p.step(NO_KEYS, 0).unwrap();
    assert_eq!(p.delay_timer, 9);
    p.step(NO_KEYS, 0).unwrap();
    assert_eq!(p.delay_timer, 8);
    assert_eq!(p.reg[1], 8);
}

#[test]
fn sound_timer_transfers() {
    let mut p = boot(&[0x60, 0x07, 0xF0, 0x18]);
    p.step(NO_KEYS, 0).unwrap();
    p.step(NO_KEYS, 0).unwrap();
    assert_eq!(p.sound_timer, 7);
}

#[test]
fn keypad_wait_blocks_and_captures_lowest_key() {
    let mut p = boot(&[0xF5, 0x0A, 0x61, 0x63]);
    p.step(NO_KEYS, 0).unwrap();
    assert!(p.keypad_irq);
    assert_eq!(p.keypad_irq_dest, 5);
    assert_eq!(p.pc, 0x202);

    // No key pressed: framebuffer and registers are untouched.
    let regs_before = p.reg.clone();
    let vram_before = p.vram.clone();
    let fb = p.step(NO_KEYS, 0).unwrap();
    assert!(p.keypad_irq);
    assert_eq!(p.reg, regs_before);
    assert_eq!(p.vram, vram_before);
    assert_eq!(fb, vram_before);
    assert_eq!(p.pc, 0x202);

    // Keys 3 and 7 pressed together: the lowest one wins.
    let mut keys = NO_KEYS;
    keys[7] = true;
    keys[3] = true;
    p.step(keys, 0).unwrap();
    assert!(!p.keypad_irq);
    assert_eq!(p.reg[5], 3);
    assert_eq!(p.pc, 0x202);

    // Normal fetch resumes on the next call.
    p.step(NO_KEYS, 0).unwrap();
    assert_eq!(p.reg[1], 0x63);
    assert_eq!(p.pc, 0x204);
}

#[test]
fn skip_if_key_pressed() {
    let mut p = boot(&[0x60, 0x04, 0xE0, 0x9E]);
    p.step(NO_KEYS, 0).unwrap();
    let mut keys = NO_KEYS;
    keys[4] = true;
    p.step(keys, 0).unwrap();
    assert_eq!(p.pc, 0x206);
}

#[test]
fn skip_if_key_not_pressed() {
    let mut p = boot(&[0x60, 0x04, 0xE0, 0xA1, 0xE0, 0xA1]);
    p.step(NO_KEYS, 0).unwrap();
    let mut keys = NO_KEYS;
    keys[4] = true;
    p.step(keys, 0).unwrap();
    assert_eq!(p.pc, 0x204);
    p.step(NO_KEYS, 0).unwrap();
    assert_eq!(p.pc, 0x208);
}

#[test]
fn key_skip_with_out_of_range_register_fails() {
    let mut p = boot(&[0x60, 0xC8, 0xE0, 0x9E]);
    p.step(NO_KEYS, 0).unwrap();
    let err = p.step(NO_KEYS, 0).unwrap_err();
    assert_eq!(err, CpuError::KeyOutOfRange);
}

#[test]
fn skip_equal_and_not_equal() {
    let mut p = boot(&[0x60, 0x07, 0x30, 0x07]);
    p.step(NO_KEYS, 0).unwrap();
    p.step(NO_KEYS, 0).unwrap();
    assert_eq!(p.pc, 0x206);

    let mut q = boot(&[0x60, 0x07, 0x40, 0x07]);
    q.step(NO_KEYS, 0).unwrap();
    q.step(NO_KEYS, 0).unwrap();
    assert_eq!(q.pc, 0x204);

    let mut r = boot(&[0x60, 0x07, 0x61, 0x07, 0x50, 0x10, 0x00, 0x00, 0x90, 0x10]);
    r.step(NO_KEYS, 0).unwrap();
    r.step(NO_KEYS, 0).unwrap();
    r.step(NO_KEYS, 0).unwrap();
    assert_eq!(r.pc, 0x208);
    r.step(NO_KEYS, 0).unwrap();
    assert_eq!(r.pc, 0x20A);
}

#[test]
fn jump_sets_program_counter() {
    let mut p = boot(&[0x13, 0x45]);
    p.step(NO_KEYS, 0).unwrap();
    assert_eq!(p.pc, 0x345);
}

#[test]
fn jump_plus_register_zero() {
    let mut p = boot(&[0x60, 0x04, 0xB3, 0x00]);
    p.step(NO_KEYS, 0).unwrap();
    p.step(NO_KEYS, 0).unwrap();
    assert_eq!(p.pc, 0x304);
}

#[test]
fn set_index_and_add_index_wrap() {
    let mut p = boot(&[0xAF, 0xFF, 0x60, 0x02, 0xF0, 0x1E]);
    p.step(NO_KEYS, 0).unwrap();
    assert_eq!(p.reg_index, 0xFFF);
    p.step(NO_KEYS, 0).unwrap();
    p.step(NO_KEYS, 0).unwrap();
    assert_eq!(p.reg_index, 0x1001);
    // Wrapping at 16 bits.
    p.reg_index = 0xFFFF;
    p.pc = 0x204;
    p.step(NO_KEYS, 0).unwrap();
    assert_eq!(p.reg_index, 0x0001);
}

#[test]
fn font_index_and_font_table() {
    let mut p = boot(&[0x60, 0x0A, 0xF0, 0x29]);
    p.step(NO_KEYS, 0).unwrap();
    p.step(NO_KEYS, 0).unwrap();
    assert_eq!(p.reg_index, 50);
    // The digit-0 sprite sits at the bottom of memory.
    assert_eq!(&p.ram[0..5], &[0xF0, 0x90, 0x90, 0x90, 0xF0]);
    assert_eq!(p.ram.len(), 4096);
}

#[test]
fn clear_screen() {
    let mut p = boot(&[0x00, 0xE0]);
    p.vram[123] = true;
    p.vram[2047] = true;
    let fb = p.step(NO_KEYS, 0).unwrap();
    assert!(p.vram.iter().all(|&b| !b));
    assert!(fb.iter().all(|&b| !b));
}

#[test]
fn unknown_opcode_is_skipped() {
    let mut p = boot(&[0x50, 0x11]);
    let regs_before = p.reg.clone();
    p.step(NO_KEYS, 0).unwrap();
    assert_eq!(p.pc, 0x202);
    assert_eq!(p.reg, regs_before);
}

#[test]
fn legacy_sys_call_is_skipped() {
    let mut p = boot(&[0x01, 0x23]);
    p.step(NO_KEYS, 0).unwrap();
    assert_eq!(p.pc, 0x202);
}

#[test]
fn fetch_past_memory_fails() {
    let mut p = boot(&[0x00, 0x00]);
    p.pc = 4095;
    let err = p.step(NO_KEYS, 0).unwrap_err();
    assert_eq!(err, CpuError::MemoryOutOfBounds);
}

#[test]
fn bcd_past_memory_fails() {
    let mut p = boot(&[0x60, 0xEA, 0xF0, 0x33]);
    p.reg_index = 4094;
    p.step(NO_KEYS, 0).unwrap();
    let ram_before = p.ram.clone();
    let err = p.step(NO_KEYS, 0).unwrap_err();
    assert_eq!(err, CpuError::MemoryOutOfBounds);
    assert_eq!(p.ram, ram_before);
}

#[test]
fn store_past_memory_fails() {
    let mut p = boot(&[0xFF, 0x55]);
    p.reg_index = 4090;
    let err = p.step(NO_KEYS, 0).unwrap_err();
    assert_eq!(err, CpuError::MemoryOutOfBounds);
}

#[test]
fn load_past_memory_fails() {
    let mut p = boot(&[0xFF, 0x65]);
    p.reg_index = 4090;
    let err = p.step(NO_KEYS, 0).unwrap_err();
    assert_eq!(err, CpuError::MemoryOutOfBounds);
}

#[test]
fn draw_past_memory_fails() {
    let mut p = boot(&[0xD0, 0x12]);
    p.reg_index = 4095;
    let vram_before = p.vram.clone();
    let err = p.step(NO_KEYS, 0).unwrap_err();
    assert_eq!(err, CpuError::MemoryOutOfBounds);
    assert_eq!(p.vram, vram_before);
}

#[test]
fn random_is_masked() {
    // The random byte is ANDed with the immediate; with a zero mask the
    // register always becomes zero, whatever was drawn.
    let mut p = boot(&[0xC0, 0x0F, 0xC1, 0x00]);
    p.cycle(NO_KEYS).unwrap();
    assert!(p.reg[0] <= 0x0F);
    p.cycle(NO_KEYS).unwrap();
    assert_eq!(p.reg[1], 0);
}

#[test]
fn step_with_chosen_byte_is_deterministic() {
    let mut p = boot(&[0xC0, 0xFF]);
    p.step(NO_KEYS, 0xAB).unwrap();
    assert_eq!(p.reg[0], 0xAB);
}

#[test]
fn read_opcode_is_big_endian() {
    let p = boot(&[0x12, 0x34]);
    assert_eq!(p.read_opcode(0x200), 0x1234);
}

#[test]
fn single_step_pause_needs_a_key_per_instruction() {
    let mut p = boot(&[0x60, 0x07, 0x61, 0x08]);
    p.set_debug(3);
    // Paused: nothing executes without a key.
    p.step(NO_KEYS, 0).unwrap();
    assert_eq!(p.pc, 0x200);
    assert_eq!(p.reg[0], 0);
    // A key clears the pause but still executes nothing this call.
    let mut keys = NO_KEYS;
    keys[0] = true;
    p.step(keys, 0).unwrap();
    assert_eq!(p.pc, 0x200);
    // The next call executes one instruction and re-arms the pause.
    p.step(NO_KEYS, 0).unwrap();
    assert_eq!(p.reg[0], 7);
    assert_eq!(p.pc, 0x202);
    p.step(NO_KEYS, 0).unwrap();
    assert_eq!(p.pc, 0x202);
    assert_eq!(p.reg[1], 0);
}

#[test]
fn cycle_returns_framebuffer_snapshot() {
    let mut p = boot(&[0x60, 0x00, 0x61, 0x00, 0xA2, 0x0A, 0xD0, 0x11, 0x00, 0x00, 0x80]);
    for _ in 0..3 {
        p.cycle(NO_KEYS).unwrap();
    }
    let fb = p.cycle(NO_KEYS).unwrap();
    assert_eq!(fb.len(), 64 * 32);
    assert!(fb[0]);
    assert_eq!(fb, p.vram);
}
