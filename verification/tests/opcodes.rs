use chip8_core::chip8::Chip8;
use chip8_core::opcode::{decode, Opcode};
use chip8_core::state::Chip8Error;

fn run(rom: &[u8], ticks: usize) -> Chip8 {
    let mut c = Chip8::new();
    c.load(rom).expect("program fits in memory");
    for _ in 0..ticks {
        c.tick().expect("cycle completes");
    }
    c
}

#[test]
fn decode_splits_words_into_variants() {
    assert_eq!(decode(0x00E0), Opcode::ClearScreen);
    assert_eq!(decode(0x00EE), Opcode::Ret);
    assert_eq!(decode(0x1ABC), Opcode::Jump { nnn: 0xABC });
    assert_eq!(decode(0x2123), Opcode::Call { nnn: 0x123 });
    assert_eq!(decode(0x3A7F), Opcode::SkipEqImm { x: 0xA, nn: 0x7F });
    assert_eq!(decode(0x4A7F), Opcode::SkipNeImm { x: 0xA, nn: 0x7F });
    assert_eq!(decode(0x5AB0), Opcode::SkipEqReg { x: 0xA, y: 0xB });
    assert_eq!(decode(0x6A7F), Opcode::SetImm { x: 0xA, nn: 0x7F });
    assert_eq!(decode(0x7A7F), Opcode::AddImm { x: 0xA, nn: 0x7F });
    assert_eq!(decode(0x8AB4), Opcode::AddReg { x: 0xA, y: 0xB });
    assert_eq!(decode(0x8AB6), Opcode::ShiftRight { x: 0xA, y: 0xB });
    assert_eq!(decode(0x9AB0), Opcode::SkipNeReg { x: 0xA, y: 0xB });
    assert_eq!(decode(0xA123), Opcode::SetIndex { nnn: 0x123 });
    assert_eq!(decode(0xB123), Opcode::JumpOffset { x: 1, nnn: 0x123 });
    assert_eq!(decode(0xC17F), Opcode::Random { x: 1, nn: 0x7F });
    assert_eq!(decode(0xD125), Opcode::Draw { x: 1, y: 2, n: 5 });
    assert_eq!(decode(0xE19E), Opcode::SkipKey { x: 1 });
    assert_eq!(decode(0xE1A1), Opcode::SkipNoKey { x: 1 });
    assert_eq!(decode(0xF107), Opcode::ReadDelay { x: 1 });
    assert_eq!(decode(0xF10A), Opcode::WaitKey { x: 1 });
    assert_eq!(decode(0xF11E), Opcode::AddIndex { x: 1 });
    assert_eq!(decode(0xF133), Opcode::Bcd { x: 1 });
    assert_eq!(decode(0xF155), Opcode::StoreRegs { x: 1 });
    assert_eq!(decode(0xF165), Opcode::LoadRegs { x: 1 });
    // A 5XY_ or 8XY_ word with an unassigned last nibble matches nothing.
    assert_eq!(decode(0x5AB1), Opcode::Unknown { word: 0x5AB1 });
    assert_eq!(decode(0x8AB8), Opcode::Unknown { word: 0x8AB8 });
    assert_eq!(decode(0x0000), Opcode::Unknown { word: 0x0000 });
}

#[test]
fn add_with_carry_sets_and_clears_the_flag() {
    // 0xFF + 0x02 carries; then 0x01 + 0x02 does not.
    let c = run(&[0x60, 0xFF, 0x61, 0x02, 0x80, 0x14], 3);
    assert_eq!(c.v_register[0], 0x01);
    assert_eq!(c.v_register[0xF], 1);
    let c = run(&[0x60, 0x01, 0x61, 0x02, 0x80, 0x14], 3);
    assert_eq!(c.v_register[0], 0x03);
    assert_eq!(c.v_register[0xF], 0);
}

#[test]
fn subtract_reports_no_borrow_with_flag_one() {
    // 5 - 3: no borrow; flag 1.
    let c = run(&[0x60, 0x05, 0x61, 0x03, 0x80, 0x15], 3);
    assert_eq!(c.v_register[0], 2);
    assert_eq!(c.v_register[0xF], 1);
    // 3 - 5: borrow; result wraps modulo 256; flag 0.
    let c = run(&[0x60, 0x03, 0x61, 0x05, 0x80, 0x15], 3);
    assert_eq!(c.v_register[0], 254);
    assert_eq!(c.v_register[0xF], 0);
}

#[test]
fn subtract_from_reverses_the_operands() {
    // v0 = v1 - v0 = 5 - 3: no borrow.
    let c = run(&[0x60, 0x03, 0x61, 0x05, 0x80, 0x17], 3);
    assert_eq!(c.v_register[0], 2);
    assert_eq!(c.v_register[0xF], 1);
    // v0 = v1 - v0 = 3 - 5: borrow.
    let c = run(&[0x60, 0x05, 0x61, 0x03, 0x80, 0x17], 3);
    assert_eq!(c.v_register[0], 254);
    assert_eq!(c.v_register[0xF], 0);
}

#[test]
fn shift_right_reads_the_source_register_by_default() {
    // Original behaviour: v0 = v1 >> 1, flag = low bit of v1.
    let c = run(&[0x60, 0x00, 0x61, 0x07, 0x80, 0x16], 3);
    assert_eq!(c.v_register[0], 3);
    assert_eq!(c.v_register[0xF], 1);
}

#[test]
fn shift_right_in_place_under_the_later_variant() {
    let mut c = Chip8::new();
    c.quirks.shift_source_y = false;
    c.load(&[0x60, 0x07, 0x80, 0x16]).unwrap();
    c.tick().unwrap();
    c.tick().unwrap();
    assert_eq!(c.v_register[0], 3);
    assert_eq!(c.v_register[0xF], 1);
}

#[test]
fn shift_left_wraps_and_reports_the_top_bit() {
    // Original behaviour: v0 = v1 << 1 (mod 256), flag = top bit of v1.
    let c = run(&[0x60, 0x00, 0x61, 0x81, 0x80, 0x1E], 3);
    assert_eq!(c.v_register[0], 0x02);
    assert_eq!(c.v_register[0xF], 1);
}

#[test]
fn copy_or_and_xor_have_no_flag_output() {
    let c = run(&[0x60, 0x0C, 0x61, 0x0A, 0x80, 0x11], 3);
    assert_eq!(c.v_register[0], 0x0E);
    assert_eq!(c.v_register[0xF], 0);
    let c = run(&[0x60, 0x0C, 0x61, 0x0A, 0x80, 0x12], 3);
    assert_eq!(c.v_register[0], 0x08);
    let c = run(&[0x60, 0x0C, 0x61, 0x0A, 0x80, 0x13], 3);
    assert_eq!(c.v_register[0], 0x06);
    let c = run(&[0x61, 0x0A, 0x80, 0x10], 2);
    assert_eq!(c.v_register[0], 0x0A);
}

#[test]
fn add_immediate_wraps_without_flag() {
    let c = run(&[0x60, 0xF0, 0x70, 0x20], 2);
    assert_eq!(c.v_register[0], 0x10);
    assert_eq!(c.v_register[0xF], 0);
}

#[test]
fn jump_with_offset_uses_register_zero_by_default() {
    let c = run(&[0x60, 0x04, 0xB2, 0x08], 2);
    assert_eq!(c.pc, 0x20C);
}

#[test]
fn jump_with_offset_uses_register_x_under_the_later_variant() {
    let mut c = Chip8::new();
    c.quirks.jump_offset_uses_vx = true;
    c.load(&[0x62, 0x06, 0xB2, 0x08]).unwrap();
    c.tick().unwrap();
    c.tick().unwrap();
    assert_eq!(c.pc, 0x20E);
}

#[test]
fn store_registers_writes_memory_and_bumps_the_index() {
    let c = run(&[0x60, 0x07, 0x61, 0x09, 0xA3, 0x00, 0xF1, 0x55], 4);
    assert_eq!(c.memory[0x300], 7);
    assert_eq!(c.memory[0x301], 9);
    assert_eq!(c.memory[0x302], 0);
    assert_eq!(c.i_register, 0x302);
}

#[test]
fn load_registers_reads_memory_and_bumps_the_index() {
    let mut c = Chip8::new();
    c.load(&[0xA3, 0x00, 0xF1, 0x65]).unwrap();
    c.memory[0x300] = 0x11;
    c.memory[0x301] = 0x22;
    c.tick().unwrap();
    c.tick().unwrap();
    assert_eq!(c.v_register[0], 0x11);
    assert_eq!(c.v_register[1], 0x22);
    assert_eq!(c.v_register[2], 0);
    assert_eq!(c.i_register, 0x302);
}

#[test]
fn store_registers_leaves_index_under_the_later_variant() {
    let mut c = Chip8::new();
    c.quirks.load_store_bumps_index = false;
    c.load(&[0x60, 0x07, 0xA3, 0x00, 0xF0, 0x55]).unwrap();
    c.tick().unwrap();
    c.tick().unwrap();
    c.tick().unwrap();
    assert_eq!(c.memory[0x300], 7);
    assert_eq!(c.i_register, 0x300);
}

#[test]
fn store_registers_past_memory_end_is_refused() {
    let mut c = Chip8::new();
    c.load(&[0xAF, 0xFF, 0xF1, 0x55]).unwrap();
    assert_eq!(c.tick(), Ok(()));
    assert_eq!(c.tick(), Err(Chip8Error::AddressOverflow));
    assert_eq!(c.pc, 0x202);
    assert_eq!(c.memory[0xFFF], 0);
}

#[test]
fn bcd_writes_the_three_decimal_digits() {
    let c = run(&[0x60, 0x7B, 0xA3, 0x00, 0xF0, 0x33], 3);
    assert_eq!(c.memory[0x300], 1);
    assert_eq!(c.memory[0x301], 2);
    assert_eq!(c.memory[0x302], 3);
    assert_eq!(c.i_register, 0x300);
}

#[test]
fn font_char_points_the_index_at_the_glyph() {
    let c = run(&[0x60, 0x0A, 0xF0, 0x29], 2);
    assert_eq!(c.i_register, 0x082);
    assert_eq!(c.memory[c.i_register as usize], 0xF0);
}

#[test]
fn delay_timer_writes_and_reads_through_opcodes() {
    let c = run(&[0x60, 0x09, 0xF0, 0x15, 0xF1, 0x07], 3);
    assert_eq!(c.v_register[1], 9);
}

#[test]
fn add_index_accumulates() {
    let c = run(&[0x60, 0x05, 0xA0, 0x10, 0xF0, 0x1E], 3);
    assert_eq!(c.i_register, 0x015);
}

#[test]
fn skip_if_equal_immediate_advances_by_four_when_taken() {
    let c = run(&[0x30, 0x00], 1);
    assert_eq!(c.pc, 0x204);
    let c = run(&[0x30, 0x01], 1);
    assert_eq!(c.pc, 0x202);
}

#[test]
fn skip_if_registers_differ() {
    let c = run(&[0x61, 0x01, 0x90, 0x10], 2);
    assert_eq!(c.pc, 0x206);
    let c = run(&[0x50, 0x10], 1);
    assert_eq!(c.pc, 0x204);
}

#[test]
fn skip_on_key_state() {
    let mut c = Chip8::new();
    c.load(&[0x60, 0x03, 0xE0, 0x9E]).unwrap();
    c.key[3] = true;
    c.tick().unwrap();
    c.tick().unwrap();
    assert_eq!(c.pc, 0x206);
    let mut c = Chip8::new();
    c.load(&[0x60, 0x03, 0xE0, 0xA1]).unwrap();
    c.tick().unwrap();
    c.tick().unwrap();
    assert_eq!(c.pc, 0x206);
}

#[test]
fn drawing_twice_clears_the_screen_and_reports_collision() {
    // Point the index at font glyph 0 and draw its five rows at (0, 0).
    let mut c = Chip8::new();
    c.load(&[0xA0, 0x50, 0xD0, 0x15, 0xD0, 0x15]).unwrap();
    c.tick().unwrap();
    c.tick().unwrap();
    assert!(c.draw_flag);
    assert_eq!(c.v_register[0xF], 0);
    // Glyph 0's top row is 0xF0: its four high bits light pixels 0..4.
    assert!(c.screen[0] && c.screen[1] && c.screen[2] && c.screen[3]);
    assert!(!c.screen[4]);
    c.tick().unwrap();
    assert_eq!(c.v_register[0xF], 1);
    assert!(c.screen.iter().all(|&p| !p));
    assert!(c.draw_flag);
}

#[test]
fn drawing_clips_at_the_right_edge_by_default() {
    let mut c = Chip8::new();
    c.load(&[0x60, 0x3C, 0xA3, 0x00, 0xD0, 0x11]).unwrap();
    c.memory[0x300] = 0xFF;
    c.tick().unwrap();
    c.tick().unwrap();
    c.tick().unwrap();
    let lit = c.screen.iter().filter(|&&p| p).count();
    assert_eq!(lit, 4);
    assert!(c.screen[60] && c.screen[63]);
    assert!(!c.screen[0]);
}

#[test]
fn drawing_wraps_at_the_right_edge_under_the_quirk() {
    let mut c = Chip8::new();
    c.quirks.sprite_wrap = true;
    c.load(&[0x60, 0x3C, 0xA3, 0x00, 0xD0, 0x11]).unwrap();
    c.memory[0x300] = 0xFF;
    c.tick().unwrap();
    c.tick().unwrap();
    c.tick().unwrap();
    let lit = c.screen.iter().filter(|&&p| p).count();
    assert_eq!(lit, 8);
    assert!(c.screen[60] && c.screen[63] && c.screen[0] && c.screen[3]);
}

#[test]
fn drawing_clips_at_the_bottom_edge_by_default() {
    let mut c = Chip8::new();
    c.load(&[0x61, 0x1E, 0xA3, 0x00, 0xD0, 0x15]).unwrap();
    for k in 0..5 {
        c.memory[0x300 + k] = 0xFF;
    }
    c.tick().unwrap();
    c.tick().unwrap();
    c.tick().unwrap();
    let lit = c.screen.iter().filter(|&&p| p).count();
    assert_eq!(lit, 16);
    assert!(c.screen[30 * 64] && c.screen[31 * 64 + 7]);
    assert!(!c.screen[29 * 64]);
}

#[test]
fn draw_reading_past_memory_end_is_refused() {
    let mut c = Chip8::new();
    c.load(&[0xAF, 0xFF, 0xD0, 0x02]).unwrap();
    assert_eq!(c.tick(), Ok(()));
    assert_eq!(c.tick(), Err(Chip8Error::AddressOverflow));
    assert_eq!(c.pc, 0x202);
    assert!(c.screen.iter().all(|&p| !p));
}

#[test]
fn clear_screen_blanks_every_pixel_and_raises_redraw() {
    let mut c = Chip8::new();
    c.load(&[0xA0, 0x50, 0xD0, 0x15, 0x00, 0xE0]).unwrap();
    c.tick().unwrap();
    c.tick().unwrap();
    assert!(c.screen.iter().any(|&p| p));
    c.tick().unwrap();
    assert!(c.screen.iter().all(|&p| !p));
    assert!(c.draw_flag);
}

#[test]
fn add_index_wraps_at_sixteen_bits() {
    let mut c = Chip8::new();
    c.load(&[0x60, 0x02, 0xF0, 0x1E]).unwrap();
    c.i_register = 0xFFFF;
    c.tick().unwrap();
    c.tick().unwrap();
    assert_eq!(c.i_register, 0x0001);
}

#[test]
fn keypad_index_uses_the_low_nibble_of_the_register() {
    let mut c = Chip8::new();
    c.load(&[0x60, 0x13, 0xE0, 0x9E]).unwrap();
    c.key[3] = true;
    c.tick().unwrap();
    c.tick().unwrap();
    assert_eq!(c.pc, 0x206);
}

#[test]
fn font_char_uses_the_low_nibble_of_the_register() {
    let c = run(&[0x60, 0x1A, 0xF0, 0x29], 2);
    assert_eq!(c.i_register, 0x082);
}

#[test]
fn add_register_to_itself_doubles_it() {
    let c = run(&[0x60, 0x90, 0x80, 0x04], 2);
    assert_eq!(c.v_register[0], 0x20);
    assert_eq!(c.v_register[0xF], 1);
}

#[test]
fn subtract_register_from_itself_reports_no_borrow() {
    let c = run(&[0x60, 0x07, 0x80, 0x05], 2);
    assert_eq!(c.v_register[0], 0);
    assert_eq!(c.v_register[0xF], 1);
}

#[test]
fn new_machine_uses_the_original_behaviours() {
    let c = Chip8::new();
    assert!(c.quirks.shift_source_y);
    assert!(c.quirks.load_store_bumps_index);
    assert!(!c.quirks.jump_offset_uses_vx);
    assert!(!c.quirks.sprite_wrap);
}

#[test]
fn bcd_of_boundary_values() {
    let c = run(&[0x60, 0xFF, 0xA3, 0x00, 0xF0, 0x33], 3);
    assert_eq!(c.memory[0x300], 2);
    assert_eq!(c.memory[0x301], 5);
    assert_eq!(c.memory[0x302], 5);
    let c = run(&[0xA3, 0x00, 0xF0, 0x33], 2);
    assert_eq!(c.memory[0x300], 0);
    assert_eq!(c.memory[0x301], 0);
    assert_eq!(c.memory[0x302], 0);
}

#[test]
fn draw_wraps_at_the_bottom_edge_under_the_quirk() {
    let mut c = Chip8::new();
    c.quirks.sprite_wrap = true;
    c.load(&[0x61, 0x1F, 0xA3, 0x00, 0xD0, 0x12]).unwrap();
    c.memory[0x300] = 0x80;
    c.memory[0x301] = 0x80;
    c.tick().unwrap();
    c.tick().unwrap();
    c.tick().unwrap();
    assert!(c.screen[31 * 64]);
    assert!(c.screen[0]);
    let lit = c.screen.iter().filter(|&&p| p).count();
    assert_eq!(lit, 2);
}
