//! Per-instruction semantics driven through whole fetch-decode-execute
//! steps, including the display compositing rule.

use chip8::emu::Emu;

fn boot_ops(program: Vec<u8>) -> Emu {
    let mut e = Emu::new();
    e.load(&program).unwrap();
    e
}

fn run(program: Vec<u8>, steps: usize) -> Emu {
    let mut e = boot_ops(program);
    for _ in 0..steps {
        e.tick().unwrap();
    }
    e
}

#[test]
fn nop_only_advances_pc() {
    // fresh memory at the load offset holds 0x0000
    let mut e = Emu::new();
    assert_eq!(e.tick(), Ok(()));
    assert_eq!(e.get_pc(), 0x202);
    assert_eq!(e.get_v(0), 0);
}

#[test]
fn set_imm_stores_immediate() {
    let e = run(vec![0x6A, 0x42], 1);
    assert_eq!(e.get_v(0xA), 0x42);
    assert_eq!(e.get_pc(), 0x202);
}

#[test]
fn add_imm_wraps_without_flag() {
    let e = run(vec![0x60, 0xFF, 0x70, 0x01], 2);
    assert_eq!(e.get_v(0), 0x00);
    assert_eq!(e.get_v(0xF), 0);
}

#[test]
fn add_imm_plain() {
    let e = run(vec![0x60, 0x10, 0x70, 0x22], 2);
    assert_eq!(e.get_v(0), 0x32);
}

#[test]
fn mov_or_and_xor() {
    // V0 := 0b1100; V1 := 0b1010; V2 := V0; V2 |= V1
    let e = run(vec![0x60, 0x0C, 0x61, 0x0A, 0x82, 0x00, 0x82, 0x11], 4);
    assert_eq!(e.get_v(2), 0x0E);
    let e = run(vec![0x60, 0x0C, 0x61, 0x0A, 0x80, 0x12], 3);
    assert_eq!(e.get_v(0), 0x08);
    let e = run(vec![0x60, 0x0C, 0x61, 0x0A, 0x80, 0x13], 3);
    assert_eq!(e.get_v(0), 0x06);
}

#[test]
fn add_reg_sets_carry() {
    // 200 + 100 = 300: carries, result 44
    let e = run(vec![0x60, 0xC8, 0x61, 0x64, 0x80, 0x14], 3);
    assert_eq!(e.get_v(0), 44);
    assert_eq!(e.get_v(0xF), 1);
}

#[test]
fn add_reg_no_carry() {
    let e = run(vec![0x60, 0x0A, 0x61, 0x14, 0x80, 0x14], 3);
    assert_eq!(e.get_v(0), 30);
    assert_eq!(e.get_v(0xF), 0);
}

#[test]
fn sub_reg_no_borrow() {
    // 20 - 10: no borrow, VF = 1
    let e = run(vec![0x60, 0x14, 0x61, 0x0A, 0x80, 0x15], 3);
    assert_eq!(e.get_v(0), 10);
    assert_eq!(e.get_v(0xF), 1);
}

#[test]
fn sub_reg_borrow_wraps() {
    // 10 - 20: borrows, result mod 256
    let e = run(vec![0x60, 0x0A, 0x61, 0x14, 0x80, 0x15], 3);
    assert_eq!(e.get_v(0), 246);
    assert_eq!(e.get_v(0xF), 0);
}

#[test]
fn sub_reg_equal_values() {
    let e = run(vec![0x60, 0x07, 0x61, 0x07, 0x80, 0x15], 3);
    assert_eq!(e.get_v(0), 0);
    assert_eq!(e.get_v(0xF), 1);
}

#[test]
fn sub_from_reversed_operands() {
    // V0 := V1 - V0 = 30 - 10
    let e = run(vec![0x60, 0x0A, 0x61, 0x1E, 0x80, 0x17], 3);
    assert_eq!(e.get_v(0), 20);
    assert_eq!(e.get_v(0xF), 1);
}

#[test]
fn shr_captures_low_bit() {
    let e = run(vec![0x60, 0x05, 0x80, 0x16], 2);
    assert_eq!(e.get_v(0), 2);
    assert_eq!(e.get_v(0xF), 1);
    let e = run(vec![0x60, 0x04, 0x80, 0x16], 2);
    assert_eq!(e.get_v(0), 2);
    assert_eq!(e.get_v(0xF), 0);
}

#[test]
fn shr_ignores_y_nibble() {
    let a = run(vec![0x60, 0x05, 0x61, 0xFF, 0x80, 0x16], 3);
    let b = run(vec![0x60, 0x05, 0x61, 0xFF, 0x80, 0x76], 3);
    assert_eq!(a.get_v(0), b.get_v(0));
    assert_eq!(a.get_v(0xF), b.get_v(0xF));
}

#[test]
fn shl_captures_high_bit() {
    let e = run(vec![0x60, 0x81, 0x80, 0x1E], 2);
    assert_eq!(e.get_v(0), 0x02);
    assert_eq!(e.get_v(0xF), 1);
    let e = run(vec![0x60, 0x41, 0x80, 0x1E], 2);
    assert_eq!(e.get_v(0), 0x82);
    assert_eq!(e.get_v(0xF), 0);
}

#[test]
fn shl_ignores_y_nibble() {
    let a = run(vec![0x60, 0x81, 0x61, 0x33, 0x80, 0x1E], 3);
    let b = run(vec![0x60, 0x81, 0x61, 0x33, 0x80, 0xCE], 3);
    assert_eq!(a.get_v(0), b.get_v(0));
    assert_eq!(a.get_v(0xF), b.get_v(0xF));
}

#[test]
fn jump_sets_pc() {
    let e = run(vec![0x12, 0x08], 1);
    assert_eq!(e.get_pc(), 0x208);
}

#[test]
fn jump_v0_adds_offset() {
    let e = run(vec![0x60, 0x04, 0xB2, 0x00], 2);
    assert_eq!(e.get_pc(), 0x204);
}

#[test]
fn skip_eq_imm_taken_and_not() {
    let e = run(vec![0x60, 0x07, 0x30, 0x07], 2);
    assert_eq!(e.get_pc(), 0x206);
    let e = run(vec![0x60, 0x07, 0x30, 0x08], 2);
    assert_eq!(e.get_pc(), 0x204);
}

#[test]
fn skip_ne_imm_taken_and_not() {
    let e = run(vec![0x60, 0x07, 0x40, 0x08], 2);
    assert_eq!(e.get_pc(), 0x206);
    let e = run(vec![0x60, 0x07, 0x40, 0x07], 2);
    assert_eq!(e.get_pc(), 0x204);
}

#[test]
fn skip_reg_compares() {
    let e = run(vec![0x60, 0x07, 0x61, 0x07, 0x50, 0x10], 3);
    assert_eq!(e.get_pc(), 0x208);
    let e = run(vec![0x60, 0x07, 0x61, 0x08, 0x50, 0x10], 3);
    assert_eq!(e.get_pc(), 0x206);
    let e = run(vec![0x60, 0x07, 0x61, 0x08, 0x90, 0x10], 3);
    assert_eq!(e.get_pc(), 0x208);
    let e = run(vec![0x60, 0x07, 0x61, 0x07, 0x90, 0x10], 3);
    assert_eq!(e.get_pc(), 0x206);
}

#[test]
fn call_then_ret_is_net_noop_on_pc() {
    // call 0x204; the word there is 00EE
    let mut e = boot_ops(vec![0x22, 0x04, 0x00, 0x00, 0x00, 0xEE]);
    e.tick().unwrap();
    assert_eq!(e.get_pc(), 0x204);
    e.tick().unwrap();
    assert_eq!(e.get_pc(), 0x202);
}

#[test]
fn set_index() {
    let e = run(vec![0xA1, 0x23], 1);
    assert_eq!(e.get_i(), 0x123);
}

#[test]
fn add_index() {
    let e = run(vec![0xA1, 0x00, 0x60, 0x05, 0xF0, 0x1E], 3);
    assert_eq!(e.get_i(), 0x105);
}

#[test]
fn glyph_address_is_five_bytes_per_digit() {
    let e = run(vec![0x60, 0x07, 0xF0, 0x29], 2);
    assert_eq!(e.get_i(), 35);
}

#[test]
fn bcd_decomposes_decimal_digits() {
    let e = run(vec![0x60, 0x7B, 0xA3, 0x00, 0xF0, 0x33], 3);
    assert_eq!(e.get_ram(0x300), 1);
    assert_eq!(e.get_ram(0x301), 2);
    assert_eq!(e.get_ram(0x302), 3);
}

#[test]
fn store_regs_writes_inclusive_range() {
    let e = run(vec![0x60, 0x11, 0x61, 0x22, 0x62, 0x33, 0xA3, 0x00, 0xF2, 0x55], 5);
    assert_eq!(e.get_ram(0x300), 0x11);
    assert_eq!(e.get_ram(0x301), 0x22);
    assert_eq!(e.get_ram(0x302), 0x33);
    assert_eq!(e.get_ram(0x303), 0);
}

#[test]
fn load_regs_reads_inclusive_range() {
    // write 0xAA at memory[0x300] through V0, zero V0, read it back
    let e = run(vec![0xA3, 0x00, 0x60, 0xAA, 0xF0, 0x55, 0x60, 0x00, 0xF0, 0x65], 5);
    assert_eq!(e.get_v(0), 0xAA);
}

#[test]
fn rand_is_masked() {
    let e = run(vec![0xC0, 0x00], 1);
    assert_eq!(e.get_v(0), 0);
    let e = run(vec![0xC1, 0x0F], 1);
    assert!(e.get_v(1) <= 0x0F);
}

#[test]
fn get_delay_reads_timer() {
    let e = run(vec![0x60, 0x09, 0xF0, 0x15, 0xF1, 0x07], 3);
    assert_eq!(e.get_v(1), 9);
}

#[test]
fn set_sound_timer() {
    let e = run(vec![0x60, 0x03, 0xF0, 0x18], 2);
    assert_eq!(e.get_st(), 3);
    assert!(e.is_sound_active());
}

#[test]
fn skip_key_pressed_and_not() {
    let mut e = boot_ops(vec![0x60, 0x05, 0xE0, 0x9E]);
    e.keypress(5, true);
    e.tick().unwrap();
    e.tick().unwrap();
    assert_eq!(e.get_pc(), 0x206);

    let mut e = boot_ops(vec![0x60, 0x05, 0xE0, 0x9E]);
    e.tick().unwrap();
    e.tick().unwrap();
    assert_eq!(e.get_pc(), 0x204);
}

#[test]
fn skip_no_key_pressed_and_not() {
    let mut e = boot_ops(vec![0x60, 0x05, 0xE0, 0xA1]);
    e.tick().unwrap();
    e.tick().unwrap();
    assert_eq!(e.get_pc(), 0x206);

    let mut e = boot_ops(vec![0x60, 0x05, 0xE0, 0xA1]);
    e.keypress(5, true);
    e.tick().unwrap();
    e.tick().unwrap();
    assert_eq!(e.get_pc(), 0x204);
}

#[test]
fn wait_key_no_press_is_net_noop() {
    let mut e = boot_ops(vec![0xF0, 0x0A]);
    assert_eq!(e.tick(), Ok(()));
    assert_eq!(e.get_pc(), 0x200);
    assert_eq!(e.get_v(0), 0);
    // the same instruction re-executes on the next step
    assert_eq!(e.tick(), Ok(()));
    assert_eq!(e.get_pc(), 0x200);
}

#[test]
fn wait_key_lowest_index_wins() {
    let mut e = boot_ops(vec![0xF0, 0x0A]);
    e.keypress(7, true);
    e.keypress(3, true);
    e.tick().unwrap();
    assert_eq!(e.get_v(0), 3);
}

#[test]
fn draw_glyph_sets_pixels() {
    // I := 0 (glyph for 0: F0 90 90 90 F0), draw 5 rows anchored at (0, 0)
    let mut e = boot_ops(vec![0xA0, 0x00, 0xD0, 0x05]);
    e.tick().unwrap();
    e.tick().unwrap();
    let d = e.get_display();
    // row byte 0 is 0xF0: bits 4..=7 set, so cells (x=0, y=4..=7) are lit
    assert!(!d[0]);
    assert!(d[64 * 4]);
    assert!(d[64 * 7]);
    // row byte 1 is 0x90: bits 4 and 7 set at x = 1
    assert!(d[64 * 4 + 1]);
    assert!(!d[64 * 5 + 1]);
    assert!(d[64 * 7 + 1]);
    // nothing was lit before: no collision
    assert_eq!(e.get_v(0xF), 0);
}

#[test]
fn draw_twice_undraws_and_collides() {
    let mut e = boot_ops(vec![0xA0, 0x00, 0xD0, 0x05, 0xD0, 0x05]);
    e.tick().unwrap();
    e.tick().unwrap();
    assert_eq!(e.get_v(0xF), 0);
    assert!(e.get_display().iter().any(|p| *p));
    e.tick().unwrap();
    // every cell the first draw lit is cleared, and that is a collision
    assert_eq!(e.get_v(0xF), 1);
    assert!(e.get_display().iter().all(|p| !p));
}

#[test]
fn draw_wraps_at_display_edge() {
    // anchor x = 62: sprite rows 2.. wrap to x = 0, 1, 2
    let mut e = boot_ops(vec![0x60, 0x3E, 0xA0, 0x00, 0xD0, 0x15]);
    e.tick().unwrap();
    e.tick().unwrap();
    e.tick().unwrap();
    let d = e.get_display();
    // row byte 2 (0x90) lands at x = (62 + 2) % 64 = 0; bit 4 is set
    assert!(d[64 * 4]);
    // row byte 0 (0xF0) stays at x = 62
    assert!(d[64 * 4 + 62]);
}

#[test]
fn clear_screen_clears_everything() {
    let mut e = boot_ops(vec![0xA0, 0x00, 0xD0, 0x05, 0x00, 0xE0]);
    e.tick().unwrap();
    e.tick().unwrap();
    assert!(e.get_display().iter().any(|p| *p));
    e.tick().unwrap();
    assert!(e.get_display().iter().all(|p| !p));
    assert_eq!(e.get_pc(), 0x206);
}

#[test]
fn end_to_end_set_then_add() {
    let mut e = boot_ops(vec![0x60, 0x05, 0x70, 0x03]);
    e.tick().unwrap();
    e.tick().unwrap();
    assert_eq!(e.get_v(0), 8);
    assert_eq!(e.get_pc(), 0x204);
}
