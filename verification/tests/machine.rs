//! Construction, program load, fetch, stack, keypad and timer behaviour.

use chip8::emu::Emu;
use chip8::instr::Fault;

fn boot_machine(program: Vec<u8>) -> Emu {
    let mut e = Emu::new();
    e.load(&program).unwrap();
    e
}

#[test]
fn new_state_defaults() {
    let e = Emu::new();
    assert_eq!(e.get_pc(), 0x200);
    assert_eq!(e.get_i(), 0);
    assert_eq!(e.get_dt(), 0);
    assert_eq!(e.get_st(), 0);
    assert!(!e.is_sound_active());
    for x in 0..16 {
        assert_eq!(e.get_v(x), 0);
    }
    let display = e.get_display();
    assert_eq!(display.len(), 64 * 32);
    assert!(display.iter().all(|p| !p));
}

#[test]
fn default_matches_new() {
    let e = Emu::default();
    assert_eq!(e.get_pc(), 0x200);
    assert_eq!(e.get_ram(0), 0xF0);
}

#[test]
fn glyph_table_in_low_memory() {
    let e = Emu::new();
    // glyph for digit 0: F0 90 90 90 F0
    assert_eq!(e.get_ram(0), 0xF0);
    assert_eq!(e.get_ram(1), 0x90);
    assert_eq!(e.get_ram(4), 0xF0);
    // glyph for digit 1 starts at byte 5
    assert_eq!(e.get_ram(5), 0x20);
    // last byte of the glyph for digit F
    assert_eq!(e.get_ram(79), 0x80);
    // memory after the glyph table is zeroed
    assert_eq!(e.get_ram(80), 0);
    assert_eq!(e.get_ram(0x200), 0);
}

#[test]
fn load_places_program_at_offset() {
    let e = boot_machine(vec![0xAB, 0xCD, 0x01]);
    assert_eq!(e.get_ram(0x200), 0xAB);
    assert_eq!(e.get_ram(0x201), 0xCD);
    assert_eq!(e.get_ram(0x202), 0x01);
    assert_eq!(e.get_ram(0x203), 0);
}

#[test]
fn load_preserves_glyph_region() {
    let e = boot_machine(vec![0xFF; 100]);
    for a in 0..80 {
        let fresh = Emu::new();
        assert_eq!(e.get_ram(a), fresh.get_ram(a));
    }
    assert_eq!(e.get_ram(0), 0xF0);
    assert_eq!(e.get_ram(0x200), 0xFF);
}

#[test]
fn load_longest_image_fits() {
    let mut e = Emu::new();
    assert_eq!(e.load(&vec![0xAA; 4096 - 0x200]), Ok(()));
    assert_eq!(e.get_ram(4095), 0xAA);
}

#[test]
fn load_too_long_is_rejected_whole() {
    let mut e = Emu::new();
    assert_eq!(e.load(&vec![0xAA; 4096 - 0x200 + 1]), Err(Fault::MemoryOutOfBounds));
    // nothing was written
    assert_eq!(e.get_ram(0x200), 0);
    assert_eq!(e.get_ram(4095), 0);
}

#[test]
fn fetch_reads_big_endian_and_advances() {
    let mut e = boot_machine(vec![0x12, 0x34]);
    let op = e.fetch();
    assert_eq!(op, 0x1234);
    assert_eq!(e.get_pc(), 0x202);
}

#[test]
fn push_pop_roundtrip() {
    let mut e = Emu::new();
    e.push(0x123);
    e.push(0x456);
    assert_eq!(e.pop(), 0x456);
    assert_eq!(e.pop(), 0x123);
}

#[test]
fn keypress_feeds_wait_for_key() {
    // FX0A into V0
    let mut e = boot_machine(vec![0xF0, 0x0A]);
    e.keypress(5, true);
    assert_eq!(e.tick(), Ok(()));
    assert_eq!(e.get_v(0), 5);
    assert_eq!(e.get_pc(), 0x202);
}

#[test]
fn keypress_release_is_seen() {
    let mut e = boot_machine(vec![0xF0, 0x0A]);
    e.keypress(5, true);
    e.keypress(5, false);
    assert_eq!(e.tick(), Ok(()));
    // no key pressed: the instruction re-executes, nothing recorded
    assert_eq!(e.get_pc(), 0x200);
    assert_eq!(e.get_v(0), 0);
}

#[test]
fn timers_decrement_and_saturate() {
    // V0 := 2; DT := V0; V1 := 1; ST := V1
    let mut e = boot_machine(vec![0x60, 0x02, 0xF0, 0x15, 0x61, 0x01, 0xF1, 0x18]);
    for _ in 0..4 {
        e.tick().unwrap();
    }
    assert_eq!(e.get_dt(), 2);
    assert_eq!(e.get_st(), 1);
    assert!(e.is_sound_active());

    // sound timer was 1: active this cycle, silent after
    assert!(e.tick_timers());
    assert_eq!(e.get_dt(), 1);
    assert_eq!(e.get_st(), 0);
    assert!(!e.is_sound_active());

    assert!(!e.tick_timers());
    assert_eq!(e.get_dt(), 0);
    assert_eq!(e.get_st(), 0);

    // both timers saturate at zero
    assert!(!e.tick_timers());
    assert_eq!(e.get_dt(), 0);
    assert_eq!(e.get_st(), 0);
}

#[test]
fn timer_cycle_changes_no_other_state() {
    let mut e = boot_machine(vec![0x6A, 0x42]);
    e.tick().unwrap();
    e.tick_timers();
    assert_eq!(e.get_v(0xA), 0x42);
    assert_eq!(e.get_pc(), 0x202);
}
