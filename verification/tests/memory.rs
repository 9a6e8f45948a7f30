use chip8_core::chip8::{Chip, LoadError};

fn boot(program: &[u8]) -> Chip {
    let mut c = Chip::initialize();
    c.load_program(program).unwrap();
    c
}

fn steps(c: &mut Chip, n: usize) {
    for _ in 0..n {
        c.emulate_cycle().unwrap();
    }
}

#[test]
fn fresh_machine_has_font_and_conventional_start() {
    let c = Chip::initialize();
    assert_eq!(c.pc(), 0x0200);
    assert_eq!(c.index_reg(), 0);
    assert_eq!(c.stack_depth(), 0);
    assert_eq!(c.delay_timer(), 0);
    assert_eq!(c.sound_timer(), 0);
    assert!(!c.draw_flag());
    assert_eq!(c.awaiting_key(), None);
    // The glyph table: first byte of digit 0, last byte of digit F.
    assert_eq!(c.mem_at(0), 0xF0);
    assert_eq!(c.mem_at(79), 0x80);
    assert_eq!(c.mem_at(80), 0);
    assert_eq!(c.mem_at(0x200), 0);
    for x in 0..16 {
        assert_eq!(c.reg(x), 0);
    }
}

#[test]
fn largest_program_loads_and_one_byte_more_fails() {
    let fits = vec![0xABu8; 4096 - 0x200];
    let mut c = Chip::initialize();
    assert_eq!(c.load_program(&fits), Ok(()));
    assert_eq!(c.mem_at(0x200), 0xAB);
    assert_eq!(c.mem_at(0xFFF), 0xAB);

    let too_big = vec![0xABu8; 4096 - 0x200 + 1];
    let mut c2 = Chip::initialize();
    assert_eq!(c2.load_program(&too_big), Err(LoadError::ProgramTooLarge));
    // The refusal happens before any byte is written.
    assert_eq!(c2.mem_at(0x200), 0);
    assert_eq!(c2.mem_at(0xFFF), 0);
}

#[test]
fn empty_program_loads() {
    let mut c = Chip::initialize();
    assert_eq!(c.load_program(&[]), Ok(()));
    assert_eq!(c.pc(), 0x0200);
    assert_eq!(c.mem_at(0x200), 0);
}

#[test]
fn bcd_store_of_156() {
    let mut c = boot(&[0x60, 0x9C, 0xA3, 0x00, 0xF0, 0x33]);
    steps(&mut c, 3);
    assert_eq!(c.mem_at(0x300), 1);
    assert_eq!(c.mem_at(0x301), 5);
    assert_eq!(c.mem_at(0x302), 6);
    assert_eq!(c.index_reg(), 0x300);
}

#[test]
fn store_then_load_registers_round_trip() {
    let mut c = boot(&[
        0x60, 0x0B, 0x61, 0x16, 0x62, 0x21, 0xA3, 0x00, 0xF2, 0x55, 0x60, 0x00, 0x61, 0x00, 0x62,
        0x00, 0xF2, 0x65,
    ]);
    steps(&mut c, 5);
    assert_eq!(c.mem_at(0x300), 0x0B);
    assert_eq!(c.mem_at(0x301), 0x16);
    assert_eq!(c.mem_at(0x302), 0x21);
    assert_eq!(c.index_reg(), 0x300);
    steps(&mut c, 4);
    assert_eq!(c.reg(0), 0x0B);
    assert_eq!(c.reg(1), 0x16);
    assert_eq!(c.reg(2), 0x21);
    assert_eq!(c.index_reg(), 0x300);
}

#[test]
fn store_registers_wraps_past_the_last_address() {
    let mut c = boot(&[0xAF, 0xFF, 0x60, 0xAA, 0x61, 0xBB, 0xF1, 0x55]);
    steps(&mut c, 4);
    assert_eq!(c.mem_at(0xFFF), 0xAA);
    assert_eq!(c.mem_at(0x000), 0xBB);
}

#[test]
fn set_index() {
    let mut c = boot(&[0xA1, 0x23]);
    steps(&mut c, 1);
    assert_eq!(c.index_reg(), 0x123);
}

#[test]
fn add_to_index_wraps_in_twelve_bits() {
    let mut c = boot(&[0xAF, 0xFF, 0x60, 0x05, 0xF0, 0x1E]);
    steps(&mut c, 3);
    assert_eq!(c.index_reg(), 0x004);
}

#[test]
fn font_index_points_at_the_glyph() {
    let mut c = boot(&[0x60, 0x07, 0xF0, 0x29]);
    steps(&mut c, 2);
    assert_eq!(c.index_reg(), 35);
    // The glyph for 7 begins with its 0xF0 top row.
    assert_eq!(c.mem_at(35), 0xF0);
}

#[test]
fn font_index_uses_the_low_nibble() {
    let mut c = boot(&[0x60, 0xA7, 0xF0, 0x29]);
    steps(&mut c, 2);
    assert_eq!(c.index_reg(), 35);
}
