use chip8_core::chip8::Chip;

fn boot(program: &[u8]) -> Chip {
    let mut c = Chip::initialize();
    c.load_program(program).unwrap();
    c
}

fn steps(c: &mut Chip, n: usize) {
    for _ in 0..n {
        c.emulate_cycle().unwrap();
    }
}

#[test]
fn add_with_carry_wraps() {
    let mut c = boot(&[0x60, 0xFF, 0x61, 0x01, 0x80, 0x14]);
    steps(&mut c, 3);
    assert_eq!(c.reg(0), 0x00);
    assert_eq!(c.reg(0xF), 1);
}

#[test]
fn add_without_carry() {
    let mut c = boot(&[0x60, 0x05, 0x61, 0x03, 0x80, 0x14]);
    steps(&mut c, 3);
    assert_eq!(c.reg(0), 0x08);
    assert_eq!(c.reg(0xF), 0);
}

#[test]
fn sub_with_borrow_example() {
    let mut c = boot(&[0x60, 0x05, 0x61, 0x0A, 0x80, 0x15]);
    steps(&mut c, 3);
    assert_eq!(c.reg(0), 0xFB);
    assert_eq!(c.reg(0xF), 0);
}

#[test]
fn sub_without_borrow() {
    let mut c = boot(&[0x60, 0x0A, 0x61, 0x05, 0x80, 0x15]);
    steps(&mut c, 3);
    assert_eq!(c.reg(0), 0x05);
    assert_eq!(c.reg(0xF), 1);
}

#[test]
fn sub_reverse_with_borrow() {
    let mut c = boot(&[0x60, 0x0A, 0x61, 0x03, 0x80, 0x17]);
    steps(&mut c, 3);
    assert_eq!(c.reg(0), 0xF9);
    assert_eq!(c.reg(0xF), 0);
}

#[test]
fn sub_reverse_without_borrow() {
    let mut c = boot(&[0x60, 0x03, 0x61, 0x0A, 0x80, 0x17]);
    steps(&mut c, 3);
    assert_eq!(c.reg(0), 0x07);
    assert_eq!(c.reg(0xF), 1);
}

#[test]
fn add_immediate_wraps_and_leaves_flag() {
    let mut c = boot(&[0x60, 0xFF, 0x70, 0x02]);
    steps(&mut c, 2);
    assert_eq!(c.reg(0), 0x01);
    assert_eq!(c.reg(0xF), 0);
}

#[test]
fn set_immediate() {
    let mut c = boot(&[0x6A, 0x42]);
    steps(&mut c, 1);
    assert_eq!(c.reg(0xA), 0x42);
}

#[test]
fn copy_register() {
    let mut c = boot(&[0x61, 0x2A, 0x80, 0x10]);
    steps(&mut c, 2);
    assert_eq!(c.reg(0), 0x2A);
}

#[test]
fn bitwise_or() {
    let mut c = boot(&[0x60, 0x0C, 0x61, 0x0A, 0x80, 0x11]);
    steps(&mut c, 3);
    assert_eq!(c.reg(0), 0x0E);
}

#[test]
fn bitwise_and() {
    let mut c = boot(&[0x60, 0x0C, 0x61, 0x0A, 0x80, 0x12]);
    steps(&mut c, 3);
    assert_eq!(c.reg(0), 0x08);
}

#[test]
fn bitwise_xor() {
    let mut c = boot(&[0x60, 0x0C, 0x61, 0x0A, 0x80, 0x13]);
    steps(&mut c, 3);
    assert_eq!(c.reg(0), 0x06);
}

#[test]
fn shift_right_reports_low_bit() {
    let mut c = boot(&[0x60, 0x05, 0x80, 0x06]);
    steps(&mut c, 2);
    assert_eq!(c.reg(0), 0x02);
    assert_eq!(c.reg(0xF), 1);
}

#[test]
fn shift_left_reports_high_bit_normalized() {
    let mut c = boot(&[0x60, 0x81, 0x80, 0x0E]);
    steps(&mut c, 2);
    assert_eq!(c.reg(0), 0x02);
    assert_eq!(c.reg(0xF), 1);
}

#[test]
fn shift_left_without_high_bit() {
    let mut c = boot(&[0x60, 0x41, 0x80, 0x0E]);
    steps(&mut c, 2);
    assert_eq!(c.reg(0), 0x82);
    assert_eq!(c.reg(0xF), 0);
}

#[test]
fn random_masked_by_zero_is_zero() {
    let mut c = boot(&[0x60, 0x55, 0xC0, 0x00]);
    steps(&mut c, 2);
    assert_eq!(c.reg(0), 0x00);
}
