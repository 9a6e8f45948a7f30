use chip8_core::chip8::Chip;
use chip8_core::model::{StepError, StepNote};

fn boot(program: &[u8]) -> Chip {
    let mut c = Chip::initialize();
    c.load_program(program).unwrap();
    c
}

fn steps(c: &mut Chip, n: usize) {
    for _ in 0..n {
        c.emulate_cycle().unwrap();
    }
}

#[test]
fn jump_sets_pc_exactly() {
    let mut c = boot(&[0x1A, 0xBC]);
    steps(&mut c, 1);
    assert_eq!(c.pc(), 0x0ABC);
}

#[test]
fn jump_plus_v0() {
    let mut c = boot(&[0x60, 0x0A, 0xB3, 0x00]);
    steps(&mut c, 2);
    assert_eq!(c.pc(), 0x030A);
}

#[test]
fn call_then_return_restores_pc_and_stack() {
    let mut c = boot(&[0x22, 0x06, 0x00, 0x00, 0x00, 0x00, 0x00, 0xEE]);
    steps(&mut c, 1);
    assert_eq!(c.pc(), 0x0206);
    assert_eq!(c.stack_depth(), 1);
    steps(&mut c, 1);
    assert_eq!(c.pc(), 0x0202);
    assert_eq!(c.stack_depth(), 0);
}

#[test]
fn return_on_empty_stack_is_fatal_and_harmless() {
    let mut c = boot(&[0x00, 0xEE]);
    let r = c.emulate_cycle();
    assert_eq!(r, Err(StepError::StackUnderflow));
    assert_eq!(c.pc(), 0x0200);
    assert_eq!(c.stack_depth(), 0);
}

#[test]
fn seventeenth_nested_call_overflows() {
    let mut c = boot(&[0x22, 0x00]);
    for _ in 0..16 {
        assert_eq!(c.emulate_cycle(), Ok(StepNote::Executed));
    }
    assert_eq!(c.stack_depth(), 16);
    assert_eq!(c.emulate_cycle(), Err(StepError::StackOverflow));
    assert_eq!(c.stack_depth(), 16);
}

#[test]
fn unknown_opcode_is_a_reported_no_op() {
    let mut c = boot(&[0x8F, 0xFF]);
    let r = c.emulate_cycle();
    assert_eq!(r, Ok(StepNote::UnknownOpcode(0x8FFF)));
    assert_eq!(c.pc(), 0x0202);
}

#[test]
fn pc_wraps_at_end_of_memory() {
    let mut c = boot(&[0x1F, 0xFE]);
    steps(&mut c, 1);
    assert_eq!(c.pc(), 0x0FFE);
    let r = c.emulate_cycle();
    assert_eq!(r, Ok(StepNote::UnknownOpcode(0x0000)));
    assert_eq!(c.pc(), 0x0000);
}

#[test]
fn skip_equal_immediate_taken() {
    let mut c = boot(&[0x60, 0x05, 0x30, 0x05]);
    steps(&mut c, 2);
    assert_eq!(c.pc(), 0x0206);
}

#[test]
fn skip_equal_immediate_not_taken() {
    let mut c = boot(&[0x60, 0x05, 0x30, 0x06]);
    steps(&mut c, 2);
    assert_eq!(c.pc(), 0x0204);
}

#[test]
fn skip_not_equal_immediate() {
    let mut c = boot(&[0x60, 0x05, 0x40, 0x06]);
    steps(&mut c, 2);
    assert_eq!(c.pc(), 0x0206);
}

#[test]
fn skip_equal_registers() {
    let mut c = boot(&[0x60, 0x07, 0x61, 0x07, 0x50, 0x10]);
    steps(&mut c, 3);
    assert_eq!(c.pc(), 0x0208);
}

#[test]
fn skip_not_equal_registers() {
    let mut c = boot(&[0x60, 0x07, 0x61, 0x08, 0x90, 0x10]);
    steps(&mut c, 3);
    assert_eq!(c.pc(), 0x0208);
}

#[test]
fn skip_not_equal_registers_not_taken() {
    let mut c = boot(&[0x60, 0x07, 0x61, 0x07, 0x90, 0x10]);
    steps(&mut c, 3);
    assert_eq!(c.pc(), 0x0206);
}
