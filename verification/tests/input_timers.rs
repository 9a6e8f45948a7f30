use chip8_core::chip8::{Chip, KeyError};
use chip8_core::model::StepNote;

fn boot(program: &[u8]) -> Chip {
    let mut c = Chip::initialize();
    c.load_program(program).unwrap();
    c
}

fn steps(c: &mut Chip, n: usize) {
    for _ in 0..n {
        c.emulate_cycle().unwrap();
    }
}

#[test]
fn key_wait_blocks_until_an_edge() {
    let mut c = boot(&[0xF5, 0x0A]);
    steps(&mut c, 1);
    assert_eq!(c.awaiting_key(), Some(5));
    assert_eq!(c.pc(), 0x0200);
    for _ in 0..3 {
        assert_eq!(c.emulate_cycle(), Ok(StepNote::Waiting));
        assert_eq!(c.pc(), 0x0200);
        assert_eq!(c.awaiting_key(), Some(5));
    }
    c.set_key(9, true).unwrap();
    assert_eq!(c.awaiting_key(), None);
    assert_eq!(c.reg(5), 9);
    assert_eq!(c.pc(), 0x0202);
}

#[test]
fn key_wait_needs_an_edge_not_a_level() {
    let mut c = boot(&[0xF5, 0x0A]);
    c.set_key(9, true).unwrap();
    steps(&mut c, 1);
    assert_eq!(c.awaiting_key(), Some(5));
    // The key is merely held: no new edge, so the wait stands.
    c.set_key(9, true).unwrap();
    assert_eq!(c.awaiting_key(), Some(5));
    c.set_key(9, false).unwrap();
    assert_eq!(c.awaiting_key(), Some(5));
    // Releasing and pressing again is an edge.
    c.set_key(9, true).unwrap();
    assert_eq!(c.awaiting_key(), None);
    assert_eq!(c.reg(5), 9);
}

#[test]
fn timers_run_while_waiting_and_floor_at_zero() {
    let mut c = boot(&[0x62, 0x05, 0xF2, 0x15, 0xF3, 0x0A]);
    steps(&mut c, 2);
    // The delay timer was set to 5 and already ticked once this step.
    assert_eq!(c.delay_timer(), 4);
    steps(&mut c, 1);
    assert_eq!(c.awaiting_key(), Some(3));
    assert_eq!(c.delay_timer(), 3);
    steps(&mut c, 3);
    assert_eq!(c.delay_timer(), 0);
    assert_eq!(c.pc(), 0x0204);
    for _ in 0..5 {
        steps(&mut c, 1);
        assert_eq!(c.delay_timer(), 0);
        assert_eq!(c.sound_timer(), 0);
    }
}

#[test]
fn sound_timer_drives_the_audio_signal() {
    let mut c = boot(&[0x62, 0x02, 0xF2, 0x18, 0x00, 0x00]);
    steps(&mut c, 2);
    assert_eq!(c.sound_timer(), 1);
    assert!(c.sound_active());
    steps(&mut c, 1);
    assert_eq!(c.sound_timer(), 0);
    assert!(!c.sound_active());
}

#[test]
fn read_delay_sees_the_ticked_value() {
    let mut c = boot(&[0x62, 0x05, 0xF2, 0x15, 0xF3, 0x07]);
    steps(&mut c, 3);
    assert_eq!(c.reg(3), 4);
    assert_eq!(c.delay_timer(), 3);
}

#[test]
fn key_index_outside_the_panel_is_rejected() {
    let mut c = boot(&[0xF5, 0x0A]);
    assert_eq!(c.set_key(16, true), Err(KeyError::IndexOutOfRange));
    assert_eq!(c.set_key(0, true), Ok(()));
}

#[test]
fn skip_when_key_pressed() {
    let mut c = boot(&[0x60, 0x07, 0xE0, 0x9E]);
    c.set_key(7, true).unwrap();
    steps(&mut c, 2);
    assert_eq!(c.pc(), 0x0206);
}

#[test]
fn no_skip_when_key_not_pressed() {
    let mut c = boot(&[0x60, 0x07, 0xE0, 0x9E]);
    steps(&mut c, 2);
    assert_eq!(c.pc(), 0x0204);
}

#[test]
fn skip_when_key_not_pressed() {
    let mut c = boot(&[0x60, 0x07, 0xE0, 0xA1]);
    steps(&mut c, 2);
    assert_eq!(c.pc(), 0x0206);
}
