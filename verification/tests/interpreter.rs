//! Tests of the interpreter driver: capability queries, rendering, and the
//! key type.

use chip8::chip_8::{Chip8, DisplayInterface, Key, KeyboardInterface};
use chip8::semantics::Fault;

struct FixedKeyboard {
    held: Option<u8>,
}

impl KeyboardInterface for FixedKeyboard {
    fn is_key_pressed(&self, key: Key) -> bool {
        self.held == Some(*key.value())
    }

    fn get_pressed_key(&self) -> Option<Key> {
        self.held.map(Key::new)
    }
}

struct RecordingDisplay {
    draws: usize,
    last: Vec<u64>,
}

impl DisplayInterface for RecordingDisplay {
    fn draw(&mut self, bitmap: &[u64]) {
        self.draws += 1;
        self.last = bitmap.to_vec();
    }
}

fn mk(rom: &[u8], held: Option<u8>) -> Chip8<FixedKeyboard, RecordingDisplay> {
    let keyboard = FixedKeyboard { held };
    let display = RecordingDisplay { draws: 0, last: Vec::new() };
    let mut c = Chip8::new(keyboard, display);
    c.load(rom).unwrap();
    c
}

#[test]
fn key_codes_round_trip() {
    for code in 0..=0xF {
        let key = Key::new(code);
        assert_eq!(*key.value(), code);
    }
}

#[test]
fn a_new_interpreter_renders_a_blank_display_once() {
    let c = mk(&[], None);
    assert_eq!(c.display.draws, 1);
    assert_eq!(c.display.last, vec![0u64; 32]);
}

#[test]
fn clearing_the_display_renders_again() {
    let mut c = mk(&[0x00, 0xE0], None);
    c.execute().unwrap();
    assert_eq!(c.display.draws, 2);
    assert_eq!(c.display.last, vec![0u64; 32]);
}

#[test]
fn drawing_renders_the_mutated_bitmap() {
    let rom = [0x60, 0x00, 0xF0, 0x29, 0xD1, 0x25];
    let mut c = mk(&rom, None);
    for _ in 0..3 {
        c.execute().unwrap();
    }
    assert_eq!(c.display.draws, 2);
    assert_eq!(c.display.last[0], 0x0F);
    assert_eq!(c.display.last[1], 0x09);
}

#[test]
fn non_display_instructions_do_not_render() {
    let mut c = mk(&[0x61, 0x05], None);
    c.execute().unwrap();
    assert_eq!(c.display.draws, 1);
}

#[test]
fn key_skip_sees_the_held_key() {
    let mut c = mk(&[0x61, 0x07, 0xE1, 0x9E], Some(7));
    c.execute().unwrap();
    c.execute().unwrap();
    assert_eq!(c.machine.pc(), 0x206);
    let mut c2 = mk(&[0x61, 0x07, 0xE1, 0x9E], Some(3));
    c2.execute().unwrap();
    c2.execute().unwrap();
    assert_eq!(c2.machine.pc(), 0x204);
}

#[test]
fn key_wait_stores_the_pressed_key() {
    let mut c = mk(&[0xF4, 0x0A], Some(0xB));
    c.execute().unwrap();
    assert_eq!(c.machine.reg(4), 0xB);
    assert_eq!(c.machine.pc(), 0x202);
}

#[test]
fn key_wait_repeats_with_nothing_held() {
    let mut c = mk(&[0xF4, 0x0A], None);
    c.execute().unwrap();
    c.execute().unwrap();
    assert_eq!(c.machine.pc(), 0x200);
}

#[test]
fn random_register_stays_within_the_mask() {
    let mut c = mk(&[0xC5, 0x07], None);
    c.execute().unwrap();
    assert!(c.machine.reg(5) <= 0x07);
}

#[test]
fn faults_surface_through_the_interpreter() {
    let mut c = mk(&[0x00, 0xEE], None);
    assert_eq!(c.execute(), Err(Fault::StackUnderflow));
    assert_eq!(c.machine.pc(), 0x200);
    let mut c2 = mk(&[0x12, 0x00], None);
    c2.execute().unwrap();
    assert_eq!(c2.machine.pc(), 0x200);
}

#[test]
fn oversized_image_is_rejected() {
    let keyboard = FixedKeyboard { held: None };
    let display = RecordingDisplay { draws: 0, last: Vec::new() };
    let mut c = Chip8::new(keyboard, display);
    let big = vec![0u8; 0xE01];
    assert_eq!(c.load(&big), Err(Fault::ProgramTooLarge));
}
