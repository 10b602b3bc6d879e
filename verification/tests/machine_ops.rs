//! Instruction-level tests driving `Machine::step` with explicit inputs.

use chip8::machine::Machine;
use chip8::semantics::{Fault, StepInput};

fn quiet() -> StepInput {
    StepInput { key_pressed: false, pressed_key: None, random: 0 }
}

fn mk(rom: &[u8]) -> Machine {
    let mut m = Machine::new();
    m.load(rom).unwrap();
    m
}

fn run(m: &mut Machine, steps: usize) {
    for _ in 0..steps {
        m.step(&quiet()).unwrap();
    }
}

#[test]
fn store_immediate_takes_effect_at_once() {
    let mut m = mk(&[0x6A, 0x42]);
    run(&mut m, 1);
    assert_eq!(m.reg(0xA), 0x42);
}

#[test]
fn timer_read_overwrites_stored_value() {
    let mut m = mk(&[0x6A, 0x42, 0xFA, 0x07]);
    run(&mut m, 1);
    assert_eq!(m.reg(0xA), 0x42);
    run(&mut m, 1);
    assert_eq!(m.reg(0xA), m.delay_timer());
    assert_eq!(m.reg(0xA), 0);
}

#[test]
fn add_with_carry_wraps_and_flags() {
    let mut m = mk(&[0x61, 0xFF, 0x62, 0x01, 0x81, 0x24]);
    run(&mut m, 3);
    assert_eq!(m.reg(1), 0x00);
    assert_eq!(m.reg(0xF), 1);
}

#[test]
fn subtract_with_borrow_wraps_and_clears_flag() {
    let mut m = mk(&[0x61, 0x01, 0x62, 0x02, 0x81, 0x25]);
    run(&mut m, 3);
    assert_eq!(m.reg(1), 0xFF);
    assert_eq!(m.reg(0xF), 0);
}

#[test]
fn call_then_return_restores_flow() {
    let mut m = mk(&[0x22, 0x04, 0x00, 0x00, 0x00, 0xEE]);
    let pc0 = m.pc();
    let sp0 = m.sp();
    run(&mut m, 1);
    assert_eq!(m.pc(), 0x204);
    assert_eq!(m.sp(), sp0 + 2);
    run(&mut m, 1);
    assert_eq!(m.pc(), pc0 + 2);
    assert_eq!(m.sp(), sp0);
}

#[test]
fn sprite_draw_twice_self_erases_and_collides() {
    // i = glyph 0 (0xF0 0x90 0x90 0x90 0xF0), drawn at column 5, row 3
    let rom = [0x60, 0x00, 0xF0, 0x29, 0x61, 0x05, 0x62, 0x03, 0xD1, 0x25, 0xD1, 0x25];
    let mut m = mk(&rom);
    run(&mut m, 5);
    assert_eq!(m.reg(0xF), 0);
    // 0xF0 bit-reversed is 0x0F, shifted to column 5
    assert_eq!(m.vram_row(3), 0x0F << 5);
    assert_eq!(m.vram_row(4), 0x09 << 5);
    assert_eq!(m.vram_row(7), 0x0F << 5);
    run(&mut m, 1);
    assert_eq!(m.reg(0xF), 1);
    for row in 0..32 {
        assert_eq!(m.vram_row(row), 0);
    }
}

#[test]
fn sprite_columns_past_right_edge_are_dropped() {
    let rom = [0x60, 0x00, 0xF0, 0x29, 0x61, 0x46, 0x62, 0x03, 0xD1, 0x25];
    let mut m = mk(&rom);
    run(&mut m, 5);
    assert_eq!(m.reg(0xF), 0);
    for row in 0..32 {
        assert_eq!(m.vram_row(row), 0);
    }
}

#[test]
fn sprite_rows_past_bottom_edge_are_dropped() {
    let rom = [0x60, 0x00, 0xF0, 0x29, 0x61, 0x00, 0x62, 0x1E, 0xD1, 0x25];
    let mut m = mk(&rom);
    run(&mut m, 5);
    assert_eq!(m.vram_row(30), 0x0F);
    assert_eq!(m.vram_row(31), 0x09);
    assert_eq!(m.vram_row(0), 0);
    assert_eq!(m.vram_row(1), 0);
}

#[test]
fn bcd_writes_three_digits() {
    let mut m = mk(&[0x61, 0x9C, 0xA3, 0x00, 0xF1, 0x33]);
    run(&mut m, 3);
    assert_eq!(m.ram_at(0x300), 1);
    assert_eq!(m.ram_at(0x301), 5);
    assert_eq!(m.ram_at(0x302), 6);
    assert_eq!(m.index_reg(), 0x300);
}

#[test]
fn bcd_of_small_value_pads_with_zeros() {
    let mut m = mk(&[0x61, 0x07, 0xA3, 0x00, 0xF1, 0x33]);
    run(&mut m, 3);
    assert_eq!(m.ram_at(0x300), 0);
    assert_eq!(m.ram_at(0x301), 0);
    assert_eq!(m.ram_at(0x302), 7);
}

#[test]
fn return_on_empty_stack_faults() {
    let mut m = mk(&[0x00, 0xEE]);
    assert_eq!(m.step(&quiet()), Err(Fault::StackUnderflow));
    assert_eq!(m.pc(), 0x200);
    assert_eq!(m.sp(), 0);
}

#[test]
fn seventeenth_nested_call_faults() {
    let mut rom: Vec<u8> = Vec::new();
    for k in 0..17u8 {
        rom.push(0x22);
        rom.push(0x02 + 2 * k);
    }
    let mut m = mk(&rom);
    run(&mut m, 16);
    assert_eq!(m.sp(), 32);
    let pc_before = m.pc();
    assert_eq!(m.step(&quiet()), Err(Fault::StackOverflow));
    assert_eq!(m.pc(), pc_before);
    assert_eq!(m.sp(), 32);
}

#[test]
fn font_lookup_finds_the_a_glyph() {
    let mut m = mk(&[0x60, 0x0A, 0xF0, 0x29]);
    run(&mut m, 2);
    // glyph 0xA sits 10 glyphs of 5 bytes above the font base at 0x20
    assert_eq!(m.index_reg(), 0x52);
    let glyph: Vec<u8> = (0..5).map(|k| m.ram_at(0x52 + k)).collect();
    assert_eq!(glyph, vec![0xF0, 0x90, 0xF0, 0x90, 0x90]);
}

#[test]
fn skip_if_equal_takes_and_skips() {
    let mut m = mk(&[0x61, 0x07, 0x31, 0x07]);
    run(&mut m, 2);
    assert_eq!(m.pc(), 0x206);
    let mut m2 = mk(&[0x61, 0x07, 0x31, 0x08]);
    run(&mut m2, 2);
    assert_eq!(m2.pc(), 0x204);
}

#[test]
fn skip_if_registers_differ() {
    let mut m = mk(&[0x61, 0x07, 0x62, 0x08, 0x91, 0x20]);
    run(&mut m, 3);
    assert_eq!(m.pc(), 0x208);
}

#[test]
fn key_skip_honours_the_keyboard_answer() {
    let pressed = StepInput { key_pressed: true, pressed_key: None, random: 0 };
    let mut m = mk(&[0xE1, 0x9E]);
    m.step(&pressed).unwrap();
    assert_eq!(m.pc(), 0x204);
    let mut m2 = mk(&[0xE1, 0x9E]);
    m2.step(&quiet()).unwrap();
    assert_eq!(m2.pc(), 0x202);
    let mut m3 = mk(&[0xE1, 0xA1]);
    m3.step(&pressed).unwrap();
    assert_eq!(m3.pc(), 0x202);
}

#[test]
fn key_skip_with_a_code_past_f_faults() {
    let mut m = mk(&[0x61, 0x10, 0xE1, 0x9E]);
    run(&mut m, 1);
    assert_eq!(m.step(&quiet()), Err(Fault::InvalidKey));
}

#[test]
fn key_wait_busy_polls_until_a_key_comes() {
    let mut m = mk(&[0xF3, 0x0A]);
    m.step(&quiet()).unwrap();
    assert_eq!(m.pc(), 0x200);
    let held = StepInput { key_pressed: false, pressed_key: Some(7), random: 0 };
    m.step(&held).unwrap();
    assert_eq!(m.pc(), 0x202);
    assert_eq!(m.reg(3), 7);
}

#[test]
fn random_is_masked_by_the_immediate() {
    let mut m = mk(&[0xC1, 0x0F]);
    let drawn = StepInput { key_pressed: false, pressed_key: None, random: 0xAB };
    m.step(&drawn).unwrap();
    assert_eq!(m.reg(1), 0x0B);
}

#[test]
fn timers_decay_every_eighth_cycle() {
    // set dt to 5 on the second cycle, then idle up to the next decay point
    let rom = [
        0x61, 0x05, 0xF1, 0x15, 0x63, 0x00, 0x63, 0x00, 0x63, 0x00, 0x63, 0x00, 0x63, 0x00,
        0x63, 0x00, 0x63, 0x00,
    ];
    let mut m = mk(&rom);
    run(&mut m, 8);
    assert_eq!(m.delay_timer(), 5);
    run(&mut m, 1);
    assert_eq!(m.delay_timer(), 4);
}

#[test]
fn sound_timer_saturates_at_zero() {
    let mut m = mk(&[0x61, 0x01, 0xF1, 0x18, 0x63, 0x00, 0x63, 0x00]);
    run(&mut m, 4);
    assert_eq!(m.sound_timer(), 1);
    // the cycle counter reaches the next multiple of eight well past the end
    let mut m2 = mk(&[0x63, 0x00, 0x63, 0x00]);
    run(&mut m2, 2);
    assert_eq!(m2.sound_timer(), 0);
}

#[test]
fn store_and_load_registers_round_trip() {
    let rom = [
        0x60, 0x11, 0x61, 0x22, 0xA3, 0x00, 0xF1, 0x55, 0x60, 0x00, 0x61, 0x00, 0xA3, 0x00,
        0xF1, 0x65,
    ];
    let mut m = mk(&rom);
    run(&mut m, 4);
    assert_eq!(m.ram_at(0x300), 0x11);
    assert_eq!(m.ram_at(0x301), 0x22);
    assert_eq!(m.index_reg(), 0x302);
    run(&mut m, 4);
    assert_eq!(m.reg(0), 0x11);
    assert_eq!(m.reg(1), 0x22);
    assert_eq!(m.index_reg(), 0x302);
}

#[test]
fn shift_right_reads_the_source_register() {
    let mut m = mk(&[0x62, 0x05, 0x81, 0x26]);
    run(&mut m, 2);
    assert_eq!(m.reg(1), 2);
    assert_eq!(m.reg(0xF), 1);
}

#[test]
fn shift_left_flags_the_high_bit() {
    let mut m = mk(&[0x62, 0x81, 0x81, 0x2E]);
    run(&mut m, 2);
    assert_eq!(m.reg(1), 0x02);
    assert_eq!(m.reg(0xF), 1);
}

#[test]
fn add_immediate_wraps_without_flag() {
    let mut m = mk(&[0x61, 0xFF, 0x71, 0x02]);
    run(&mut m, 2);
    assert_eq!(m.reg(1), 0x01);
    assert_eq!(m.reg(0xF), 0);
}

#[test]
fn reverse_subtract_flags_no_borrow() {
    let mut m = mk(&[0x61, 0x01, 0x62, 0x03, 0x81, 0x27]);
    run(&mut m, 3);
    assert_eq!(m.reg(1), 0x02);
    assert_eq!(m.reg(0xF), 1);
}

#[test]
fn jump_to_reserved_memory_faults() {
    let mut m = mk(&[0x11, 0x00]);
    assert_eq!(m.step(&quiet()), Err(Fault::ReservedJump));
    assert_eq!(m.pc(), 0x200);
}

#[test]
fn call_to_reserved_memory_faults() {
    let mut m = mk(&[0x21, 0xFF]);
    assert_eq!(m.step(&quiet()), Err(Fault::ReservedJump));
}

#[test]
fn plain_jump_ignores_register_zero() {
    let mut m = mk(&[0x60, 0x10, 0xB3, 0x00]);
    run(&mut m, 2);
    assert_eq!(m.pc(), 0x300);
}

#[test]
fn indexed_store_into_reserved_memory_faults() {
    let mut m = mk(&[0xA1, 0x00, 0xF1, 0x33]);
    run(&mut m, 1);
    assert_eq!(m.step(&quiet()), Err(Fault::ReservedWrite));
    let mut m2 = mk(&[0xA1, 0x00, 0xF1, 0x55]);
    run(&mut m2, 1);
    assert_eq!(m2.step(&quiet()), Err(Fault::ReservedWrite));
}

#[test]
fn unknown_opcodes_fault_and_leave_the_machine_alone() {
    for rom in [[0x00u8, 0x00], [0x50, 0x11], [0x81, 0x28], [0xE1, 0x55], [0xF1, 0x99]] {
        let mut m = mk(&rom);
        assert_eq!(m.step(&quiet()), Err(Fault::UnknownOpcode));
        assert_eq!(m.pc(), 0x200);
    }
}

#[test]
fn fetch_past_the_end_of_memory_faults() {
    let mut m = mk(&[0x1F, 0xFF]);
    run(&mut m, 1);
    assert_eq!(m.pc(), 0xFFF);
    assert_eq!(m.step(&quiet()), Err(Fault::AddressOutOfBounds));
}

#[test]
fn sprite_read_past_the_end_of_memory_faults() {
    let mut m = mk(&[0xAF, 0xFF, 0xD1, 0x25]);
    run(&mut m, 1);
    assert_eq!(m.step(&quiet()), Err(Fault::AddressOutOfBounds));
}

#[test]
fn index_add_accumulates() {
    let mut m = mk(&[0xA3, 0x00, 0x61, 0x10, 0xF1, 0x1E, 0xF1, 0x1E]);
    run(&mut m, 4);
    assert_eq!(m.index_reg(), 0x320);
}

#[test]
fn clear_display_zeroes_every_row() {
    let rom = [0x60, 0x00, 0xF0, 0x29, 0xD1, 0x25, 0x00, 0xE0];
    let mut m = mk(&rom);
    run(&mut m, 3);
    assert!(m.vram_row(0) != 0);
    run(&mut m, 1);
    for row in 0..32 {
        assert_eq!(m.vram_row(row), 0);
    }
}

#[test]
fn alu_bitwise_operations_match() {
    let mut m = mk(&[0x61, 0x0C, 0x62, 0x0A, 0x81, 0x21]);
    run(&mut m, 3);
    assert_eq!(m.reg(1), 0x0E);
    let mut m2 = mk(&[0x61, 0x0C, 0x62, 0x0A, 0x81, 0x22]);
    run(&mut m2, 3);
    assert_eq!(m2.reg(1), 0x08);
    let mut m3 = mk(&[0x61, 0x0C, 0x62, 0x0A, 0x81, 0x23]);
    run(&mut m3, 3);
    assert_eq!(m3.reg(1), 0x06);
    let mut m4 = mk(&[0x61, 0x0C, 0x62, 0x0A, 0x81, 0x20]);
    run(&mut m4, 3);
    assert_eq!(m4.reg(1), 0x0A);
}

#[test]
fn program_image_must_fit_in_memory() {
    let mut m = Machine::new();
    let big = vec![0u8; 0xE01];
    assert_eq!(m.load(&big), Err(Fault::ProgramTooLarge));
    let exact = vec![0u8; 0xE00];
    assert_eq!(m.load(&exact), Ok(()));
}

#[test]
fn fresh_machine_holds_the_font_and_nothing_else() {
    let m = Machine::new();
    assert_eq!(m.pc(), 0x200);
    assert_eq!(m.sp(), 0);
    assert_eq!(m.index_reg(), 0);
    assert_eq!(m.cycle_count(), 0);
    assert_eq!(m.ram_at(0x20), 0xF0);
    assert_eq!(m.ram_at(0x6F), 0x80);
    assert_eq!(m.ram_at(0x1F), 0);
    assert_eq!(m.ram_at(0x70), 0);
    for r in 0..16 {
        assert_eq!(m.reg(r), 0);
    }
    for row in 0..32 {
        assert_eq!(m.vram_row(row), 0);
    }
}
