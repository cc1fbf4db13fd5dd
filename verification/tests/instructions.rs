//! Instruction-level behavior, driven through small programs.

use chip8::State;

/// A machine reset and loaded with `prog` at the program start.
fn boot(prog: &[u8]) -> State {
    let mut m = State::new();
    m.initialize();
    m.load_buffer(prog).unwrap();
    m
}

/// Run `n` cycles with a fixed random byte, requiring each to succeed.
fn run(m: &mut State, n: usize) {
    for _ in 0..n {
        m.cycle_with_random(0).unwrap();
    }
}

#[test]
fn add_with_carry_overflowing() {
    // V0 = 200, V1 = 100, V0 += V1 with carry.
    let mut m = boot(&[0x60, 0xC8, 0x61, 0x64, 0x80, 0x14]);
    run(&mut m, 3);
    assert_eq!(m.reg(0), 44);
    assert_eq!(m.reg(0xF), 1);
}

#[test]
fn add_with_carry_small() {
    // V0 = 10, V1 = 20, V0 += V1: no carry.
    let mut m = boot(&[0x60, 0x0A, 0x61, 0x14, 0x80, 0x14]);
    run(&mut m, 3);
    assert_eq!(m.reg(0), 30);
    assert_eq!(m.reg(0xF), 0);
}

#[test]
fn add_immediate_wraps_without_flag() {
    // V0 = 250, V0 += 10: wraps, VF untouched (stays 0).
    let mut m = boot(&[0x60, 0xFA, 0x70, 0x0A]);
    run(&mut m, 2);
    assert_eq!(m.reg(0), 4);
    assert_eq!(m.reg(0xF), 0);
}

#[test]
fn subtract_with_borrow() {
    // V0 = 10, V1 = 20, V0 -= V1: borrow, VF = 0.
    let mut m = boot(&[0x60, 0x0A, 0x61, 0x14, 0x80, 0x15]);
    run(&mut m, 3);
    assert_eq!(m.reg(0), 246);
    assert_eq!(m.reg(0xF), 0);
}

#[test]
fn subtract_without_borrow() {
    // V0 = 20, V1 = 10, V0 -= V1: no borrow, VF = 1.
    let mut m = boot(&[0x60, 0x14, 0x61, 0x0A, 0x80, 0x15]);
    run(&mut m, 3);
    assert_eq!(m.reg(0), 10);
    assert_eq!(m.reg(0xF), 1);
}

#[test]
fn subtract_equal_values_flags_borrow() {
    // V0 = 7, V1 = 7: Vy >= Vx, so VF = 0.
    let mut m = boot(&[0x60, 0x07, 0x61, 0x07, 0x80, 0x15]);
    run(&mut m, 3);
    assert_eq!(m.reg(0), 0);
    assert_eq!(m.reg(0xF), 0);
}

#[test]
fn reverse_subtract() {
    // V0 = 5, V1 = 12, V0 = V1 - V0: VF = 1 (no borrow).
    let mut m = boot(&[0x60, 0x05, 0x61, 0x0C, 0x80, 0x17]);
    run(&mut m, 3);
    assert_eq!(m.reg(0), 7);
    assert_eq!(m.reg(0xF), 1);
}

#[test]
fn shift_right_flags_low_bit() {
    // V0 = 5: result 2, VF = 1.
    let mut m = boot(&[0x60, 0x05, 0x80, 0x06]);
    run(&mut m, 2);
    assert_eq!(m.reg(0), 2);
    assert_eq!(m.reg(0xF), 1);
}

#[test]
fn shift_left_keeps_raw_high_bit() {
    // V0 = 0x81: result 0x02; VF takes the raw masked high bit, 0x80.
    let mut m = boot(&[0x60, 0x81, 0x80, 0x0E]);
    run(&mut m, 2);
    assert_eq!(m.reg(0), 0x02);
    assert_eq!(m.reg(0xF), 0x80);
}

#[test]
fn bitwise_or_and_xor() {
    let mut m = boot(&[0x60, 0x0C, 0x61, 0x0A, 0x80, 0x11]);
    run(&mut m, 3);
    assert_eq!(m.reg(0), 0x0E);
    let mut m = boot(&[0x60, 0x0C, 0x61, 0x0A, 0x80, 0x12]);
    run(&mut m, 3);
    assert_eq!(m.reg(0), 0x08);
    let mut m = boot(&[0x60, 0x0C, 0x61, 0x0A, 0x80, 0x13]);
    run(&mut m, 3);
    assert_eq!(m.reg(0), 0x06);
}

#[test]
fn copy_register() {
    let mut m = boot(&[0x61, 0x2A, 0x80, 0x10]);
    run(&mut m, 2);
    assert_eq!(m.reg(0), 42);
}

#[test]
fn skip_if_equal_immediate() {
    // V0 = 3; skip taken: next instruction is jumped over.
    let mut m = boot(&[0x60, 0x03, 0x30, 0x03]);
    run(&mut m, 2);
    assert_eq!(m.pc(), 0x206);
    // Not taken.
    let mut m = boot(&[0x60, 0x03, 0x30, 0x04]);
    run(&mut m, 2);
    assert_eq!(m.pc(), 0x204);
}

#[test]
fn skip_if_not_equal_immediate() {
    let mut m = boot(&[0x60, 0x03, 0x40, 0x04]);
    run(&mut m, 2);
    assert_eq!(m.pc(), 0x206);
}

#[test]
fn skip_on_register_comparison() {
    // Equal registers: 5XY0 skips, 9XY0 does not.
    let mut m = boot(&[0x60, 0x07, 0x61, 0x07, 0x50, 0x10]);
    run(&mut m, 3);
    assert_eq!(m.pc(), 0x208);
    let mut m = boot(&[0x60, 0x07, 0x61, 0x07, 0x90, 0x10]);
    run(&mut m, 3);
    assert_eq!(m.pc(), 0x206);
}

#[test]
fn set_index_register() {
    let mut m = boot(&[0xA3, 0x21]);
    run(&mut m, 1);
    assert_eq!(m.index_reg(), 0x321);
}

#[test]
fn jump_with_offset() {
    // V0 = 4, then jump to 0x210 + V0.
    let mut m = boot(&[0x60, 0x04, 0xB2, 0x10]);
    run(&mut m, 2);
    assert_eq!(m.pc(), 0x214);
}

#[test]
fn random_with_zero_mask_is_zero() {
    // V0 = 0xAA first, then V0 = random & 0x00: the mask pins the result.
    let mut m = boot(&[0x60, 0xAA, 0xC0, 0x00]);
    m.cycle_with_random(0).unwrap();
    m.emulate_cycle().unwrap();
    assert_eq!(m.reg(0), 0);
}

#[test]
fn random_masks_given_byte() {
    // V0 = random & 0x0F with the random byte fixed at 0xAB.
    let mut m = boot(&[0xC0, 0x0F]);
    m.cycle_with_random(0xAB).unwrap();
    assert_eq!(m.reg(0), 0x0B);
}

#[test]
fn font_character_address() {
    // V0 = 0xA: I = 10 * 5.
    let mut m = boot(&[0x60, 0x0A, 0xF0, 0x29]);
    run(&mut m, 2);
    assert_eq!(m.index_reg(), 50);
}

#[test]
fn add_to_index() {
    let mut m = boot(&[0xA0, 0x10, 0x60, 0x05, 0xF0, 0x1E]);
    run(&mut m, 3);
    assert_eq!(m.index_reg(), 0x15);
}

#[test]
fn bcd_store_of_157() {
    // V0 = 157, I = 0x300, BCD store: digits 1, 5, 7.
    let mut m = boot(&[0x60, 0x9D, 0xA3, 0x00, 0xF0, 0x33]);
    run(&mut m, 3);
    assert_eq!(m.mem_byte(0x300), 1);
    assert_eq!(m.mem_byte(0x301), 5);
    assert_eq!(m.mem_byte(0x302), 7);
}

#[test]
fn block_store_then_load_round_trips() {
    let mut m = boot(&[
        0x60, 0x0B, // V0 = 11
        0x61, 0x16, // V1 = 22
        0x62, 0x21, // V2 = 33
        0xA3, 0x00, // I = 0x300
        0xF2, 0x55, // dump V0..=V2
        0x60, 0x00, 0x61, 0x00, 0x62, 0x00, // zero them
        0xF2, 0x65, // load V0..=V2 back
    ]);
    run(&mut m, 5);
    assert_eq!(m.mem_byte(0x300), 11);
    assert_eq!(m.mem_byte(0x301), 22);
    assert_eq!(m.mem_byte(0x302), 33);
    run(&mut m, 3);
    assert_eq!(m.reg(0), 0);
    run(&mut m, 1);
    assert_eq!(m.reg(0), 11);
    assert_eq!(m.reg(1), 22);
    assert_eq!(m.reg(2), 33);
}

#[test]
fn delay_timer_set_read_and_tick() {
    // V0 = 3, delay = V0; the set cycle already ticks it to 2.
    let mut m = boot(&[0x60, 0x03, 0xF0, 0x15, 0xF1, 0x07]);
    run(&mut m, 2);
    assert_eq!(m.delay(), 2);
    // V1 = delay reads the ticked value before this cycle's tick.
    run(&mut m, 1);
    assert_eq!(m.reg(1), 2);
    assert_eq!(m.delay(), 1);
}

#[test]
fn sound_timer_requests_tone_at_one() {
    // V0 = 2, sound = V0: no tone that cycle; the next cycle sees 1 and
    // requests the tone.
    let mut m = boot(&[0x60, 0x02, 0xF0, 0x18]);
    assert_eq!(m.cycle_with_random(0), Ok(false));
    assert_eq!(m.cycle_with_random(0), Ok(false));
    assert_eq!(m.sound(), 1);
    assert_eq!(m.cycle_with_random(0), Ok(true));
    assert_eq!(m.sound(), 0);
    assert_eq!(m.cycle_with_random(0), Ok(false));
}

#[test]
fn key_skip_instructions() {
    // V0 = 3; key 3 pressed: EX9E skips.
    let mut m = boot(&[0x60, 0x03, 0xE0, 0x9E]);
    m.set_key(3, 1);
    run(&mut m, 2);
    assert_eq!(m.pc(), 0x206);
    // Key 3 released: EXA1 skips.
    let mut m = boot(&[0x60, 0x03, 0xE0, 0xA1]);
    run(&mut m, 2);
    assert_eq!(m.pc(), 0x206);
    // Key 3 pressed: EXA1 does not skip.
    let mut m = boot(&[0x60, 0x03, 0xE0, 0xA1]);
    m.set_key(3, 1);
    run(&mut m, 2);
    assert_eq!(m.pc(), 0x204);
}

#[test]
fn wait_for_key_rewinds_until_pressed() {
    let mut m = boot(&[0xF0, 0x0A]);
    run(&mut m, 3);
    assert_eq!(m.pc(), 0x200);
    m.set_key(7, 1);
    run(&mut m, 1);
    assert_eq!(m.pc(), 0x202);
    // The register takes the detected slot's state value, which is 1,
    // not the key index.
    assert_eq!(m.reg(0), 1);
}

#[test]
fn unknown_opcodes_are_no_ops() {
    // 0x8XYF and 0xF0FF are undecoded: only the uniform +2 happens.
    let mut m = boot(&[0x60, 0x05, 0x80, 0x1F, 0xF0, 0xFF, 0x08, 0x00]);
    run(&mut m, 4);
    assert_eq!(m.pc(), 0x208);
    assert_eq!(m.reg(0), 5);
}
