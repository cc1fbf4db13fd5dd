//! Whole-machine behavior: reset, loading, drawing, control flow, faults.

use chip8::Fault;
use chip8::LoadError;
use chip8::State;

fn boot(prog: &[u8]) -> State {
    let mut m = State::new();
    m.initialize();
    m.load_buffer(prog).unwrap();
    m
}

fn run(m: &mut State, n: usize) {
    for _ in 0..n {
        m.cycle_with_random(0).unwrap();
    }
}

#[test]
fn new_machine_is_powered_off() {
    let mut m = State::new();
    assert_eq!(m.pc(), 0);
    assert_eq!(m.index_reg(), 0);
    assert_eq!(m.stack_depth(), 0);
    assert!(!m.draw_flag);
    assert_eq!(m.mem_byte(0), 0);
    let gfx = m.get_graphics_buffer();
    assert_eq!(gfx.len(), 2048);
    assert!(gfx.iter().all(|&c| c == 0));
}

#[test]
fn initialize_seeds_font_and_resets() {
    let mut m = State::new();
    m.initialize();
    assert_eq!(m.pc(), 0x200);
    assert_eq!(m.mem_byte(0), 0xF0);
    assert_eq!(m.mem_byte(4), 0xF0);
    assert_eq!(m.mem_byte(79), 0x80);
    assert_eq!(m.mem_byte(80), 0);
    for x in 0..16 {
        assert_eq!(m.reg(x), 0);
    }
}

#[test]
fn initialize_acts_as_power_cycle() {
    let mut m = boot(&[0x60, 0x2A, 0xA3, 0x00]);
    run(&mut m, 2);
    assert_eq!(m.reg(0), 42);
    m.initialize();
    assert_eq!(m.reg(0), 0);
    assert_eq!(m.index_reg(), 0);
    assert_eq!(m.pc(), 0x200);
    assert_eq!(m.mem_byte(0x200), 0);
}

#[test]
fn load_buffer_copies_at_program_start() {
    let mut m = State::new();
    m.initialize();
    assert_eq!(m.load_buffer(&[0xAB, 0xCD]), Ok(()));
    assert_eq!(m.mem_byte(0x200), 0xAB);
    assert_eq!(m.mem_byte(0x201), 0xCD);
    assert_eq!(m.mem_byte(0x202), 0);
}

#[test]
fn load_buffer_rejects_oversized_program() {
    let mut m = State::new();
    m.initialize();
    let exact = vec![7u8; 0xE00];
    assert_eq!(m.load_buffer(&exact), Ok(()));
    assert_eq!(m.mem_byte(0xFFF), 7);
    let long = vec![9u8; 0xE01];
    assert_eq!(m.load_buffer(&long), Err(LoadError::TooLong));
    // Memory is untouched by the rejected load.
    assert_eq!(m.mem_byte(0x200), 7);
    assert_eq!(m.mem_byte(0xFFF), 7);
}

#[test]
fn draw_font_zero_glyph() {
    // I = 0 after reset: draw the '0' glyph, 5 rows, at (V0, V0) = (0, 0).
    let mut m = boot(&[0xD0, 0x05]);
    run(&mut m, 1);
    assert!(m.draw_flag);
    assert_eq!(m.reg(0xF), 0);
    let gfx = m.get_graphics_buffer();
    let glyph: [u8; 5] = [0xF0, 0x90, 0x90, 0x90, 0xF0];
    for row in 0..32 {
        for col in 0..64 {
            let expected = if row < 5 && col < 8 {
                (glyph[row] >> (7 - col)) & 1
            } else {
                0
            };
            assert_eq!(gfx[row * 64 + col], expected);
        }
    }
}

#[test]
fn draw_twice_erases_and_reports_collision() {
    let mut m = boot(&[0xD0, 0x05, 0xD0, 0x05]);
    run(&mut m, 2);
    assert_eq!(m.reg(0xF), 1);
    let gfx = m.get_graphics_buffer();
    assert!(gfx.iter().all(|&c| c == 0));
}

#[test]
fn clear_screen_zeroes_pixels_and_keeps_registers() {
    let mut m = boot(&[0x61, 0x2A, 0xD0, 0x05, 0x00, 0xE0]);
    run(&mut m, 3);
    let gfx = m.get_graphics_buffer();
    assert!(gfx.iter().all(|&c| c == 0));
    assert_eq!(m.reg(1), 42);
    assert_eq!(m.reg(0xF), 0);
}

#[test]
fn call_then_return_restores_pc() {
    // CALL 0x210 at 0x200. The call target is not compensated for the
    // driver's +2, so execution resumes at 0x212; a RETURN stands at both
    // 0x210 and 0x212.
    let mut prog = vec![0u8; 0x14];
    prog[0x00] = 0x22;
    prog[0x01] = 0x10;
    prog[0x10] = 0x00;
    prog[0x11] = 0xEE;
    prog[0x12] = 0x00;
    prog[0x13] = 0xEE;
    let mut m = boot(&prog);
    run(&mut m, 1);
    assert_eq!(m.pc(), 0x212);
    assert_eq!(m.stack_depth(), 1);
    run(&mut m, 1);
    assert_eq!(m.pc(), 0x202);
    assert_eq!(m.stack_depth(), 0);
}

#[test]
fn seventeen_nested_calls_overflow_the_stack() {
    // CALL 0x200 at 0x200 and again at 0x202: every cycle executes one
    // more CALL without ever returning.
    let mut m = boot(&[0x22, 0x00, 0x22, 0x00]);
    for depth in 1..=16 {
        assert_eq!(m.cycle_with_random(0), Ok(false));
        assert_eq!(m.stack_depth(), depth);
    }
    assert_eq!(m.cycle_with_random(0), Err(Fault::StackOverflow));
    // The failed call changed nothing.
    assert_eq!(m.stack_depth(), 16);
    assert_eq!(m.pc(), 0x202);
}

#[test]
fn return_with_empty_stack_underflows() {
    let mut m = boot(&[0x00, 0xEE]);
    assert_eq!(m.cycle_with_random(0), Err(Fault::StackUnderflow));
    assert_eq!(m.pc(), 0x200);
}

#[test]
fn jump_to_own_address_self_loops() {
    // JUMP 0x200 at 0x200: the +2 step nets to the literal target.
    let mut m = boot(&[0x12, 0x00]);
    run(&mut m, 1);
    assert_eq!(m.pc(), 0x200);
    run(&mut m, 5);
    assert_eq!(m.pc(), 0x200);
}

#[test]
fn fetch_past_memory_end_faults() {
    // JUMP 0xFFF: the next fetch needs the byte at 0x1000.
    let mut m = boot(&[0x1F, 0xFF]);
    run(&mut m, 1);
    assert_eq!(m.pc(), 0xFFF);
    assert_eq!(m.cycle_with_random(0), Err(Fault::OutOfBoundsFetch));
    assert_eq!(m.pc(), 0xFFF);
}

#[test]
fn key_skip_with_out_of_range_slot_faults() {
    let mut m = boot(&[0x60, 0x10, 0xE0, 0x9E]);
    run(&mut m, 1);
    assert_eq!(m.cycle_with_random(0), Err(Fault::KeyOutOfRange));
}

#[test]
fn bcd_store_past_memory_end_faults() {
    let mut m = boot(&[0xAF, 0xFE, 0xF0, 0x33]);
    run(&mut m, 1);
    assert_eq!(m.cycle_with_random(0), Err(Fault::OutOfBoundsMemory));
}

#[test]
fn sprite_read_past_memory_end_faults() {
    let mut m = boot(&[0xAF, 0xFE, 0xD0, 0x05]);
    run(&mut m, 1);
    assert_eq!(m.cycle_with_random(0), Err(Fault::OutOfBoundsMemory));
    assert!(!m.draw_flag);
}

#[test]
fn block_store_past_memory_end_faults() {
    let mut m = boot(&[0xAF, 0xFE, 0xF2, 0x55]);
    run(&mut m, 1);
    assert_eq!(m.cycle_with_random(0), Err(Fault::OutOfBoundsMemory));
}

#[test]
fn set_key_ignores_out_of_range_indices() {
    // Key 16 does not exist; setting it must not disturb key 0.
    let mut m = boot(&[0x60, 0x00, 0xE0, 0x9E]);
    m.set_key(16, 1);
    run(&mut m, 2);
    // No skip happened: key 0 is still released.
    assert_eq!(m.pc(), 0x204);
}

#[test]
fn draw_flag_stays_for_caller_to_clear() {
    let mut m = boot(&[0xD0, 0x01, 0x12, 0x02]);
    run(&mut m, 1);
    assert!(m.draw_flag);
    run(&mut m, 3);
    assert!(m.draw_flag);
    m.draw_flag = false;
    run(&mut m, 1);
    assert!(!m.draw_flag);
}
