use phantom::cpu::{Cpu, FixedRandSource};
use phantom::font::{FONT_SET, FONT_START};
use phantom::PROGRAM_START;

fn cpu() -> Cpu {
    Cpu::with_seed(1)
}

#[test]
fn test_6xnn_sets_vx() {
    let mut c = cpu();
    c.load_program(&[0x62AB]);
    c.step();
    assert_eq!(c.v[2], 0xAB);
    assert_eq!(c.pc, PROGRAM_START + 2);
}

#[test]
fn test_7xnn_adds_without_carry_flag() {
    let mut c = cpu();
    c.v[3] = 0x10;
    c.v[0xF] = 0x55;
    c.load_program(&[0x7305]);
    c.step();
    assert_eq!(c.v[3], 0x15);
    assert_eq!(c.v[0xF], 0x55, "7XNN must not touch VF");
}

#[test]
fn test_7xnn_wraps_on_overflow() {
    let mut c = cpu();
    c.v[3] = 0xFF;
    c.load_program(&[0x7302]);
    c.step();
    assert_eq!(c.v[3], 0x01);
}

#[test]
fn test_8xy4_sets_vf_carry() {
    let mut c = cpu();
    c.v[0] = 0xFF;
    c.v[1] = 0x01;
    c.load_program(&[0x8014]);
    c.step();
    assert_eq!(c.v[0], 0x00);
    assert_eq!(c.v[0xF], 1, "carry must be set on overflow");
}

#[test]
fn test_8xy4_clears_vf_when_no_carry() {
    let mut c = cpu();
    c.v[0] = 0x01;
    c.v[1] = 0x01;
    c.load_program(&[0x8014]);
    c.step();
    assert_eq!(c.v[0], 0x02);
    assert_eq!(c.v[0xF], 0, "carry must be cleared without overflow");
}

#[test]
fn test_8xy5_sets_vf_on_no_borrow() {
    let mut c = cpu();
    c.v[0] = 0x05;
    c.v[1] = 0x02;
    c.load_program(&[0x8015]);
    c.step();
    assert_eq!(c.v[0], 0x03);
    assert_eq!(c.v[0xF], 1, "VF=1 means no borrow occurred");
}

#[test]
fn test_8xy5_clears_vf_on_borrow() {
    let mut c = cpu();
    c.v[0] = 0x01;
    c.v[1] = 0x05;
    c.load_program(&[0x8015]);
    c.step();
    assert_eq!(c.v[0], 0xFC);
    assert_eq!(c.v[0xF], 0, "VF=0 means a borrow occurred");
}

#[test]
fn test_8xy6_shift_right_sets_vf_to_dropped_bit() {
    let mut c = cpu();
    c.v[0] = 0b0000_0011;
    c.load_program(&[0x8016]);
    c.step();
    assert_eq!(c.v[0], 0b0000_0001);
    assert_eq!(c.v[0xF], 1);
}

#[test]
fn test_8xye_shift_left_sets_vf_to_dropped_bit() {
    let mut c = cpu();
    c.v[0] = 0b1000_0001;
    c.load_program(&[0x801E]);
    c.step();
    assert_eq!(c.v[0], 0b0000_0010);
    assert_eq!(c.v[0xF], 1);
}

#[test]
fn test_annn_sets_i() {
    let mut c = cpu();
    c.load_program(&[0xA123]);
    c.step();
    assert_eq!(c.i, 0x123);
}

#[test]
fn test_3xnn_skips_when_equal() {
    let mut c = cpu();
    c.v[0] = 0x42;
    c.load_program(&[0x3042, 0x6001, 0x6002]);
    c.step();
    assert_eq!(c.pc, PROGRAM_START + 4, "should skip the 6001 instruction");
    c.step();
    assert_eq!(c.v[0], 0x02);
}

#[test]
fn test_3xnn_does_not_skip_when_not_equal() {
    let mut c = cpu();
    c.v[0] = 0x01;
    c.load_program(&[0x3042, 0x6009]);
    c.step();
    assert_eq!(c.pc, PROGRAM_START + 2);
}

#[test]
fn test_4xnn_skips_when_not_equal() {
    let mut c = cpu();
    c.v[0] = 0x01;
    c.load_program(&[0x4042]);
    c.step();
    assert_eq!(c.pc, PROGRAM_START + 4);
}

#[test]
fn test_5xy0_skips_when_equal() {
    let mut c = cpu();
    c.v[0] = 5;
    c.v[1] = 5;
    c.load_program(&[0x5010]);
    c.step();
    assert_eq!(c.pc, PROGRAM_START + 4);
}

#[test]
fn test_9xy0_skips_when_not_equal() {
    let mut c = cpu();
    c.v[0] = 5;
    c.v[1] = 6;
    c.load_program(&[0x9010]);
    c.step();
    assert_eq!(c.pc, PROGRAM_START + 4);
}

#[test]
fn test_1nnn_jump() {
    let mut c = cpu();
    c.load_program(&[0x1300]);
    c.step();
    assert_eq!(c.pc, 0x300);
}

#[test]
fn test_2nnn_call_and_00ee_return() {
    let mut c = cpu();
    c.load_program(&[0x2300]);
    c.step();
    assert_eq!(c.pc, 0x300);
    assert_eq!(c.sp, 1);
    assert_eq!(c.stack[0], PROGRAM_START + 2);

    c.memory[0x300] = 0x00;
    c.memory[0x301] = 0xEE;
    c.step();
    assert_eq!(c.pc, PROGRAM_START + 2);
    assert_eq!(c.sp, 0);
}

#[test]
fn test_bnnn_jump_plus_v0() {
    let mut c = cpu();
    c.v[0] = 0x05;
    c.load_program(&[0xB300]);
    c.step();
    assert_eq!(c.pc, 0x305);
}

#[test]
fn test_cxnn_masks_random_byte() {
    let mut c = Cpu::with_rand_source(Box::new(FixedRandSource::new(vec![0xFF])));
    c.load_program(&[0xC00F]);
    c.step();
    assert_eq!(c.v[0], 0x0F, "random byte must be masked by NN");
}

#[test]
fn test_00e0_clears_display() {
    let mut c = cpu();
    c.display.xor_pixel(0, 0, true);
    assert!(c.display.get(0, 0));
    c.load_program(&[0x00E0]);
    c.step();
    assert!(!c.display.get(0, 0));
}

#[test]
fn test_dxyn_draws_sprite_and_sets_vf_on_collision() {
    let mut c = cpu();
    // I -> font digit 0 (5-byte sprite), drawn twice at the same spot.
    c.v[0xA] = 0;
    c.load_program(&[0xF029, 0xD005, 0xD005]);
    c.step(); // FX29: I = font sprite for digit 0
    c.step(); // first draw: no collision yet
    assert_eq!(c.v[0xF], 0, "first draw should not collide");
    assert!(c.display.get(0, 0), "top-left pixel of '0' glyph should be set");
    c.step(); // second draw over same pixels: full collision, erases them
    assert_eq!(c.v[0xF], 1, "redrawing the same sprite must set VF on collision");
    assert!(!c.display.get(0, 0), "XOR draw should have erased the pixel");
}

#[test]
fn test_dxyn_wraps_around_edges() {
    let mut c = cpu();
    c.v[0] = 63; // x
    c.v[1] = 0; // y
    c.i = 0x300;
    c.memory[0x300] = 0b1100_0000;
    c.load_program(&[0xD011]);
    c.step();
    assert!(c.display.get(63, 0));
    assert!(c.display.get(0, 0), "sprite must wrap past the right edge");
}

#[test]
fn test_ex9e_skips_when_key_pressed() {
    let mut c = cpu();
    c.v[0] = 3;
    c.keys[3] = true;
    c.load_program(&[0xE09E]);
    c.step();
    assert_eq!(c.pc, PROGRAM_START + 4);
}

#[test]
fn test_exa1_skips_when_key_not_pressed() {
    let mut c = cpu();
    c.v[0] = 3;
    c.load_program(&[0xE0A1]);
    c.step();
    assert_eq!(c.pc, PROGRAM_START + 4);
}

#[test]
fn test_fx07_and_fx15_timer_roundtrip() {
    let mut c = cpu();
    c.v[0] = 42;
    c.load_program(&[0xF015, 0xF007]);
    c.step();
    assert_eq!(c.delay_timer, 42);
    c.step();
    assert_eq!(c.v[0], 42);
}

#[test]
fn test_fx0a_blocks_until_key_press() {
    let mut c = cpu();
    c.load_program(&[0xF00A, 0x6199]);
    c.step();
    assert!(c.waiting_for_key.is_some());
    let pc_before = c.pc;
    c.step(); // should be a no-op, still waiting
    assert_eq!(c.pc, pc_before);
    c.key_press(7);
    assert_eq!(c.v[0], 7);
    assert!(c.waiting_for_key.is_none());
    c.step();
    assert_eq!(c.v[1], 0x99);
}

#[test]
fn test_fx1e_adds_to_i() {
    let mut c = cpu();
    c.v[0] = 0x10;
    c.i = 0x200;
    c.load_program(&[0xF01E]);
    c.step();
    assert_eq!(c.i, 0x210);
}

#[test]
fn test_fx29_sets_i_to_font_glyph() {
    let mut c = cpu();
    c.v[0] = 0xA;
    c.load_program(&[0xF029]);
    c.step();
    assert_eq!(c.i, (FONT_START as u16) + 0xA * 5);
}

#[test]
fn test_fx33_writes_bcd_digits() {
    let mut c = cpu();
    c.v[0] = 195;
    c.i = 0x300;
    c.load_program(&[0xF033]);
    c.step();
    assert_eq!(c.memory[0x300], 1);
    assert_eq!(c.memory[0x301], 9);
    assert_eq!(c.memory[0x302], 5);
}

#[test]
fn test_fx33_zero() {
    let mut c = cpu();
    c.v[0] = 0;
    c.i = 0x300;
    c.load_program(&[0xF033]);
    c.step();
    assert_eq!(c.memory[0x300], 0);
    assert_eq!(c.memory[0x301], 0);
    assert_eq!(c.memory[0x302], 0);
}

#[test]
fn test_fx55_stores_registers_to_memory() {
    let mut c = cpu();
    c.v[0] = 1;
    c.v[1] = 2;
    c.v[2] = 3;
    c.i = 0x300;
    c.load_program(&[0xF255]);
    c.step();
    assert_eq!(c.memory[0x300], 1);
    assert_eq!(c.memory[0x301], 2);
    assert_eq!(c.memory[0x302], 3);
    assert_eq!(c.i, 0x303, "I should advance past the stored registers");
}

#[test]
fn test_fx65_loads_registers_from_memory() {
    let mut c = cpu();
    c.i = 0x300;
    c.memory[0x300] = 9;
    c.memory[0x301] = 8;
    c.memory[0x302] = 7;
    c.load_program(&[0xF265]);
    c.step();
    assert_eq!(c.v[0], 9);
    assert_eq!(c.v[1], 8);
    assert_eq!(c.v[2], 7);
    assert_eq!(c.i, 0x303);
}

#[test]
fn test_small_program_runs_n_steps_and_reaches_expected_state() {
    let mut c = cpu();
    // V0 = 5, V1 = 10, V0 += V1, I = 0x400, skip if V0 == 15, V2 = 0xAA (skipped)
    c.load_program(&[
        0x6005, // V0 = 5
        0x610A, // V1 = 10
        0x8014, // V0 += V1 (VF carry)
        0xA400, // I = 0x400
        0x300F, // skip next if V0 == 15
        0x62AA, // V2 = 0xAA (should be skipped)
        0x63BB, // V3 = 0xBB (should execute)
    ]);
    for _ in 0..6 {
        c.step();
    }
    assert_eq!(c.v[0], 15);
    assert_eq!(c.v[1], 10);
    assert_eq!(c.v[0xF], 0);
    assert_eq!(c.i, 0x400);
    assert_eq!(c.v[2], 0, "V2 write should have been skipped");
    assert_eq!(c.v[3], 0xBB);
}

#[test]
fn test_tick_timers_decrements_and_floors_at_zero() {
    let mut c = cpu();
    c.delay_timer = 1;
    c.sound_timer = 0;
    c.tick_timers();
    assert_eq!(c.delay_timer, 0);
    assert_eq!(c.sound_timer, 0);
    c.tick_timers();
    assert_eq!(c.delay_timer, 0);
}

#[test]
fn test_font_loaded_at_start() {
    let c = cpu();
    assert_eq!(
        &c.memory[FONT_START..FONT_START + 5],
        &FONT_SET[0..5],
        "digit 0 glyph should be loaded into memory"
    );
}
