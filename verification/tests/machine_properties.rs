use phantom::cpu::{Cpu, FixedRandSource, RandSlot, RandSource, StdRandSource};
use phantom::demo::demo_rom;
use phantom::display::{Display, DISPLAY_HEIGHT, DISPLAY_SIZE, DISPLAY_WIDTH};
use phantom::font::{FONT_SET, FONT_START};
use phantom::{MEMORY_SIZE, PROGRAM_START};

fn cpu() -> Cpu {
    Cpu::with_seed(1)
}

#[test]
fn new_cpu_starts_at_program_start_with_zeroed_state() {
    let c = Cpu::new().expect("the operating system supplies entropy");
    assert_eq!(c.pc, PROGRAM_START);
    assert_eq!(c.i, 0);
    assert_eq!(c.sp, 0);
    assert_eq!(c.v, [0u8; 16]);
    assert_eq!(c.stack, [0u16; 16]);
    assert_eq!(c.delay_timer, 0);
    assert_eq!(c.sound_timer, 0);
    assert!(c.waiting_for_key.is_none());
    assert!(c.display.pixels().iter().all(|p| !*p));
    assert_eq!(&c.memory[FONT_START..FONT_START + FONT_SET.len()], &FONT_SET[..]);
    assert_eq!(c.memory[FONT_START - 1], 0);
    assert_eq!(c.memory[FONT_START + FONT_SET.len()], 0);
    assert_eq!(c.memory[MEMORY_SIZE - 1], 0);
}

#[test]
fn load_rom_copies_bytes_at_program_start() {
    let mut c = cpu();
    c.load_rom(&[1, 2, 3]);
    assert_eq!(c.memory[0x1FF], 0);
    assert_eq!(&c.memory[0x200..0x203], &[1, 2, 3]);
    assert_eq!(c.memory[0x203], 0);
}

#[test]
fn load_rom_fills_memory_to_the_end() {
    let mut c = cpu();
    let rom = vec![0xAA; MEMORY_SIZE - PROGRAM_START as usize];
    c.load_rom(&rom);
    assert_eq!(c.memory[MEMORY_SIZE - 1], 0xAA);
}

#[test]
fn load_program_stores_opcodes_big_endian() {
    let mut c = cpu();
    c.load_program(&[0x1234, 0xABCD]);
    assert_eq!(&c.memory[0x200..0x204], &[0x12, 0x34, 0xAB, 0xCD]);
}

#[test]
fn step_while_waiting_changes_nothing() {
    let mut c = cpu();
    c.load_program(&[0xF30A, 0x6001]);
    c.step();
    assert_eq!(c.waiting_for_key, Some(3));
    let pc = c.pc;
    for _ in 0..5 {
        c.step();
    }
    assert_eq!(c.pc, pc);
    assert_eq!(c.v[0], 0);
}

#[test]
fn key_press_resumes_and_stores_key() {
    let mut c = cpu();
    c.load_program(&[0xF50A]);
    c.step();
    c.key_press(0xB);
    assert_eq!(c.v[5], 0xB);
    assert!(c.keys[0xB]);
    assert!(c.waiting_for_key.is_none());
}

#[test]
fn key_press_wraps_key_index_and_release_clears_it() {
    let mut c = cpu();
    c.key_press(0x13);
    assert!(c.keys[3]);
    c.key_release(0x23);
    assert!(!c.keys[3]);
}

#[test]
fn cxnn_uses_only_bits_of_nn() {
    let mut c = Cpu::with_rand_source(Box::new(FixedRandSource::new(vec![0xAB])));
    c.load_program(&[0xC3F0]);
    c.step();
    assert_eq!(c.v[3], 0xA0);
}

#[test]
fn cxnn_draws_bytes_in_order_and_other_opcodes_draw_none() {
    let mut c = Cpu::with_rand_source(Box::new(FixedRandSource::new(vec![0x11, 0x22])));
    c.load_program(&[0xC0FF, 0x6501, 0xC1FF, 0xC2FF]);
    for _ in 0..4 {
        c.step();
    }
    assert_eq!(c.v[0], 0x11);
    assert_eq!(c.v[1], 0x22);
    assert_eq!(c.v[2], 0x11);
}

#[test]
fn fixed_rand_source_cycles_through_its_values() {
    let mut s = FixedRandSource::new(vec![1, 2, 3]);
    let got: Vec<u8> = (0..7).map(|_| s.next_byte()).collect();
    assert_eq!(got, vec![1, 2, 3, 1, 2, 3, 1]);
}

#[test]
fn with_seed_uses_the_seeded_generator() {
    let mut expected = StdRandSource::from_seed(11);
    let mut c = Cpu::with_seed(11);
    c.load_program(&[0xC0FF, 0xC1FF]);
    c.step();
    c.step();
    assert_eq!(c.v[0], expected.next_byte());
    assert_eq!(c.v[1], expected.next_byte());
}

#[test]
fn seeded_sources_agree() {
    let mut a = StdRandSource::from_seed(7);
    let mut b = StdRandSource::from_seed(7);
    for _ in 0..8 {
        assert_eq!(a.next_byte(), b.next_byte());
    }
    let mut e = StdRandSource::from_entropy().expect("the operating system supplies entropy");
    let _ = e.next_byte();
}

#[test]
fn call_then_return_restores_pc_and_sp() {
    let mut c = cpu();
    c.load_program(&[0x2206, 0x6001, 0x6002, 0x00EE]);
    c.step();
    assert_eq!(c.pc, 0x206);
    assert_eq!(c.sp, 1);
    c.step();
    assert_eq!(c.pc, 0x202);
    assert_eq!(c.sp, 0);
    c.step();
    assert_eq!(c.v[0], 1);
}

#[test]
fn store_then_load_registers_roundtrip() {
    let mut c = cpu();
    for k in 0..16 {
        c.v[k] = (k as u8) * 3 + 1;
    }
    let original = c.v;
    c.i = 0x400;
    c.load_program(&[0xFF55, 0xA400, 0x6000, 0x6F00, 0xFF65]);
    c.step();
    assert_eq!(c.i, 0x410);
    for _ in 0..4 {
        c.step();
    }
    assert_eq!(c.v, original);
    assert_eq!(c.i, 0x410);
}

#[test]
fn bcd_of_largest_byte() {
    let mut c = cpu();
    c.v[4] = 255;
    c.i = 0x300;
    c.load_program(&[0xF433]);
    c.step();
    assert_eq!(&c.memory[0x300..0x303], &[2, 5, 5]);
}

#[test]
fn fx29_points_at_glyph_of_low_nibble() {
    let mut c = cpu();
    c.v[1] = 0x1F;
    c.load_program(&[0xF129]);
    c.step();
    assert_eq!(c.i as usize, FONT_START + 0xF * 5);
    assert_eq!(&c.memory[c.i as usize..c.i as usize + 5], &FONT_SET[75..80]);
}

#[test]
fn fx1e_wraps_i() {
    let mut c = cpu();
    c.i = 0xFFFF;
    c.v[0] = 2;
    c.load_program(&[0xF01E]);
    c.step();
    assert_eq!(c.i, 1);
}

#[test]
fn fx18_sets_sound_timer() {
    let mut c = cpu();
    c.v[6] = 9;
    c.load_program(&[0xF618]);
    c.step();
    assert_eq!(c.sound_timer, 9);
}

#[test]
fn logic_ops_reset_vf() {
    let mut c = cpu();
    c.v[0] = 0b1100;
    c.v[1] = 0b1010;
    c.v[0xF] = 7;
    c.load_program(&[0x8011]);
    c.step();
    assert_eq!(c.v[0], 0b1110);
    assert_eq!(c.v[0xF], 0);

    let mut c = cpu();
    c.v[0] = 0b1100;
    c.v[1] = 0b1010;
    c.v[0xF] = 7;
    c.load_program(&[0x8012, 0x8013]);
    c.step();
    assert_eq!(c.v[0], 0b1000);
    assert_eq!(c.v[0xF], 0);
    c.v[0xF] = 7;
    c.step();
    assert_eq!(c.v[0], 0b0010);
    assert_eq!(c.v[0xF], 0);
}

#[test]
fn assign_register_8xy0() {
    let mut c = cpu();
    c.v[2] = 0x77;
    c.load_program(&[0x8120]);
    c.step();
    assert_eq!(c.v[1], 0x77);
}

#[test]
fn reverse_subtract_8xy7() {
    let mut c = cpu();
    c.v[0] = 2;
    c.v[1] = 5;
    c.load_program(&[0x8017, 0x8017]);
    c.step();
    assert_eq!(c.v[0], 3);
    assert_eq!(c.v[0xF], 1);
    c.v[1] = 1;
    c.step();
    assert_eq!(c.v[0], 0xFE);
    assert_eq!(c.v[0xF], 0);
}

#[test]
fn carry_wins_when_vf_is_the_target() {
    let mut c = cpu();
    c.v[0xF] = 0xFF;
    c.v[1] = 0x01;
    c.load_program(&[0x8F14]);
    c.step();
    assert_eq!(c.v[0xF], 1);
}

#[test]
fn unknown_opcodes_only_advance_pc() {
    let mut c = cpu();
    c.load_program(&[0x0123, 0x8018, 0xE0FF, 0xF0FF]);
    for _ in 0..4 {
        c.step();
    }
    assert_eq!(c.pc, PROGRAM_START + 8);
    assert_eq!(c.v, [0u8; 16]);
}

#[test]
fn draw_twice_restores_display() {
    let mut c = cpu();
    c.v[2] = 60;
    c.v[3] = 30;
    c.i = 0x300;
    c.memory[0x300] = 0xFF;
    c.memory[0x301] = 0x81;
    c.memory[0x302] = 0xFF;
    c.display.xor_pixel(62, 30, true);
    let before: Vec<bool> = c.display.pixels().to_vec();
    c.load_program(&[0xD233, 0xD233]);
    c.step();
    assert_eq!(c.v[0xF], 1, "pixel (62, 30) was lit before the first draw");
    assert!(c.display.get(60, 31));
    assert!(c.display.get(3, 31), "row 1 wraps past the right edge");
    assert!(c.display.get(1, 0), "wraps right and down");
    c.step();
    assert_eq!(c.v[0xF], 1, "some covered pixel was dark before the first draw");
    assert_eq!(c.display.pixels().to_vec(), before);
}

#[test]
fn draw_with_zero_rows_changes_nothing() {
    let mut c = cpu();
    c.display.xor_pixel(0, 0, true);
    c.i = 0xFFFF;
    c.load_program(&[0xD000]);
    assert!(c.can_step());
    c.step();
    assert_eq!(c.v[0xF], 0);
    assert!(c.display.get(0, 0));
}

#[test]
fn timers_count_down_to_zero() {
    let mut c = cpu();
    c.delay_timer = 3;
    c.sound_timer = 1;
    for _ in 0..5 {
        c.tick_timers();
    }
    assert_eq!(c.delay_timer, 0);
    assert_eq!(c.sound_timer, 0);
    c.delay_timer = 10;
    c.tick_timers();
    c.tick_timers();
    assert_eq!(c.delay_timer, 8);
}

#[test]
fn can_step_reports_stack_and_memory_limits() {
    let mut c = cpu();
    c.load_program(&[0x00EE]);
    assert!(!c.can_step(), "return with an empty stack");

    let mut c = cpu();
    c.sp = 16;
    c.load_program(&[0x2300]);
    assert!(!c.can_step(), "call with a full stack");

    let mut c = cpu();
    c.pc = (MEMORY_SIZE - 1) as u16;
    assert!(!c.can_step(), "opcode would run past the end of memory");

    let mut c = cpu();
    c.i = (MEMORY_SIZE - 2) as u16;
    c.load_program(&[0xF033]);
    assert!(!c.can_step(), "BCD would write past the end of memory");

    let mut c = cpu();
    c.i = (MEMORY_SIZE - 2) as u16;
    c.load_program(&[0xF255]);
    assert!(!c.can_step(), "register dump would write past the end of memory");
    c.i = (MEMORY_SIZE - 3) as u16;
    assert!(c.can_step());

    let mut c = cpu();
    c.i = (MEMORY_SIZE - 2) as u16;
    c.load_program(&[0xD013]);
    assert!(!c.can_step(), "sprite would be read past the end of memory");

    let mut c = cpu();
    c.load_program(&[0x6001]);
    assert!(c.can_step());
    c.waiting_for_key = Some(0);
    c.pc = 0xFFFF;
    assert!(c.can_step(), "a waiting CPU does nothing");
}

#[test]
fn execute_runs_a_decoded_opcode_with_a_given_random_byte() {
    let mut c = cpu();
    c.execute(0xC53C, 0xFF);
    assert_eq!(c.v[5], 0x3C);
    assert_eq!(c.pc, PROGRAM_START);
}

#[test]
fn display_wraps_coordinates() {
    let mut d = Display::new();
    assert!(!d.xor_pixel(DISPLAY_WIDTH + 1, DISPLAY_HEIGHT + 2, true));
    assert!(d.get(1, 2));
    assert!(d.get(1 + 2 * DISPLAY_WIDTH, 2 + 3 * DISPLAY_HEIGHT));
    assert!(d.pixels()[2 * DISPLAY_WIDTH + 1]);
    assert_eq!(d.pixels().len(), DISPLAY_SIZE);
}

#[test]
fn xor_pixel_reports_collision_and_toggles() {
    let mut d = Display::default();
    assert!(!d.xor_pixel(5, 5, false));
    assert!(!d.get(5, 5));
    assert!(!d.xor_pixel(5, 5, true));
    assert!(d.get(5, 5));
    assert!(!d.xor_pixel(5, 5, false), "XOR with off never collides");
    assert!(d.get(5, 5));
    assert!(d.xor_pixel(5, 5, true));
    assert!(!d.get(5, 5));
}

#[test]
fn clear_turns_every_pixel_off() {
    let mut d = Display::new();
    d.xor_pixel(0, 0, true);
    d.xor_pixel(63, 31, true);
    d.clear();
    assert!(d.pixels().iter().all(|p| !*p));
}

#[test]
fn render_text_draws_rows() {
    let mut d = Display::new();
    d.xor_pixel(0, 0, true);
    d.xor_pixel(63, 31, true);
    let text = d.render_text();
    let lines: Vec<&str> = text.split('\n').collect();
    assert_eq!(text.len(), DISPLAY_HEIGHT * (DISPLAY_WIDTH + 1));
    assert_eq!(lines.len(), DISPLAY_HEIGHT + 1);
    assert_eq!(lines[0], format!("#{}", " ".repeat(63)));
    assert_eq!(lines[1], " ".repeat(64));
    assert_eq!(lines[31], format!("{}#", " ".repeat(63)));
    assert_eq!(lines[32], "");
}

#[test]
fn demo_rom_draws_then_moves() {
    let rom = demo_rom();
    assert_eq!(rom.len(), 18);
    assert_eq!(&rom[8..10], &[0xD0, 0x15]);
    let mut c = cpu();
    c.load_rom(&rom);
    for _ in 0..5 {
        c.step();
    }
    assert!(c.display.get(5, 5), "top-left of the 0 glyph at (5, 5)");
    for _ in 0..4 {
        c.step();
    }
    assert_eq!(c.pc, 0x208);
    assert_eq!((c.v[0], c.v[1]), (6, 6));
    c.step();
    assert!(c.display.get(6, 6));
}

#[test]
fn run_frame_steps_then_ticks() {
    let mut c = cpu();
    c.delay_timer = 5;
    c.load_program(&[0x6001, 0x6102, 0x6203, 0x6304]);
    assert!(c.run_frame(3));
    assert_eq!(c.pc, PROGRAM_START + 6);
    assert_eq!((c.v[0], c.v[1], c.v[2], c.v[3]), (1, 2, 3, 0));
    assert_eq!(c.delay_timer, 4);
    assert!(c.run_frame(0));
    assert_eq!(c.pc, PROGRAM_START + 6);
    assert_eq!(c.delay_timer, 3);
}

#[test]
fn run_frame_stops_before_a_step_that_leaves_the_machine() {
    let mut c = cpu();
    c.delay_timer = 5;
    c.load_program(&[0x6007, 0x00EE, 0x6108]);
    assert!(!c.run_frame(9));
    assert_eq!(c.v[0], 7);
    assert_eq!(c.pc, PROGRAM_START + 2, "stopped before the return with an empty stack");
    assert_eq!(c.delay_timer, 5, "no tick after an unfinished frame");
}

#[test]
fn fixed_rand_source_returns_values_in_draw_order() {
    let mut s = FixedRandSource::new(vec![9]);
    for _ in 0..5 {
        assert_eq!(s.next_byte(), 9);
    }
}

#[test]
fn waiting_cpu_draws_no_random_byte() {
    let mut c = Cpu::with_rand_source(Box::new(FixedRandSource::new(vec![0x01, 0x02])));
    c.load_program(&[0xF00A, 0xC1FF]);
    c.step();
    c.step();
    c.step();
    c.key_press(0);
    c.step();
    assert_eq!(c.v[1], 0x01, "the first byte is still unused");
}

#[test]
fn return_undoes_call_after_other_steps() {
    let mut c = cpu();
    c.load_program(&[0x2204, 0x6001, 0x6205, 0x7301, 0xA300, 0x00EE]);
    c.step();
    for _ in 0..3 {
        c.step();
    }
    assert_eq!(c.sp, 1);
    assert_eq!(c.pc, 0x20A);
    c.step();
    assert_eq!(c.pc, PROGRAM_START + 2);
    assert_eq!(c.sp, 0);
}

#[test]
fn delay_timer_reads_back_into_another_register() {
    let mut c = cpu();
    c.v[2] = 33;
    c.load_program(&[0xF215, 0x6055, 0xF707]);
    for _ in 0..3 {
        c.step();
    }
    assert_eq!(c.v[7], 33);
    assert_eq!(c.delay_timer, 33);
}

#[test]
fn load_restores_registers_overwritten_after_store() {
    let mut c = cpu();
    c.v[0] = 4;
    c.v[1] = 5;
    c.v[2] = 6;
    c.i = 0x400;
    c.load_program(&[0xF255, 0x6000, 0x6100, 0x6200, 0xA400, 0xF265]);
    for _ in 0..6 {
        c.step();
    }
    assert_eq!((c.v[0], c.v[1], c.v[2]), (4, 5, 6));
    assert_eq!(c.i, 0x403);
}

#[test]
fn with_rand_slot_draws_from_the_held_source() {
    let mut c = Cpu::with_rand_slot(RandSlot::new(Box::new(FixedRandSource::new(vec![0x5A]))));
    assert_eq!(c.pc, PROGRAM_START);
    c.load_program(&[0xC2F0]);
    c.step();
    assert_eq!(c.v[2], 0x50);
}
