//! Whole-machine behaviour: power-on, program loading, the fetch-decode
//! cycle, drawing, timers, reset, and the color parser.

use chip8::cpu::{decode, Cpu};
use chip8::consts::{HEIGHT, MAX_ROM_SIZE, WIDTH};
use chip8::display::hex_to_rgb;
use chip8::model::{Fault, Instr};

#[test]
fn power_on_state() {
    let cpu = Cpu::new();
    assert_eq!(cpu.pc, 0x200);
    assert_eq!(cpu.sp, 0);
    assert_eq!(cpu.ireg, 0);
    assert_eq!(cpu.memory.len(), 4096);
    assert_eq!(cpu.memory[0], 0xF0); // first font byte
    assert_eq!(cpu.memory[79], 0x80); // last font byte
    assert_eq!(cpu.memory[80], 0); // clear past the atlas
    assert_eq!(cpu.memory[0x200], 0);
    assert!(cpu.vreg.iter().all(|&v| v == 0));
    assert!(cpu.pixels.iter().all(|&p| !p));
    assert!(cpu.keypad.iter().all(|&k| !k));
    assert!(!cpu.quirks.shift_reads_y);
    assert!(!cpu.quirks.jump_adds_x);
}

#[test]
fn loading_a_full_size_program_succeeds() {
    let mut cpu = Cpu::new();
    let rom = vec![0xAB; MAX_ROM_SIZE];
    assert_eq!(cpu.load_rom(&rom), Ok(()));
    assert_eq!(cpu.memory[0x200], 0xAB);
    assert_eq!(cpu.memory[0xFFF], 0xAB);
    assert_eq!(cpu.memory[0x1FF], 0); // nothing below the program start
}

#[test]
fn loading_one_byte_too_many_fails_before_anything_runs() {
    let mut cpu = Cpu::new();
    let rom = vec![0xAB; MAX_ROM_SIZE + 1];
    assert_eq!(cpu.load_rom(&rom), Err(Fault::RomTooLarge));
    assert_eq!(cpu.memory[0x200], 0); // nothing was written
    assert_eq!(cpu.pc, 0x200);
}

#[test]
fn tick_fetches_big_endian_and_reports_the_opcode() {
    let mut cpu = Cpu::new();
    cpu.load_rom(&vec![0x61, 0x2A]).unwrap(); // 612A: register 1 = 0x2A
    let ev = cpu.tick_with_random(0).unwrap();
    assert_eq!(ev.opcode, 0x612A);
    assert!(!ev.drew);
    assert!(!ev.unknown);
    assert_eq!(cpu.vreg[1], 0x2A);
    assert_eq!(cpu.pc, 0x202);
}

#[test]
fn tick_reports_unknown_opcodes_and_skips_them() {
    let mut cpu = Cpu::new();
    cpu.load_rom(&vec![0xFF, 0xFF]).unwrap();
    let ev = cpu.tick_with_random(0).unwrap();
    assert!(ev.unknown);
    assert_eq!(ev.opcode, 0xFFFF);
    assert_eq!(cpu.pc, 0x202);
}

#[test]
fn tick_with_pc_outside_memory_faults() {
    let mut cpu = Cpu::new();
    cpu.pc = 0xFFF; // the second opcode byte would sit at 0x1000
    assert_eq!(cpu.tick_with_random(0), Err(Fault::MemoryOutOfBounds));
    assert_eq!(cpu.pc, 0xFFF);
}

#[test]
fn entropy_backed_tick_obeys_the_mask() {
    let mut cpu = Cpu::new();
    cpu.load_rom(&vec![0xC1, 0x0F]).unwrap(); // C10F: register 1 = random & 0x0F
    cpu.tick().unwrap();
    assert_eq!(cpu.vreg[1] & 0xF0, 0);
}

#[test]
fn masked_random_lands_in_the_register() {
    let mut cpu = Cpu::new();
    cpu.load_rom(&vec![0xC1, 0x3C]).unwrap();
    let ev = cpu.tick_with_random(0xA7).unwrap();
    assert_eq!(ev.opcode, 0xC13C);
    assert_eq!(cpu.vreg[1], 0xA7 & 0x3C);
}

#[test]
fn draw_lights_pixels_and_reports_the_draw() {
    let mut cpu = Cpu::new();
    // 6100 (x = 0), 6200 (y = 0), A209 point at the sprite, D121 draw one row.
    cpu.load_rom(&vec![0x61, 0x00, 0x62, 0x00, 0xA2, 0x09, 0xD1, 0x21, 0x00, 0b1010_0000])
        .unwrap();
    for _ in 0..3 {
        cpu.tick_with_random(0).unwrap();
    }
    let ev = cpu.tick_with_random(0).unwrap();
    assert!(ev.drew);
    assert!(cpu.pixel(0, 0));
    assert!(!cpu.pixel(1, 0));
    assert!(cpu.pixel(2, 0));
    assert_eq!(cpu.vreg[15], 0); // nothing was lit before
}

#[test]
fn drawing_twice_restores_the_framebuffer() {
    let mut cpu = Cpu::new();
    cpu.load_rom(&vec![0xF0, 0x90, 0x90, 0x90, 0xF0]).unwrap(); // a box sprite
    cpu.exec_instr(Instr::SetIndex { nnn: 0x200 }, 0).unwrap();
    cpu.exec_instr(Instr::SetImm { x: 1, nn: 10 }, 0).unwrap();
    cpu.exec_instr(Instr::SetImm { x: 2, nn: 5 }, 0).unwrap();
    cpu.draw(1, 2, 5).unwrap();
    assert!(cpu.pixel(10, 5));
    assert_eq!(cpu.vreg[15], 0); // first draw collides with nothing
    cpu.draw(1, 2, 5).unwrap();
    assert!(cpu.pixels.iter().all(|&p| !p)); // XOR undid itself
    assert_eq!(cpu.vreg[15], 1); // second draw collided with the first
}

#[test]
fn sprite_columns_wrap_at_the_right_edge() {
    let mut cpu = Cpu::new();
    cpu.load_rom(&vec![0b1100_0000]).unwrap(); // two leftmost columns set
    cpu.exec_instr(Instr::SetIndex { nnn: 0x200 }, 0).unwrap();
    cpu.exec_instr(Instr::SetImm { x: 1, nn: (WIDTH - 1) as u8 }, 0).unwrap();
    cpu.exec_instr(Instr::SetImm { x: 2, nn: 3 }, 0).unwrap();
    cpu.draw(1, 2, 1).unwrap();
    assert!(cpu.pixel(WIDTH - 1, 3)); // first column at x = width - 1
    assert!(cpu.pixel(0, 3)); // second column wrapped to x = 0
}

#[test]
fn sprite_rows_wrap_at_the_bottom_edge() {
    let mut cpu = Cpu::new();
    cpu.load_rom(&vec![0x80, 0x80]).unwrap(); // one column, two rows
    cpu.exec_instr(Instr::SetIndex { nnn: 0x200 }, 0).unwrap();
    cpu.exec_instr(Instr::SetImm { x: 1, nn: 0 }, 0).unwrap();
    cpu.exec_instr(Instr::SetImm { x: 2, nn: (HEIGHT - 1) as u8 }, 0).unwrap();
    cpu.draw(1, 2, 2).unwrap();
    assert!(cpu.pixel(0, HEIGHT - 1));
    assert!(cpu.pixel(0, 0)); // second row wrapped to the top
}

#[test]
fn draw_past_end_of_memory_faults() {
    let mut cpu = Cpu::new();
    cpu.exec_instr(Instr::SetIndex { nnn: 0xFFF }, 0).unwrap();
    assert_eq!(cpu.draw(1, 2, 2), Err(Fault::MemoryOutOfBounds));
    assert!(cpu.pixels.iter().all(|&p| !p));
}

#[test]
fn cleared_screen_stays_clear_without_draws() {
    let mut cpu = Cpu::new();
    // 00E0 clear, then arithmetic, a jump back and more arithmetic: no draw.
    cpu.load_rom(&vec![0x00, 0xE0, 0x61, 0x05, 0x71, 0x03, 0x81, 0x14, 0x12, 0x02])
        .unwrap();
    cpu.exec_instr(Instr::SetIndex { nnn: 0x200 }, 0).unwrap();
    for _ in 0..25 {
        cpu.tick_with_random(0).unwrap();
    }
    assert!(cpu.pixels.iter().all(|&p| !p));
}

#[test]
fn clear_screen_turns_every_pixel_off() {
    let mut cpu = Cpu::new();
    cpu.load_rom(&vec![0x80]).unwrap();
    cpu.exec_instr(Instr::SetIndex { nnn: 0x200 }, 0).unwrap();
    cpu.draw(1, 2, 1).unwrap();
    assert!(cpu.pixels.iter().any(|&p| p));
    cpu.exec_instr(Instr::Cls, 0).unwrap();
    assert!(cpu.pixels.iter().all(|&p| !p));
}

#[test]
fn timer_at_five_reaches_zero_after_ten_half_period_steps() {
    // Five sixtieths of a second, delivered as ten steps of 1/120 s each
    // (30 phase units), run the delay timer from 5 down to 0.
    let mut cpu = Cpu::new();
    cpu.exec_instr(Instr::SetImm { x: 1, nn: 5 }, 0).unwrap();
    cpu.exec_instr(Instr::SetDelay { x: 1 }, 0).unwrap();
    for _ in 0..10 {
        cpu.update_timers(30);
    }
    assert_eq!(cpu.delay_timer, 0);
}

#[test]
fn timers_never_pass_zero_and_drop_at_most_one_per_call() {
    let mut cpu = Cpu::new();
    cpu.exec_instr(Instr::SetImm { x: 1, nn: 2 }, 0).unwrap();
    cpu.exec_instr(Instr::SetSound { x: 1 }, 0).unwrap();
    cpu.update_timers(100_000); // an enormous delta drops the counter once
    assert_eq!(cpu.sound_timer, 1);
    assert!(cpu.sound_active());
    cpu.update_timers(100_000);
    assert_eq!(cpu.sound_timer, 0);
    assert!(!cpu.sound_active());
    cpu.update_timers(100_000); // at zero the timer stays put
    assert_eq!(cpu.sound_timer, 0);
}

#[test]
fn reset_rewinds_everything_but_memory_and_keys() {
    let mut cpu = Cpu::new();
    cpu.load_rom(&vec![0x00, 0xE0, 0x61, 0x05]).unwrap();
    cpu.tick_with_random(0).unwrap();
    cpu.tick_with_random(0).unwrap();
    cpu.exec_instr(Instr::Call { nnn: 0x300 }, 0).unwrap();
    cpu.exec_instr(Instr::SetDelay { x: 1 }, 0).unwrap();
    cpu.set_key(4, true);
    cpu.reset();
    assert_eq!(cpu.pc, 0x200);
    assert_eq!(cpu.sp, 0);
    assert_eq!(cpu.ireg, 0);
    assert_eq!(cpu.delay_timer, 0);
    assert!(cpu.vreg.iter().all(|&v| v == 0));
    assert!(cpu.pixels.iter().all(|&p| !p));
    assert_eq!(cpu.memory[0x200], 0x00); // program image survives
    assert_eq!(cpu.memory[0x202], 0x61);
    assert_eq!(cpu.memory[0], 0xF0); // font survives
    assert!(cpu.keypad[4]); // keypad is the host's, untouched
}

#[test]
fn decode_names_every_instruction_family() {
    assert_eq!(decode(0x00E0), Instr::Cls);
    assert_eq!(decode(0x00EE), Instr::Ret);
    assert_eq!(decode(0x1234), Instr::Jump { nnn: 0x234 });
    assert_eq!(decode(0x2345), Instr::Call { nnn: 0x345 });
    assert_eq!(decode(0x3124), Instr::SkipEqImm { x: 1, nn: 0x24 });
    assert_eq!(decode(0x4124), Instr::SkipNeImm { x: 1, nn: 0x24 });
    assert_eq!(decode(0x5120), Instr::SkipEqReg { x: 1, y: 2 });
    assert_eq!(decode(0x6124), Instr::SetImm { x: 1, nn: 0x24 });
    assert_eq!(decode(0x7124), Instr::AddImm { x: 1, nn: 0x24 });
    assert_eq!(decode(0x8120), Instr::Copy { x: 1, y: 2 });
    assert_eq!(decode(0x8121), Instr::Or { x: 1, y: 2 });
    assert_eq!(decode(0x8122), Instr::And { x: 1, y: 2 });
    assert_eq!(decode(0x8123), Instr::Xor { x: 1, y: 2 });
    assert_eq!(decode(0x8124), Instr::Add { x: 1, y: 2 });
    assert_eq!(decode(0x8125), Instr::Sub { x: 1, y: 2 });
    assert_eq!(decode(0x8126), Instr::Shr { x: 1, y: 2 });
    assert_eq!(decode(0x8127), Instr::SubRev { x: 1, y: 2 });
    assert_eq!(decode(0x812E), Instr::Shl { x: 1, y: 2 });
    assert_eq!(decode(0x9120), Instr::SkipNeReg { x: 1, y: 2 });
    assert_eq!(decode(0xA234), Instr::SetIndex { nnn: 0x234 });
    assert_eq!(decode(0xB234), Instr::JumpPlus { nnn: 0x234 });
    assert_eq!(decode(0xC124), Instr::Random { x: 1, nn: 0x24 });
    assert_eq!(decode(0xD12E), Instr::Draw { x: 1, y: 2, n: 0xE });
    assert_eq!(decode(0xE19E), Instr::SkipKey { x: 1 });
    assert_eq!(decode(0xE1A1), Instr::SkipNoKey { x: 1 });
    assert_eq!(decode(0xF107), Instr::ReadDelay { x: 1 });
    assert_eq!(decode(0xF10A), Instr::WaitKey { x: 1 });
    assert_eq!(decode(0xF115), Instr::SetDelay { x: 1 });
    assert_eq!(decode(0xF118), Instr::SetSound { x: 1 });
    assert_eq!(decode(0xF11E), Instr::AddIndex { x: 1 });
    assert_eq!(decode(0xF129), Instr::FontIndex { x: 1 });
    assert_eq!(decode(0xF133), Instr::StoreBcd { x: 1 });
    assert_eq!(decode(0xF155), Instr::StoreRegs { x: 1 });
    assert_eq!(decode(0xF165), Instr::LoadRegs { x: 1 });
    assert_eq!(decode(0x0123), Instr::Unknown { op: 0x0123 });
    assert_eq!(decode(0x5121), Instr::Unknown { op: 0x5121 });
    assert_eq!(decode(0x8128), Instr::Unknown { op: 0x8128 });
    assert_eq!(decode(0x9121), Instr::Unknown { op: 0x9121 });
    assert_eq!(decode(0xE100), Instr::Unknown { op: 0xE100 });
    assert_eq!(decode(0xF100), Instr::Unknown { op: 0xF100 });
}

#[test]
fn hex_to_rgb_parses_color_codes() {
    assert_eq!(hex_to_rgb("#0f380f"), Ok((0x0F, 0x38, 0x0F)));
    assert_eq!(hex_to_rgb("#8bac0f"), Ok((0x8B, 0xAC, 0x0F)));
    assert_eq!(hex_to_rgb("AbCdEf"), Ok((0xAB, 0xCD, 0xEF)));
    assert_eq!(hex_to_rgb("##123456"), Ok((0x12, 0x34, 0x56)));
    assert_eq!(hex_to_rgb("#000000"), Ok((0, 0, 0)));
    assert_eq!(hex_to_rgb("#ffffff"), Ok((255, 255, 255)));
}

#[test]
fn hex_to_rgb_rejects_malformed_codes() {
    assert_eq!(hex_to_rgb("#12345"), Err(()));
    assert_eq!(hex_to_rgb("#1234567"), Err(()));
    assert_eq!(hex_to_rgb(""), Err(()));
    assert_eq!(hex_to_rgb("#"), Err(()));
    assert_eq!(hex_to_rgb("#gggggg"), Err(()));
    assert_eq!(hex_to_rgb("12345g"), Err(()));
    assert_eq!(hex_to_rgb("#12 456"), Err(()));
}
