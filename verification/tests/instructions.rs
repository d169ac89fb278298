//! Per-instruction behaviour of the engine, driven through the public
//! operations with chosen register values.

use chip8::cpu::{decode, Cpu};
use chip8::model::{Fault, Instr};

fn machine() -> Cpu {
    Cpu::new()
}

#[test]
fn add_with_carry_sets_flag_on_overflow() {
    let mut cpu = machine();
    cpu.exec_instr(Instr::SetImm { x: 1, nn: 200 }, 0).unwrap();
    cpu.exec_instr(Instr::SetImm { x: 2, nn: 100 }, 0).unwrap();
    cpu.exec_instr(Instr::Add { x: 1, y: 2 }, 0).unwrap();
    assert_eq!(cpu.vreg[1], 44); // (200 + 100) mod 256
    assert_eq!(cpu.vreg[15], 1);
}

#[test]
fn add_without_overflow_clears_flag() {
    let mut cpu = machine();
    cpu.vreg[15] = 1; // stale flag must be overwritten
    cpu.exec_instr(Instr::SetImm { x: 1, nn: 10 }, 0).unwrap();
    cpu.exec_instr(Instr::SetImm { x: 2, nn: 20 }, 0).unwrap();
    cpu.exec_instr(Instr::Add { x: 1, y: 2 }, 0).unwrap();
    assert_eq!(cpu.vreg[1], 30);
    assert_eq!(cpu.vreg[15], 0);
}

#[test]
fn sub_with_borrow_clears_flag() {
    let mut cpu = machine();
    cpu.exec_instr(Instr::SetImm { x: 1, nn: 10 }, 0).unwrap();
    cpu.exec_instr(Instr::SetImm { x: 2, nn: 20 }, 0).unwrap();
    cpu.exec_instr(Instr::Sub { x: 1, y: 2 }, 0).unwrap();
    assert_eq!(cpu.vreg[1], 246); // (10 - 20) mod 256
    assert_eq!(cpu.vreg[15], 0); // borrow occurred
}

#[test]
fn sub_without_borrow_sets_flag() {
    let mut cpu = machine();
    cpu.exec_instr(Instr::SetImm { x: 1, nn: 20 }, 0).unwrap();
    cpu.exec_instr(Instr::SetImm { x: 2, nn: 10 }, 0).unwrap();
    cpu.exec_instr(Instr::Sub { x: 1, y: 2 }, 0).unwrap();
    assert_eq!(cpu.vreg[1], 10);
    assert_eq!(cpu.vreg[15], 1);
}

#[test]
fn sub_reversed_flags_mirror() {
    let mut cpu = machine();
    cpu.exec_instr(Instr::SetImm { x: 1, nn: 20 }, 0).unwrap();
    cpu.exec_instr(Instr::SetImm { x: 2, nn: 10 }, 0).unwrap();
    cpu.exec_instr(Instr::SubRev { x: 1, y: 2 }, 0).unwrap();
    assert_eq!(cpu.vreg[1], 246); // 10 - 20 wrapped
    assert_eq!(cpu.vreg[15], 0); // the minuend register y held less
}

#[test]
fn bitwise_ops() {
    let mut cpu = machine();
    cpu.exec_instr(Instr::SetImm { x: 1, nn: 0b1100 }, 0).unwrap();
    cpu.exec_instr(Instr::SetImm { x: 2, nn: 0b1010 }, 0).unwrap();
    cpu.exec_instr(Instr::Or { x: 3, y: 1 }, 0).unwrap();
    cpu.exec_instr(Instr::Or { x: 3, y: 2 }, 0).unwrap();
    assert_eq!(cpu.vreg[3], 0b1110);
    cpu.exec_instr(Instr::And { x: 1, y: 2 }, 0).unwrap();
    assert_eq!(cpu.vreg[1], 0b1000);
    cpu.exec_instr(Instr::Xor { x: 1, y: 2 }, 0).unwrap();
    assert_eq!(cpu.vreg[1], 0b0010);
}

#[test]
fn shift_right_in_place_by_default() {
    let mut cpu = machine();
    cpu.exec_instr(Instr::SetImm { x: 1, nn: 5 }, 0).unwrap();
    cpu.exec_instr(Instr::SetImm { x: 2, nn: 0xFF }, 0).unwrap();
    cpu.exec_instr(Instr::Shr { x: 1, y: 2 }, 0).unwrap();
    assert_eq!(cpu.vreg[1], 2); // y ignored under the default quirk
    assert_eq!(cpu.vreg[15], 1); // old low bit
}

#[test]
fn shift_left_in_place_by_default() {
    let mut cpu = machine();
    cpu.exec_instr(Instr::SetImm { x: 1, nn: 0x81 }, 0).unwrap();
    cpu.exec_instr(Instr::Shl { x: 1, y: 2 }, 0).unwrap();
    assert_eq!(cpu.vreg[1], 0x02);
    assert_eq!(cpu.vreg[15], 1); // old high bit
}

#[test]
fn shift_reads_y_under_quirk() {
    let mut cpu = machine();
    cpu.quirks.shift_reads_y = true;
    cpu.exec_instr(Instr::SetImm { x: 1, nn: 0 }, 0).unwrap();
    cpu.exec_instr(Instr::SetImm { x: 2, nn: 6 }, 0).unwrap();
    cpu.exec_instr(Instr::Shr { x: 1, y: 2 }, 0).unwrap();
    assert_eq!(cpu.vreg[1], 3);
    assert_eq!(cpu.vreg[15], 0);
}

#[test]
fn skip_instructions_move_pc_by_four() {
    let mut cpu = machine();
    let pc0 = cpu.pc;
    cpu.exec_instr(Instr::SetImm { x: 1, nn: 7 }, 0).unwrap();
    let pc1 = cpu.pc;
    assert_eq!(pc1, pc0 + 2);
    cpu.exec_instr(Instr::SkipEqImm { x: 1, nn: 7 }, 0).unwrap();
    assert_eq!(cpu.pc, pc1 + 4);
    let pc2 = cpu.pc;
    cpu.exec_instr(Instr::SkipEqImm { x: 1, nn: 8 }, 0).unwrap();
    assert_eq!(cpu.pc, pc2 + 2);
    let pc3 = cpu.pc;
    cpu.exec_instr(Instr::SkipNeImm { x: 1, nn: 8 }, 0).unwrap();
    assert_eq!(cpu.pc, pc3 + 4);
}

#[test]
fn register_skips_compare_registers() {
    let mut cpu = machine();
    cpu.exec_instr(Instr::SetImm { x: 1, nn: 9 }, 0).unwrap();
    cpu.exec_instr(Instr::SetImm { x: 2, nn: 9 }, 0).unwrap();
    let pc0 = cpu.pc;
    cpu.exec_instr(Instr::SkipEqReg { x: 1, y: 2 }, 0).unwrap();
    assert_eq!(cpu.pc, pc0 + 4);
    let pc1 = cpu.pc;
    cpu.exec_instr(Instr::SkipNeReg { x: 1, y: 2 }, 0).unwrap();
    assert_eq!(cpu.pc, pc1 + 2);
}

#[test]
fn jump_sets_pc_exactly() {
    let mut cpu = machine();
    cpu.exec_instr(Instr::Jump { nnn: 0x456 }, 0).unwrap();
    assert_eq!(cpu.pc, 0x456);
}

#[test]
fn jump_plus_adds_register_zero_by_default() {
    let mut cpu = machine();
    cpu.exec_instr(Instr::SetImm { x: 0, nn: 4 }, 0).unwrap();
    cpu.exec_instr(Instr::SetImm { x: 3, nn: 0x20 }, 0).unwrap();
    cpu.exec_instr(Instr::JumpPlus { nnn: 0x300 }, 0).unwrap();
    assert_eq!(cpu.pc, 0x304);
}

#[test]
fn jump_plus_adds_high_nibble_register_under_quirk() {
    let mut cpu = machine();
    cpu.quirks.jump_adds_x = true;
    cpu.exec_instr(Instr::SetImm { x: 0, nn: 4 }, 0).unwrap();
    cpu.exec_instr(Instr::SetImm { x: 3, nn: 0x20 }, 0).unwrap();
    cpu.exec_instr(Instr::JumpPlus { nnn: 0x300 }, 0).unwrap();
    assert_eq!(cpu.pc, 0x320);
}

#[test]
fn call_and_return_restore_pc() {
    let mut cpu = machine();
    let pc0 = cpu.pc;
    cpu.exec_instr(Instr::Call { nnn: 0x345 }, 0).unwrap();
    assert_eq!(cpu.pc, 0x345);
    assert_eq!(cpu.sp, 1);
    cpu.exec_instr(Instr::Ret, 0).unwrap();
    assert_eq!(cpu.pc, pc0 + 2);
    assert_eq!(cpu.sp, 0);
}

#[test]
fn call_return_pairs_work_at_every_depth() {
    let mut cpu = machine();
    let mut return_to = Vec::new();
    for d in 0..16u16 {
        return_to.push(cpu.pc + 2);
        cpu.exec_instr(Instr::Call { nnn: 0x300 + d * 2 }, 0).unwrap();
        assert_eq!(cpu.sp as u16, d + 1);
    }
    for d in (0..16u16).rev() {
        cpu.exec_instr(Instr::Ret, 0).unwrap();
        assert_eq!(cpu.pc, return_to[d as usize]);
        assert_eq!(cpu.sp as u16, d);
    }
}

#[test]
fn seventeenth_call_overflows_the_stack() {
    let mut cpu = machine();
    for _ in 0..16 {
        cpu.exec_instr(Instr::Call { nnn: 0x300 }, 0).unwrap();
    }
    let pc_before = cpu.pc;
    assert_eq!(
        cpu.exec_instr(Instr::Call { nnn: 0x300 }, 0),
        Err(Fault::StackOverflow)
    );
    assert_eq!(cpu.pc, pc_before); // a fault moves nothing
}

#[test]
fn return_with_empty_stack_underflows() {
    let mut cpu = machine();
    assert_eq!(cpu.exec_instr(Instr::Ret, 0), Err(Fault::StackUnderflow));
    assert_eq!(cpu.pc, 0x200);
}

#[test]
fn random_masks_the_supplied_byte() {
    let mut cpu = machine();
    cpu.exec_instr(Instr::Random { x: 1, nn: 0x0F }, 0xAB).unwrap();
    assert_eq!(cpu.vreg[1], 0x0B);
    cpu.exec_instr(Instr::Random { x: 1, nn: 0x00 }, 0xFF).unwrap();
    assert_eq!(cpu.vreg[1], 0);
}

#[test]
fn timers_read_and_write_through_registers() {
    let mut cpu = machine();
    cpu.exec_instr(Instr::SetImm { x: 1, nn: 42 }, 0).unwrap();
    cpu.exec_instr(Instr::SetDelay { x: 1 }, 0).unwrap();
    assert_eq!(cpu.delay_timer, 42);
    cpu.exec_instr(Instr::ReadDelay { x: 2 }, 0).unwrap();
    assert_eq!(cpu.vreg[2], 42);
    cpu.exec_instr(Instr::SetSound { x: 1 }, 0).unwrap();
    assert_eq!(cpu.sound_timer, 42);
    assert!(cpu.sound_active());
}

#[test]
fn add_index_flags_address_space_overflow() {
    let mut cpu = machine();
    cpu.exec_instr(Instr::SetIndex { nnn: 0xFFF }, 0).unwrap();
    cpu.exec_instr(Instr::SetImm { x: 1, nn: 1 }, 0).unwrap();
    cpu.exec_instr(Instr::AddIndex { x: 1 }, 0).unwrap();
    assert_eq!(cpu.ireg, 0x1000);
    assert_eq!(cpu.vreg[15], 1);
    let mut cpu = machine();
    cpu.exec_instr(Instr::SetIndex { nnn: 0x100 }, 0).unwrap();
    cpu.exec_instr(Instr::SetImm { x: 1, nn: 5 }, 0).unwrap();
    cpu.exec_instr(Instr::AddIndex { x: 1 }, 0).unwrap();
    assert_eq!(cpu.ireg, 0x105);
    assert_eq!(cpu.vreg[15], 0);
}

#[test]
fn font_index_points_at_the_glyph() {
    let mut cpu = machine();
    cpu.exec_instr(Instr::SetImm { x: 1, nn: 0xA }, 0).unwrap();
    cpu.exec_instr(Instr::FontIndex { x: 1 }, 0).unwrap();
    assert_eq!(cpu.ireg, 50); // glyph A sits at 10 * 5
    assert_eq!(cpu.memory[50], 0xF0); // first row of the A glyph
}

#[test]
fn bcd_stores_three_decimal_digits() {
    let mut cpu = machine();
    cpu.exec_instr(Instr::SetImm { x: 3, nn: 254 }, 0).unwrap();
    cpu.exec_instr(Instr::SetIndex { nnn: 0x300 }, 0).unwrap();
    cpu.exec_instr(Instr::StoreBcd { x: 3 }, 0).unwrap();
    assert_eq!(cpu.memory[0x300], 2);
    assert_eq!(cpu.memory[0x301], 5);
    assert_eq!(cpu.memory[0x302], 4);
}

#[test]
fn bcd_near_end_of_memory_faults() {
    let mut cpu = machine();
    cpu.exec_instr(Instr::SetIndex { nnn: 0xFFE }, 0).unwrap();
    assert_eq!(
        cpu.exec_instr(Instr::StoreBcd { x: 0 }, 0),
        Err(Fault::MemoryOutOfBounds)
    );
}

#[test]
fn store_and_load_registers_round_trip() {
    let mut cpu = machine();
    for k in 0..4u8 {
        cpu.exec_instr(Instr::SetImm { x: k, nn: 10 + k }, 0).unwrap();
    }
    cpu.exec_instr(Instr::SetIndex { nnn: 0x400 }, 0).unwrap();
    cpu.exec_instr(Instr::StoreRegs { x: 3 }, 0).unwrap();
    assert_eq!(&cpu.memory[0x400..0x404], &[10, 11, 12, 13]);
    assert_eq!(cpu.memory[0x404], 0); // one past the range stays untouched
    for k in 0..4u8 {
        cpu.exec_instr(Instr::SetImm { x: k, nn: 0 }, 0).unwrap();
    }
    cpu.exec_instr(Instr::LoadRegs { x: 3 }, 0).unwrap();
    assert_eq!(&cpu.vreg[0..4], &[10, 11, 12, 13]);
}

#[test]
fn store_registers_past_the_end_faults() {
    let mut cpu = machine();
    cpu.exec_instr(Instr::SetIndex { nnn: 0xFFE }, 0).unwrap();
    assert_eq!(
        cpu.exec_instr(Instr::StoreRegs { x: 2 }, 0),
        Err(Fault::MemoryOutOfBounds)
    );
    assert_eq!(
        cpu.exec_instr(Instr::LoadRegs { x: 2 }, 0),
        Err(Fault::MemoryOutOfBounds)
    );
}

#[test]
fn key_skips_follow_the_keypad() {
    let mut cpu = machine();
    cpu.exec_instr(Instr::SetImm { x: 1, nn: 7 }, 0).unwrap();
    let pc0 = cpu.pc;
    cpu.exec_instr(Instr::SkipKey { x: 1 }, 0).unwrap();
    assert_eq!(cpu.pc, pc0 + 2); // key 7 is up
    cpu.set_key(7, true);
    let pc1 = cpu.pc;
    cpu.exec_instr(Instr::SkipKey { x: 1 }, 0).unwrap();
    assert_eq!(cpu.pc, pc1 + 4);
    let pc2 = cpu.pc;
    cpu.exec_instr(Instr::SkipNoKey { x: 1 }, 0).unwrap();
    assert_eq!(cpu.pc, pc2 + 2);
}

#[test]
fn wait_key_holds_until_a_key_comes_down() {
    let mut cpu = machine();
    let pc0 = cpu.pc;
    cpu.exec_instr(Instr::WaitKey { x: 4 }, 0).unwrap();
    assert_eq!(cpu.pc, pc0); // nothing pressed: the instruction will re-run
    cpu.set_key(7, true);
    cpu.set_key(3, true);
    cpu.exec_instr(Instr::WaitKey { x: 4 }, 0).unwrap();
    assert_eq!(cpu.vreg[4], 3); // the lowest-indexed pressed key
    assert_eq!(cpu.pc, pc0 + 2); // and only this call advances
}

#[test]
fn unknown_opcode_is_skipped_not_fatal() {
    let mut cpu = machine();
    let pc0 = cpu.pc;
    cpu.exec_instr(decode(0x0123), 0).unwrap();
    assert_eq!(cpu.pc, pc0 + 2);
    cpu.exec_instr(decode(0x800F), 0).unwrap();
    assert_eq!(cpu.pc, pc0 + 4);
}

#[test]
fn copy_and_add_immediate_wrap() {
    let mut cpu = machine();
    cpu.exec_instr(Instr::SetImm { x: 2, nn: 250 }, 0).unwrap();
    cpu.exec_instr(Instr::Copy { x: 1, y: 2 }, 0).unwrap();
    assert_eq!(cpu.vreg[1], 250);
    cpu.exec_instr(Instr::AddImm { x: 1, nn: 10 }, 0).unwrap();
    assert_eq!(cpu.vreg[1], 4); // wraps modulo 256
    assert_eq!(cpu.vreg[15], 0); // no flag from 7xnn
}
