//! Whole-machine behavior: reset and load, the fetch cycle, timers, the
//! keypad, faults, and the quirks the interpreter preserves.

use hachip::cpu::{Cpu, EmulateCycleError};
use hachip::keypad::Keypad;
use hachip::ppu::{Ppu, FONT_SET};

fn make_cpu() -> Cpu {
    Cpu::new(Ppu::new())
}

#[test]
fn reset_installs_font_and_load_places_program() {
    let mut cpu = make_cpu();
    cpu.v[3] = 9;
    cpu.i = 77;
    cpu.reset();

    assert_eq!(cpu.pc, 0x200);
    assert_eq!(cpu.sp, 0);
    assert_eq!(cpu.i, 0);
    assert_eq!(cpu.v[3], 0);
    for k in 0..80 {
        assert_eq!(cpu.memory[k], FONT_SET[k]);
    }
    for k in 80..0x200 {
        assert_eq!(cpu.memory[k], 0);
    }

    let program = vec![0x61, 0xAA, 0x71, 0x01];
    cpu.load(program.clone());
    for k in 0..program.len() {
        assert_eq!(cpu.memory[0x200 + k], program[k]);
    }
    assert_eq!(cpu.memory[0x200 + program.len()], 0);
    // the font survives the load
    assert_eq!(cpu.memory[0], 0xF0);
}

#[test]
fn execute_cycle_runs_program_from_memory() {
    let mut cpu = make_cpu();
    cpu.reset();
    cpu.load(vec![0x61, 0xAA, 0x71, 0x01]);

    cpu.execute_cycle().unwrap();
    assert_eq!(cpu.v[1], 0xAA);
    assert_eq!(cpu.pc, 0x202);

    cpu.execute_cycle().unwrap();
    assert_eq!(cpu.v[1], 0xAB);
    assert_eq!(cpu.pc, 0x204);
}

#[test]
fn execute_cycle_rejects_pc_outside_memory() {
    let mut cpu = make_cpu();
    cpu.pc = 4095;
    let err = cpu.execute_cycle().unwrap_err();
    assert_eq!(err, EmulateCycleError::ProgramCounterOutOfBounds { pc: 4095 });
    assert_eq!(cpu.pc, 4095, "nothing changed");
}

#[test]
fn unrecognized_opcode_reports_fault_after_advancing_pc() {
    let mut cpu = make_cpu();
    cpu.dt = 5;
    let err = cpu.process_opcode(0x0123).unwrap_err();
    assert_eq!(err, EmulateCycleError::UnrecognizedOpcode { opcode: 0x0123 });
    assert_eq!(cpu.pc, 2, "pc still advances past the bad word");
    assert_eq!(cpu.dt, 5, "a fault short-circuits the timer tick");

    let err = cpu.process_opcode(0x8008).unwrap_err();
    assert_eq!(err, EmulateCycleError::UnrecognizedOpcode { opcode: 0x8008 });
    let err = cpu.process_opcode(0xE1FF).unwrap_err();
    assert_eq!(err, EmulateCycleError::UnrecognizedOpcode { opcode: 0xE1FF });
    let err = cpu.process_opcode(0xF1FF).unwrap_err();
    assert_eq!(err, EmulateCycleError::UnrecognizedOpcode { opcode: 0xF1FF });
}

#[test]
fn stack_faults_leave_state_untouched() {
    let mut cpu = make_cpu();
    // return with an empty stack
    let err = cpu.process_opcode(0x00EE).unwrap_err();
    assert_eq!(err, EmulateCycleError::AddressOutOfBounds { opcode: 0x00EE });
    assert_eq!(cpu.pc, 0);
    assert_eq!(cpu.sp, 0);

    // call on a full stack
    cpu.sp = 16;
    let err = cpu.process_opcode(0x2ABC).unwrap_err();
    assert_eq!(err, EmulateCycleError::AddressOutOfBounds { opcode: 0x2ABC });
    assert_eq!(cpu.sp, 16);
    assert_eq!(cpu.pc, 0);
}

#[test]
fn memory_window_faults_leave_state_untouched() {
    let mut cpu = make_cpu();
    cpu.i = 4094;
    let err = cpu.process_opcode(0xF233).unwrap_err();
    assert_eq!(err, EmulateCycleError::AddressOutOfBounds { opcode: 0xF233 });

    cpu.i = 4093;
    let err = cpu.process_opcode(0xF355).unwrap_err();
    assert_eq!(err, EmulateCycleError::AddressOutOfBounds { opcode: 0xF355 });
    let err = cpu.process_opcode(0xF365).unwrap_err();
    assert_eq!(err, EmulateCycleError::AddressOutOfBounds { opcode: 0xF365 });

    cpu.i = 4090;
    let err = cpu.process_opcode(0xD018).unwrap_err();
    assert_eq!(err, EmulateCycleError::AddressOutOfBounds { opcode: 0xD018 });
    assert_eq!(cpu.pc, 0, "faults do not advance pc");
}

#[test]
fn key_skip_with_key_index_out_of_range_is_a_fault() {
    let mut cpu = make_cpu();
    cpu.v[1] = 16;
    let err = cpu.process_opcode(0xE19E).unwrap_err();
    assert_eq!(err, EmulateCycleError::AddressOutOfBounds { opcode: 0xE19E });
}

#[test]
fn ret_overwrites_popped_slot_with_sentinel() {
    let mut cpu = make_cpu();
    cpu.pc = 0x23;
    cpu.process_opcode(0x2ABC).unwrap();
    cpu.process_opcode(0x00EE).unwrap();
    assert_eq!(cpu.stack[0], 0xBEEF);
}

#[test]
fn opcode_jp_v0_addr() {
    let mut cpu = make_cpu();
    cpu.v[0] = 5;
    cpu.process_opcode(0xB123).unwrap();
    assert_eq!(cpu.pc, 0x128);
}

#[test]
fn opcode_shr_keeps_raw_low_bit_in_vf() {
    let mut cpu = make_cpu();
    cpu.v[1] = 0b10000001;
    cpu.process_opcode(0x8126).unwrap();
    assert_eq!(cpu.v[0xF], 1);
    assert_eq!(cpu.v[1], 0b01000000);
}

#[test]
fn opcode_shl_keeps_raw_high_bit_in_vf() {
    let mut cpu = make_cpu();
    cpu.v[1] = 0b10000001;
    cpu.process_opcode(0x812E).unwrap();
    assert_eq!(cpu.v[0xF], 0x80, "VF takes the masked bit, not 1");
    assert_eq!(cpu.v[1], 0b00000010);
}

#[test]
fn opcode_sub_vx_vy() {
    let mut cpu = make_cpu();
    cpu.v[1] = 10;
    cpu.v[2] = 3;
    cpu.process_opcode(0x8125).unwrap();
    assert_eq!(cpu.v[1], 7);
    assert_eq!(cpu.v[0xF], 1, "Vx was greater than Vy");

    cpu.v[1] = 3;
    cpu.v[2] = 10;
    cpu.process_opcode(0x8125).unwrap();
    assert_eq!(cpu.v[1], 249, "the subtraction wrapped");
    assert_eq!(cpu.v[0xF], 0);
}

#[test]
fn opcode_subn_vx_vy() {
    let mut cpu = make_cpu();
    cpu.v[1] = 3;
    cpu.v[2] = 10;
    cpu.process_opcode(0x8127).unwrap();
    assert_eq!(cpu.v[1], 7, "Vx = Vy - Vx");
    assert_eq!(cpu.v[0xF], 1, "no borrow");

    cpu.v[1] = 10;
    cpu.v[2] = 3;
    cpu.process_opcode(0x8127).unwrap();
    assert_eq!(cpu.v[1], 249, "the subtraction wrapped");
    assert_eq!(cpu.v[0xF], 0, "borrow");
}

#[test]
fn opcode_add_vx_kk_wraps() {
    let mut cpu = make_cpu();
    cpu.v[1] = 0xFF;
    cpu.process_opcode(0x7102).unwrap();
    assert_eq!(cpu.v[1], 1);
}

#[test]
fn opcode_ld_f_vx_font_address() {
    let mut cpu = make_cpu();
    cpu.v[1] = 0xA;
    cpu.process_opcode(0xF129).unwrap();
    assert_eq!(cpu.i, 50, "glyphs are 5 bytes apart");
}

#[test]
fn opcode_add_i_vx() {
    let mut cpu = make_cpu();
    cpu.i = 10;
    cpu.v[1] = 5;
    cpu.process_opcode(0xF11E).unwrap();
    assert_eq!(cpu.i, 15);
}

#[test]
fn opcode_rnd_masks_with_kk() {
    let mut cpu = make_cpu();
    cpu.v[1] = 0xAA;
    cpu.process_opcode(0xC100).unwrap();
    assert_eq!(cpu.v[1], 0, "a zero mask forces zero whatever byte was drawn");
    assert_eq!(cpu.pc, 2);

    cpu.process_opcode(0xC20F).unwrap();
    assert!(cpu.v[2] <= 0x0F, "the random byte is masked");
}

#[test]
fn timers_tick_after_each_successful_cycle() {
    let mut cpu = make_cpu();
    cpu.dt = 5;
    cpu.st = 1;
    cpu.process_opcode(0x6000).unwrap();
    assert_eq!(cpu.dt, 4);
    assert_eq!(cpu.st, 0);
    cpu.process_opcode(0x6000).unwrap();
    assert_eq!(cpu.st, 0, "the sound timer stops at zero");
}

#[test]
fn opcode_ld_vx_dt_reads_before_tick() {
    let mut cpu = make_cpu();
    cpu.dt = 7;
    cpu.process_opcode(0xF107).unwrap();
    assert_eq!(cpu.v[1], 7, "Vx sees the timer before the tick");
    assert_eq!(cpu.dt, 6);
}

#[test]
fn opcode_ld_dt_vx_is_ticked_immediately() {
    let mut cpu = make_cpu();
    cpu.v[1] = 5;
    cpu.process_opcode(0xF115).unwrap();
    assert_eq!(cpu.dt, 4, "the freshly set timer still ticks this cycle");
    cpu.v[2] = 9;
    cpu.process_opcode(0xF218).unwrap();
    assert_eq!(cpu.st, 8);
}

#[test]
fn opcode_skp_sknp_follow_keypad() {
    let mut cpu = make_cpu();
    cpu.v[1] = 4;
    cpu.keypad.press(vec![4]);
    cpu.process_opcode(0xE19E).unwrap();
    assert_eq!(cpu.pc, 4, "key down: skip");
    cpu.process_opcode(0xE1A1).unwrap();
    assert_eq!(cpu.pc, 6, "key down: no skip");

    cpu.keypad.press(vec![]);
    cpu.process_opcode(0xE19E).unwrap();
    assert_eq!(cpu.pc, 8, "key up: no skip");
    cpu.process_opcode(0xE1A1).unwrap();
    assert_eq!(cpu.pc, 12, "key up: skip");
}

#[test]
fn opcode_ld_vx_k_polls_once_per_held_key() {
    let mut cpu = make_cpu();
    // no key held: only the trailing advance
    cpu.process_opcode(0xF10A).unwrap();
    assert_eq!(cpu.pc, 2);
    assert_eq!(cpu.v[1], 0);

    // two keys held: Vx ends at the highest index, pc advances once per
    // held key plus the trailing advance
    cpu.keypad.press(vec![2, 5]);
    cpu.process_opcode(0xF10A).unwrap();
    assert_eq!(cpu.v[1], 5);
    assert_eq!(cpu.pc, 2 + 4 + 2);
}

#[test]
fn skip_wraps_the_program_counter() {
    let mut cpu = make_cpu();
    cpu.pc = 0xFFFE;
    cpu.process_opcode(0x3100).unwrap();
    assert_eq!(cpu.pc, 2, "pc arithmetic wraps at 16 bits");
}

#[test]
fn opcode_cls_clears_every_pixel() {
    let mut cpu = make_cpu();
    cpu.ppu.set_pixel(3, 4, 1);
    cpu.process_opcode(0x00E0).unwrap();
    assert_eq!(cpu.ppu.get_pixel(3, 4), false);
    assert_eq!(cpu.pc, 2);
}

#[test]
fn opcode_drw_draws_from_memory_and_sets_vf() {
    let mut cpu = make_cpu();
    cpu.i = 0x300;
    cpu.memory[0x300] = 0b00110000;
    cpu.v[1] = 0;
    cpu.v[2] = 0;
    cpu.process_opcode(0xD121).unwrap();
    assert_eq!(cpu.ppu.get_pixel(2, 0), true);
    assert_eq!(cpu.ppu.get_pixel(3, 0), true);
    assert_eq!(cpu.v[0xF], 0, "nothing was lit before");

    // drawing the same sprite again erases it and reports the collision
    cpu.process_opcode(0xD121).unwrap();
    assert_eq!(cpu.ppu.get_pixel(2, 0), false);
    assert_eq!(cpu.v[0xF], 1);
}

#[test]
fn draw_wraps_at_the_screen_edges() {
    let mut ppu = Ppu::new();
    let sprite: [u8; 1] = [0b10000001];
    ppu.draw(60, 31, &sprite);
    assert_eq!(ppu.get_pixel(60, 31), true, "bit 0 lands on the row's end");
    assert_eq!(ppu.get_pixel(3, 31), true, "bit 7 wraps to the row's start");
}

#[test]
fn store_then_load_round_trips() {
    let mut cpu = make_cpu();
    cpu.v[0] = 5;
    cpu.v[1] = 4;
    cpu.v[2] = 3;
    cpu.v[3] = 200;
    cpu.i = 0x300;
    cpu.process_opcode(0xF255).unwrap();

    // a fresh register file, then load the window back
    for k in 0..16 {
        cpu.v[k] = 0;
    }
    cpu.v[3] = 7;
    cpu.process_opcode(0xF265).unwrap();
    assert_eq!(cpu.v[0], 5);
    assert_eq!(cpu.v[1], 4);
    assert_eq!(cpu.v[2], 3);
    assert_eq!(cpu.v[3], 7, "register 3 is unaffected by the load");
}

#[test]
fn keypad_press_replaces_the_whole_set() {
    let mut keypad = Keypad::new();
    for k in 0..16 {
        assert_eq!(keypad.is_key_down(k), false);
    }
    keypad.press(vec![1, 15]);
    assert_eq!(keypad.is_key_down(1), true);
    assert_eq!(keypad.is_key_down(15), true);
    assert_eq!(keypad.is_key_down(2), false);

    keypad.press(vec![2]);
    assert_eq!(keypad.is_key_down(2), true);
    assert_eq!(keypad.is_key_down(1), false, "previously held keys are released");
    assert_eq!(keypad.is_key_down(15), false);
}
