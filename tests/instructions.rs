use crisp8::consts::PROGRAM_START;
use crisp8::cpu::{Fault, Processor};
use crisp8::keyboard::{keypad_index, Keyboard};
use crisp8::memory::{LoadError, Memory};
use crisp8::vm::{Diagnostic, Vm};

fn loaded(program: &[u8]) -> Vm {
    let mut vm = Vm::new();
    vm.load(program).unwrap();
    vm
}

#[test]
fn add_with_carry_sets_flag() {
    let mut vm = Vm::new();
    vm.cpu.reg[1] = 0xFF;
    vm.cpu.reg[2] = 0x01;
    assert_eq!(vm.execute_with(0x8124, 0), Ok(()));
    assert_eq!(vm.cpu.reg[1], 0x00);
    assert_eq!(vm.cpu.reg[15], 1);
}

#[test]
fn add_without_carry_clears_flag() {
    let mut vm = Vm::new();
    vm.cpu.reg[1] = 0x10;
    vm.cpu.reg[2] = 0x20;
    vm.cpu.reg[15] = 1;
    vm.execute_with(0x8124, 0).unwrap();
    assert_eq!(vm.cpu.reg[1], 0x30);
    assert_eq!(vm.cpu.reg[15], 0);
}

#[test]
fn subtract_with_borrow_sets_flag() {
    let mut vm = Vm::new();
    vm.cpu.reg[1] = 0x01;
    vm.cpu.reg[2] = 0x02;
    vm.execute_with(0x8125, 0).unwrap();
    assert_eq!(vm.cpu.reg[1], 0xFF);
    assert_eq!(vm.cpu.reg[15], 1);
}

#[test]
fn subtract_without_borrow_clears_flag() {
    let mut vm = Vm::new();
    vm.cpu.reg[1] = 0x05;
    vm.cpu.reg[2] = 0x02;
    vm.execute_with(0x8125, 0).unwrap();
    assert_eq!(vm.cpu.reg[1], 0x03);
    assert_eq!(vm.cpu.reg[15], 0);
}

#[test]
fn reverse_subtract() {
    let mut vm = Vm::new();
    vm.cpu.reg[1] = 0x05;
    vm.cpu.reg[2] = 0x02;
    vm.execute_with(0x8127, 0).unwrap();
    assert_eq!(vm.cpu.reg[1], 0xFD);
    assert_eq!(vm.cpu.reg[15], 1);
}

#[test]
fn logic_ops() {
    let mut vm = Vm::new();
    vm.cpu.reg[3] = 0b1100;
    vm.cpu.reg[4] = 0b1010;
    vm.execute_with(0x8341, 0).unwrap();
    assert_eq!(vm.cpu.reg[3], 0b1110);
    vm.cpu.reg[3] = 0b1100;
    vm.execute_with(0x8342, 0).unwrap();
    assert_eq!(vm.cpu.reg[3], 0b1000);
    vm.cpu.reg[3] = 0b1100;
    vm.execute_with(0x8343, 0).unwrap();
    assert_eq!(vm.cpu.reg[3], 0b0110);
    vm.execute_with(0x8340, 0).unwrap();
    assert_eq!(vm.cpu.reg[3], 0b1010);
}

#[test]
fn shifts_set_flag_from_lost_bit() {
    let mut vm = Vm::new();
    vm.cpu.reg[5] = 0b1000_0011;
    vm.execute_with(0x8506, 0).unwrap();
    assert_eq!(vm.cpu.reg[5], 0b0100_0001);
    assert_eq!(vm.cpu.reg[15], 1);
    vm.cpu.reg[5] = 0b1000_0011;
    vm.execute_with(0x850E, 0).unwrap();
    assert_eq!(vm.cpu.reg[5], 0b0000_0110);
    assert_eq!(vm.cpu.reg[15], 1);
}

#[test]
fn add_literal_wraps_without_flag() {
    let mut vm = Vm::new();
    vm.cpu.reg[0] = 0xFE;
    vm.execute_with(0x7003, 0).unwrap();
    assert_eq!(vm.cpu.reg[0], 0x01);
    assert_eq!(vm.cpu.reg[15], 0);
}

#[test]
fn unknown_alu_selector_is_refused() {
    let mut vm = Vm::new();
    vm.cpu.reg[1] = 7;
    let r = vm.execute_with(0x8128, 0);
    assert_eq!(r, Err(Diagnostic { fault: Fault::UnknownInstruction, word: 0x8128, pc: PROGRAM_START }));
    assert_eq!(vm.cpu.reg[1], 7);
}

#[test]
fn fetch_advances_by_two() {
    let mut vm = loaded(&[0x60, 0x2A]);
    let w = vm.fetch_instruction();
    assert_eq!(w, 0x602A);
    assert_eq!(vm.cpu.pc, PROGRAM_START + 2);
    vm.execute(w).unwrap();
    assert_eq!(vm.cpu.reg[0], 0x2A);
    assert_eq!(vm.cpu.pc, PROGRAM_START + 2);
}

#[test]
fn skip_taken_advances_by_four() {
    let mut vm = loaded(&[0x30, 0x00, 0x00, 0x00]);
    vm.tick().unwrap();
    assert_eq!(vm.cpu.pc, PROGRAM_START + 4);
}

#[test]
fn skip_not_taken_advances_by_two() {
    let mut vm = loaded(&[0x30, 0x01]);
    vm.tick().unwrap();
    assert_eq!(vm.cpu.pc, PROGRAM_START + 2);
}

#[test]
fn register_skips() {
    let mut vm = loaded(&[0x51, 0x20, 0x00, 0x00, 0x91, 0x20]);
    vm.tick().unwrap();
    assert_eq!(vm.cpu.pc, PROGRAM_START + 4);
    vm.tick().unwrap();
    assert_eq!(vm.cpu.pc, PROGRAM_START + 6);
}

#[test]
fn jump_call_and_return() {
    let mut vm = loaded(&[0x23, 0x00]);
    vm.tick().unwrap();
    assert_eq!(vm.cpu.pc, 0x300);
    assert_eq!(vm.cpu.sp, 1);
    assert_eq!(vm.cpu.stack[0], PROGRAM_START + 2);
    vm.memory.write_ram(0x300, 0x00);
    vm.memory.write_ram(0x301, 0xEE);
    vm.tick().unwrap();
    assert_eq!(vm.cpu.pc, PROGRAM_START + 2);
    assert_eq!(vm.cpu.sp, 0);
    vm.execute_with(0x1ABC, 0).unwrap();
    assert_eq!(vm.cpu.pc, 0xABC);
}

#[test]
fn jump_with_offset() {
    let mut vm = Vm::new();
    vm.cpu.reg[0] = 0x10;
    vm.execute_with(0xB300, 0).unwrap();
    assert_eq!(vm.cpu.pc, 0x310);
}

#[test]
fn return_on_empty_stack_is_refused() {
    let mut vm = Vm::new();
    let r = vm.execute_with(0x00EE, 0);
    assert_eq!(r, Err(Diagnostic { fault: Fault::StackUnderflow, word: 0x00EE, pc: PROGRAM_START }));
    assert_eq!(vm.cpu.pc, PROGRAM_START);
}

#[test]
fn call_on_full_stack_is_refused() {
    let mut vm = Vm::new();
    for _ in 0..16 {
        vm.execute_with(0x2400, 0).unwrap();
    }
    assert_eq!(vm.cpu.sp, 16);
    let r = vm.execute_with(0x2500, 0);
    assert_eq!(r, Err(Diagnostic { fault: Fault::StackOverflow, word: 0x2500, pc: 0x400 }));
    assert_eq!(vm.cpu.sp, 16);
    assert_eq!(vm.cpu.pc, 0x400);
}

#[test]
fn index_ops() {
    let mut vm = Vm::new();
    vm.execute_with(0xAFFE, 0).unwrap();
    assert_eq!(vm.cpu.i_reg, 0xFFE);
    vm.cpu.reg[2] = 3;
    vm.execute_with(0xF21E, 0).unwrap();
    assert_eq!(vm.cpu.i_reg, 0x001);
    assert_eq!(vm.cpu.reg[15], 1);
    vm.execute_with(0xF21E, 0).unwrap();
    assert_eq!(vm.cpu.i_reg, 0x004);
    assert_eq!(vm.cpu.reg[15], 0);
    vm.cpu.reg[2] = 0xF;
    vm.execute_with(0xF229, 0).unwrap();
    assert_eq!(vm.cpu.i_reg, 75);
}

#[test]
fn random_mask() {
    let mut vm = Vm::new();
    vm.execute_with(0xC30F, 0xAB).unwrap();
    assert_eq!(vm.cpu.reg[3], 0x0B);
    vm.execute(0xC300).unwrap();
    assert_eq!(vm.cpu.reg[3], 0);
}

#[test]
fn timers_set_and_read() {
    let mut vm = Vm::new();
    vm.cpu.reg[4] = 9;
    vm.execute_with(0xF415, 0).unwrap();
    vm.execute_with(0xF418, 0).unwrap();
    assert_eq!(vm.cpu.dt, 9);
    assert_eq!(vm.cpu.st, 9);
    vm.cpu.dt = 7;
    vm.execute_with(0xF507, 0).unwrap();
    assert_eq!(vm.cpu.reg[5], 7);
}

#[test]
fn delay_timer_stops_at_zero() {
    let mut cpu = Processor::new();
    cpu.dt = 1;
    cpu.st = 2;
    cpu.decrement_timers();
    assert_eq!(cpu.dt, 0);
    assert_eq!(cpu.st, 1);
    cpu.decrement_timers();
    assert_eq!(cpu.dt, 0);
    assert_eq!(cpu.st, 0);
}

#[test]
fn digits_of_255() {
    let mut vm = Vm::new();
    vm.cpu.reg[6] = 255;
    vm.cpu.i_reg = 0x300;
    vm.execute_with(0xF633, 0).unwrap();
    assert_eq!(vm.memory.read_ram(0x300), 2);
    assert_eq!(vm.memory.read_ram(0x301), 5);
    assert_eq!(vm.memory.read_ram(0x302), 5);
}

#[test]
fn digits_of_107() {
    let mut vm = Vm::new();
    vm.cpu.reg[0] = 107;
    vm.cpu.i_reg = 0x400;
    vm.execute_with(0xF033, 0).unwrap();
    assert_eq!(vm.memory.read_ram(0x400), 1);
    assert_eq!(vm.memory.read_ram(0x401), 0);
    assert_eq!(vm.memory.read_ram(0x402), 7);
}

#[test]
fn dump_then_load_round_trips() {
    let mut vm = Vm::new();
    for k in 0..16u8 {
        vm.cpu.reg[k as usize] = k * 3 + 1;
    }
    let saved = vm.cpu.reg.clone();
    vm.cpu.i_reg = 0x500;
    vm.execute_with(0xF755, 0).unwrap();
    assert_eq!(vm.cpu.i_reg, 0x500);
    for k in 0..8u16 {
        assert_eq!(vm.memory.read_ram(0x500 + k), saved[k as usize]);
    }
    assert_eq!(vm.memory.read_ram(0x508), 0);
    for k in 0..8usize {
        vm.cpu.reg[k] = 0;
    }
    vm.execute_with(0xF765, 0).unwrap();
    assert_eq!(vm.cpu.reg, saved);
}

#[test]
fn store_past_memory_end_is_refused() {
    let mut vm = Vm::new();
    vm.cpu.i_reg = 0xFFFF;
    let r = vm.execute_with(0xF033, 0);
    assert_eq!(r, Err(Diagnostic { fault: Fault::AddressOutOfRange, word: 0xF033, pc: PROGRAM_START }));
    let r = vm.execute_with(0xF355, 0);
    assert_eq!(r.unwrap_err().fault, Fault::AddressOutOfRange);
    let r = vm.execute_with(0xF365, 0);
    assert_eq!(r.unwrap_err().fault, Fault::AddressOutOfRange);
}

#[test]
fn unknown_word_is_inert() {
    let mut vm = loaded(&[0xFF, 0xFF]);
    vm.cpu.reg[3] = 9;
    vm.cpu.i_reg = 0x123;
    let before_ram = vm.memory.ram.clone();
    let r = vm.tick();
    assert_eq!(r, Err(Diagnostic { fault: Fault::UnknownInstruction, word: 0xFFFF, pc: PROGRAM_START + 2 }));
    assert_eq!(vm.cpu.pc, PROGRAM_START + 2);
    assert_eq!(vm.cpu.reg[3], 9);
    assert_eq!(vm.cpu.i_reg, 0x123);
    assert_eq!(vm.memory.ram, before_ram);
}

#[test]
fn wait_for_key_repeats_until_pressed() {
    let mut vm = loaded(&[0xF3, 0x0A]);
    vm.tick().unwrap();
    assert_eq!(vm.cpu.pc, PROGRAM_START);
    vm.keyboard.set_key(0x4, true);
    vm.keyboard.set_key(0xB, true);
    vm.tick().unwrap();
    assert_eq!(vm.cpu.pc, PROGRAM_START + 2);
    assert_eq!(vm.cpu.reg[3], 0xB);
}

#[test]
fn key_skips() {
    let mut vm = Vm::new();
    vm.cpu.reg[1] = 0x7;
    vm.execute_with(0xE19E, 0).unwrap();
    assert_eq!(vm.cpu.pc, PROGRAM_START);
    vm.execute_with(0xE1A1, 0).unwrap();
    assert_eq!(vm.cpu.pc, PROGRAM_START + 2);
    vm.keyboard.set_key(0x7, true);
    vm.execute_with(0xE19E, 0).unwrap();
    assert_eq!(vm.cpu.pc, PROGRAM_START + 4);
    vm.cpu.reg[1] = 0x40;
    assert!(!vm.keyboard.is_key_pressed(0x40));
    vm.execute_with(0xE1A1, 0).unwrap();
    assert_eq!(vm.cpu.pc, PROGRAM_START + 6);
}

#[test]
fn keypad_layout() {
    assert_eq!(keypad_index('1'), Some(0x1));
    assert_eq!(keypad_index('4'), Some(0xC));
    assert_eq!(keypad_index('x'), Some(0x0));
    assert_eq!(keypad_index('V'), Some(0xF));
    assert_eq!(keypad_index('P'), None);
    let mut k = Keyboard::new();
    k.set_key(3, true);
    assert!(k.is_key_pressed(3));
    k.release_all();
    assert!(!k.is_key_pressed(3));
}

#[test]
fn load_places_fonts_and_program() {
    let vm = loaded(&[0x12, 0x34]);
    assert_eq!(vm.memory.read_ram(0), 0xF0);
    assert_eq!(vm.memory.read_ram(79), 0x80);
    assert_eq!(vm.memory.read_ram(PROGRAM_START), 0x12);
    assert_eq!(vm.memory.read_ram(PROGRAM_START + 1), 0x34);
}

#[test]
fn oversized_program_is_refused() {
    let mut m = Memory::new();
    let big = vec![1u8; 4500 - 0x200 + 1];
    assert_eq!(m.load_rom(&big), Err(LoadError::ProgramTooLarge));
    assert_eq!(m.read_ram(0x200), 0);
    let fits = vec![1u8; 4500 - 0x200];
    assert_eq!(m.load_rom(&fits), Ok(()));
    assert_eq!(m.read_ram(4499), 1);
}

#[test]
fn addresses_wrap_around_memory() {
    let mut m = Memory::new();
    m.write_ram(4500, 9);
    assert_eq!(m.read_ram(0), 9);
}

#[test]
fn processor_steps_and_random_mask() {
    let mut cpu = Processor::new();
    assert_eq!(cpu.pc, PROGRAM_START);
    cpu.increment_pc();
    assert_eq!(cpu.pc, PROGRAM_START + 2);
    cpu.skip_instruction();
    assert_eq!(cpu.pc, PROGRAM_START + 6);
    cpu.pc = 0xFFFE;
    cpu.increment_pc();
    assert_eq!(cpu.pc, 0);
    cpu.reg[2] = 0x55;
    cpu.set_reg_rand(2, 0x00);
    assert_eq!(cpu.reg[2], 0);
    cpu.set_reg_masked(2, 0xF3, 0x3C);
    assert_eq!(cpu.reg[2], 0x30);
}

#[test]
fn decode_fields() {
    let vm = Vm::new();
    assert_eq!(vm.decode_instruction(0xD12A), (0x12A, 0x2A, 0xA, 0x1, 0x2));
}
