use chip_8_rs::opcode::{OpCode, VmError};
use chip_8_rs::signal::Signal;
use chip_8_rs::vm::{Status, VM};

fn pixel(vm: &VM, x: usize, y: usize) -> bool {
    vm.screen[y * 64 + x]
}

#[test]
fn new_machine_starts_at_load_address() {
    let vm = VM::new();
    assert_eq!(vm.pc, 0x200);
    assert_eq!(vm.index, 0);
    assert_eq!(vm.delay_timer, 0);
    assert_eq!(vm.sound_timer, 0);
    assert_eq!(vm.keys, 0);
    assert_eq!(vm.stack.len(), 0);
    assert_eq!(vm.status, Status::Active);
    assert!(vm.registers.iter().all(|&r| r == 0));
    assert!(vm.screen.iter().all(|&p| !p));
}

#[test]
fn font_is_preloaded() {
    let vm = VM::new();
    // glyph 0 starts with 0xF0, glyph 1 (offset 5) with 0x20
    assert_eq!(vm.memory[0], 0xF0);
    assert_eq!(vm.memory[5], 0x20);
    // last byte of glyph F
    assert_eq!(vm.memory[79], 0x80);
    // past the font everything is zero
    assert_eq!(vm.memory[80], 0);
    assert_eq!(vm.memory[0x200], 0);
}

#[test]
fn load_rom_writes_at_load_address() {
    let mut vm = VM::new();
    assert_eq!(vm.load_rom(vec![0xAA, 0xBB, 0xCC]), Ok(()));
    assert_eq!(vm.memory[0x200], 0xAA);
    assert_eq!(vm.memory[0x201], 0xBB);
    assert_eq!(vm.memory[0x202], 0xCC);
    assert_eq!(vm.memory[0x203], 0x00);
}

#[test]
fn load_rom_rejects_oversized_image() {
    let mut vm = VM::new();
    let image = vec![0u8; 4096 - 0x200 + 1];
    assert_eq!(vm.load_rom(image), Err(VmError::LoadTooLarge));
    // a maximal image still fits
    let image = vec![7u8; 4096 - 0x200];
    assert_eq!(vm.load_rom(image), Ok(()));
    assert_eq!(vm.memory[4095], 7);
}

#[test]
fn fetch_is_big_endian_and_advances_pc() {
    let mut vm = VM::new();
    // 0x61AB: load 0xAB into V1
    vm.load_rom(vec![0x61, 0xAB]).unwrap();
    assert_eq!(vm.tick_with_random(0), Ok(()));
    assert_eq!(vm.registers[1], 0xAB);
    assert_eq!(vm.pc, 0x202);
}

#[test]
fn tick_fails_on_unknown_opcode() {
    let mut vm = VM::new();
    vm.load_rom(vec![0x01, 0x23]).unwrap();
    assert_eq!(vm.tick_with_random(0), Err(VmError::UnknownOpcode(0x0123)));
    // the counter has still advanced past the bad word
    assert_eq!(vm.pc, 0x202);
}

#[test]
fn tick_fails_on_stack_underflow() {
    let mut vm = VM::new();
    vm.load_rom(vec![0x00, 0xEE]).unwrap();
    assert_eq!(vm.tick_with_random(0), Err(VmError::StackUnderflow));
}

#[test]
fn add_register_wraps() {
    let mut vm = VM::new();
    vm.execute(OpCode::SetRegister(1, 0xFF), 0).unwrap();
    vm.execute(OpCode::AddRegister(1, 0x02), 0).unwrap();
    assert_eq!(vm.registers[1], 0x01);
    // the immediate add leaves the flag register alone
    assert_eq!(vm.registers[15], 0);
}

#[test]
fn add_y_to_x_sets_carry_flag() {
    let mut vm = VM::new();
    vm.execute(OpCode::SetRegister(1, 0xF0), 0).unwrap();
    vm.execute(OpCode::SetRegister(2, 0x20), 0).unwrap();
    vm.execute(OpCode::AddYtoX(1, 2), 0).unwrap();
    assert_eq!(vm.registers[1], 0x10);
    assert_eq!(vm.registers[15], 1);

    vm.execute(OpCode::SetRegister(1, 0x10), 0).unwrap();
    vm.execute(OpCode::AddYtoX(1, 2), 0).unwrap();
    assert_eq!(vm.registers[1], 0x30);
    assert_eq!(vm.registers[15], 0);
}

#[test]
fn subtract_y_from_x_sets_no_borrow_flag() {
    let mut vm = VM::new();
    vm.execute(OpCode::SetRegister(1, 0x05), 0).unwrap();
    vm.execute(OpCode::SetRegister(2, 0x07), 0).unwrap();
    vm.execute(OpCode::SubtractYfromX(1, 2), 0).unwrap();
    // 5 - 7 wraps; a borrow occurred, so VF = 0
    assert_eq!(vm.registers[1], 0xFE);
    assert_eq!(vm.registers[15], 0);

    vm.execute(OpCode::SetRegister(1, 0x09), 0).unwrap();
    vm.execute(OpCode::SubtractYfromX(1, 2), 0).unwrap();
    assert_eq!(vm.registers[1], 0x02);
    assert_eq!(vm.registers[15], 1);
}

#[test]
fn subtract_x_from_y_is_the_other_direction() {
    let mut vm = VM::new();
    vm.execute(OpCode::SetRegister(1, 0x07), 0).unwrap();
    vm.execute(OpCode::SetRegister(2, 0x05), 0).unwrap();
    vm.execute(OpCode::SubtractXfromY(1, 2), 0).unwrap();
    // V1 = V2 - V1 = 5 - 7, wrapping, borrow
    assert_eq!(vm.registers[1], 0xFE);
    assert_eq!(vm.registers[15], 0);
}

#[test]
fn shift_right_with_quirk_copies_y_first() {
    let mut vm = VM::new();
    vm.execute(OpCode::SetRegister(1, 0x00), 0).unwrap();
    vm.execute(OpCode::SetRegister(2, 0x05), 0).unwrap();
    vm.execute(OpCode::ShiftRight(1, 2), 0).unwrap();
    assert_eq!(vm.registers[1], 0x02);
    assert_eq!(vm.registers[15], 1);
}

#[test]
fn shift_right_without_quirk_uses_x() {
    let mut vm = VM::new();
    vm.set_load_y_before_shift(false);
    vm.execute(OpCode::SetRegister(1, 0x06), 0).unwrap();
    vm.execute(OpCode::SetRegister(2, 0x05), 0).unwrap();
    vm.execute(OpCode::ShiftRight(1, 2), 0).unwrap();
    assert_eq!(vm.registers[1], 0x03);
    assert_eq!(vm.registers[15], 0);
}

#[test]
fn shift_left_reports_top_bit() {
    let mut vm = VM::new();
    vm.execute(OpCode::SetRegister(2, 0x81), 0).unwrap();
    vm.execute(OpCode::ShiftLeft(1, 2), 0).unwrap();
    assert_eq!(vm.registers[1], 0x02);
    assert_eq!(vm.registers[15], 1);
}

#[test]
fn bitwise_ops() {
    let mut vm = VM::new();
    vm.execute(OpCode::SetRegister(1, 0b1100), 0).unwrap();
    vm.execute(OpCode::SetRegister(2, 0b1010), 0).unwrap();
    vm.execute(OpCode::BitwiseOr(1, 2), 0).unwrap();
    assert_eq!(vm.registers[1], 0b1110);
    vm.execute(OpCode::SetRegister(1, 0b1100), 0).unwrap();
    vm.execute(OpCode::BitwiseAnd(1, 2), 0).unwrap();
    assert_eq!(vm.registers[1], 0b1000);
    vm.execute(OpCode::SetRegister(1, 0b1100), 0).unwrap();
    vm.execute(OpCode::BitwiseXor(1, 2), 0).unwrap();
    assert_eq!(vm.registers[1], 0b0110);
}

#[test]
fn bcd_round_trip() {
    let mut vm = VM::new();
    vm.execute(OpCode::SetRegister(1, 157), 0).unwrap();
    vm.execute(OpCode::SetIndexRegister(0x300), 0).unwrap();
    vm.execute(OpCode::SaveBCDConversionToMemory(1), 0).unwrap();
    assert_eq!(vm.memory[0x300], 1);
    assert_eq!(vm.memory[0x301], 5);
    assert_eq!(vm.memory[0x302], 7);
}

#[test]
fn store_load_round_trip() {
    let mut vm = VM::new();
    for (i, value) in [0x11u8, 0x22, 0x33, 0x44].into_iter().enumerate() {
        vm.execute(OpCode::SetRegister(i as u8, value), 0).unwrap();
    }
    vm.execute(OpCode::SetIndexRegister(0x400), 0).unwrap();
    vm.execute(OpCode::StoreMemory(3), 0).unwrap();
    assert_eq!(&vm.memory[0x400..0x404], &[0x11, 0x22, 0x33, 0x44]);
    // clobber the registers, then load them back
    for i in 0..4u8 {
        vm.execute(OpCode::SetRegister(i, 0xEE), 0).unwrap();
    }
    vm.execute(OpCode::LoadMemory(3), 0).unwrap();
    assert_eq!(&vm.registers[0..4], &[0x11, 0x22, 0x33, 0x44]);
}

#[test]
fn subroutine_symmetry() {
    let mut vm = VM::new();
    // 0x200: call 0x204; 0x204: return
    vm.load_rom(vec![0x22, 0x04, 0x00, 0x00, 0x00, 0xEE]).unwrap();
    assert_eq!(vm.tick_with_random(0), Ok(()));
    assert_eq!(vm.pc, 0x204);
    assert_eq!(vm.stack, vec![0x202]);
    assert_eq!(vm.tick_with_random(0), Ok(()));
    // back to just after the call instruction
    assert_eq!(vm.pc, 0x202);
    assert_eq!(vm.stack.len(), 0);
}

#[test]
fn skip_if_register_equal_is_symmetric() {
    let mut vm = VM::new();
    vm.execute(OpCode::SetRegister(1, 9), 0).unwrap();
    vm.execute(OpCode::SetRegister(2, 9), 0).unwrap();
    let pc = vm.pc;
    vm.execute(OpCode::SkipIfRegisterEqual(1, 2), 0).unwrap();
    assert_eq!(vm.pc, pc + 2);
    vm.execute(OpCode::SkipIfRegisterNotEqual(1, 2), 0).unwrap();
    assert_eq!(vm.pc, pc + 2);

    vm.execute(OpCode::SetRegister(2, 8), 0).unwrap();
    vm.execute(OpCode::SkipIfRegisterEqual(1, 2), 0).unwrap();
    assert_eq!(vm.pc, pc + 2);
    vm.execute(OpCode::SkipIfRegisterNotEqual(1, 2), 0).unwrap();
    assert_eq!(vm.pc, pc + 4);
}

#[test]
fn skip_against_immediate() {
    let mut vm = VM::new();
    vm.execute(OpCode::SetRegister(1, 0x22), 0).unwrap();
    let pc = vm.pc;
    vm.execute(OpCode::SkipIfMemoryEqual(1, 0x22), 0).unwrap();
    assert_eq!(vm.pc, pc + 2);
    vm.execute(OpCode::SkipIfMemoryEqual(1, 0x23), 0).unwrap();
    assert_eq!(vm.pc, pc + 2);
    vm.execute(OpCode::SkipIfMemoryNotEqual(1, 0x23), 0).unwrap();
    assert_eq!(vm.pc, pc + 4);
    vm.execute(OpCode::SkipIfMemoryNotEqual(1, 0x22), 0).unwrap();
    assert_eq!(vm.pc, pc + 4);
}

#[test]
fn jumps() {
    let mut vm = VM::new();
    vm.execute(OpCode::Jump(0x321), 0).unwrap();
    assert_eq!(vm.pc, 0x321);
    vm.execute(OpCode::SetRegister(0, 0x10), 0).unwrap();
    vm.execute(OpCode::JumpWithOffset(0x300), 0).unwrap();
    assert_eq!(vm.pc, 0x310);
}

#[test]
fn index_register_ops() {
    let mut vm = VM::new();
    vm.execute(OpCode::SetIndexRegister(0x123), 0).unwrap();
    assert_eq!(vm.index, 0x123);
    vm.execute(OpCode::SetRegister(3, 0x10), 0).unwrap();
    vm.execute(OpCode::AddXToIndexRegister(3), 0).unwrap();
    assert_eq!(vm.index, 0x133);
    // the font address of the digit held in the register: glyphs are
    // 5 bytes each from address 0, and only the low nibble counts
    vm.execute(OpCode::SetRegister(4, 0x0A), 0).unwrap();
    vm.execute(OpCode::SetIndexToFontCharacter(4), 0).unwrap();
    assert_eq!(vm.index, 50);
    assert_eq!(vm.memory[vm.index as usize], 0xF0);
    vm.execute(OpCode::SetRegister(4, 0x1A), 0).unwrap();
    vm.execute(OpCode::SetIndexToFontCharacter(4), 0).unwrap();
    assert_eq!(vm.index, 50);
}

#[test]
fn delay_timer_ops() {
    let mut vm = VM::new();
    vm.execute(OpCode::SetRegister(1, 42), 0).unwrap();
    vm.execute(OpCode::SetDelayTimerValue(1), 0).unwrap();
    assert_eq!(vm.delay_timer, 42);
    vm.execute(OpCode::GetDelayTimerValue(2), 0).unwrap();
    assert_eq!(vm.registers[2], 42);
}

#[test]
fn sound_timer_op() {
    let mut vm = VM::new();
    vm.execute(OpCode::SetRegister(1, 9), 0).unwrap();
    vm.execute(OpCode::SetSoundTimerValue(1), 0).unwrap();
    assert_eq!(vm.sound_timer, 9);
}

#[test]
fn random_is_masked() {
    let mut vm = VM::new();
    vm.execute(OpCode::Random(1, 0x0F), 0xAB).unwrap();
    assert_eq!(vm.registers[1], 0x0B);
    // a zero mask pins the result whatever byte the machine draws
    vm.load_rom(vec![0xC2, 0x00]).unwrap();
    vm.execute(OpCode::SetRegister(2, 0x55), 0).unwrap();
    assert_eq!(vm.tick(), Ok(()));
    assert_eq!(vm.registers[2], 0);
}

#[test]
fn keypad_skips() {
    let mut vm = VM::new();
    vm.apply_signal(Signal::SendKeys(1 << 5));
    vm.execute(OpCode::SetRegister(1, 5), 0).unwrap();
    let pc = vm.pc;
    vm.execute(OpCode::SkipIfKeyPressed(1), 0).unwrap();
    assert_eq!(vm.pc, pc + 2);
    vm.execute(OpCode::SkipIfKeyNotPressed(1), 0).unwrap();
    assert_eq!(vm.pc, pc + 2);
    vm.execute(OpCode::SetRegister(1, 6), 0).unwrap();
    vm.execute(OpCode::SkipIfKeyPressed(1), 0).unwrap();
    assert_eq!(vm.pc, pc + 2);
    vm.execute(OpCode::SkipIfKeyNotPressed(1), 0).unwrap();
    assert_eq!(vm.pc, pc + 4);
}

#[test]
fn blocking_key_wait_spins_by_rewinding() {
    let mut vm = VM::new();
    vm.load_rom(vec![0xF1, 0x0A]).unwrap();
    // no key down: the instruction re-executes itself
    assert_eq!(vm.tick_with_random(0), Ok(()));
    assert_eq!(vm.pc, 0x200);
    assert_eq!(vm.tick_with_random(0), Ok(()));
    assert_eq!(vm.pc, 0x200);
    // a key arrives between iterations: execution moves on
    vm.apply_signal(Signal::SendKeys(0x0001));
    assert_eq!(vm.tick_with_random(0), Ok(()));
    assert_eq!(vm.pc, 0x202);
}

#[test]
fn draw_then_collision_toggles_off() {
    let mut vm = VM::new();
    vm.memory[0x300] = 0xFF;
    vm.execute(OpCode::SetIndexRegister(0x300), 0).unwrap();
    vm.execute(OpCode::SetRegister(0, 10), 0).unwrap();
    vm.execute(OpCode::SetRegister(1, 5), 0).unwrap();
    vm.execute(OpCode::Draw(0, 1, 1), 0).unwrap();
    for x in 10..18 {
        assert!(pixel(&vm, x, 5));
    }
    assert_eq!(vm.registers[15], 0);
    // the same draw again: every touched pixel toggles off, collision
    vm.execute(OpCode::Draw(0, 1, 1), 0).unwrap();
    for x in 10..18 {
        assert!(!pixel(&vm, x, 5));
    }
    assert_eq!(vm.registers[15], 1);
    assert!(vm.screen.iter().all(|&p| !p));
}

#[test]
fn draw_wraps_origin_and_clips_edges() {
    let mut vm = VM::new();
    vm.memory[0x300] = 0xFF;
    vm.memory[0x301] = 0xFF;
    vm.memory[0x302] = 0xFF;
    vm.execute(OpCode::SetIndexRegister(0x300), 0).unwrap();
    // origin wraps: 74 % 64 = 10, 37 % 32 = 5
    vm.execute(OpCode::SetRegister(0, 74), 0).unwrap();
    vm.execute(OpCode::SetRegister(1, 37), 0).unwrap();
    vm.execute(OpCode::Draw(0, 1, 1), 0).unwrap();
    assert!(pixel(&vm, 10, 5));
    vm.execute(OpCode::ClearScreen, 0).unwrap();
    // a sprite at the right and bottom corner clips instead of wrapping
    vm.execute(OpCode::SetRegister(0, 60), 0).unwrap();
    vm.execute(OpCode::SetRegister(1, 30), 0).unwrap();
    vm.execute(OpCode::Draw(0, 1, 3), 0).unwrap();
    let lit = vm.screen.iter().filter(|&&p| p).count();
    // 4 visible columns, 2 visible rows
    assert_eq!(lit, 8);
    assert!(pixel(&vm, 60, 30));
    assert!(pixel(&vm, 63, 31));
    assert!(!pixel(&vm, 0, 30));
    assert!(!pixel(&vm, 0, 0));
}

#[test]
fn clear_screen_clears() {
    let mut vm = VM::new();
    vm.memory[0x300] = 0xFF;
    vm.execute(OpCode::SetIndexRegister(0x300), 0).unwrap();
    vm.execute(OpCode::Draw(0, 1, 1), 0).unwrap();
    assert!(vm.screen.iter().any(|&p| p));
    vm.execute(OpCode::ClearScreen, 0).unwrap();
    assert!(vm.screen.iter().all(|&p| !p));
}

#[test]
fn timer_signals_decrement_and_saturate() {
    let mut vm = VM::new();
    vm.execute(OpCode::SetRegister(1, 2), 0).unwrap();
    vm.execute(OpCode::SetDelayTimerValue(1), 0).unwrap();
    vm.apply_signal(Signal::DecrementDelayTimer);
    assert_eq!(vm.delay_timer, 1);
    vm.apply_signal(Signal::DecrementDelayTimer);
    assert_eq!(vm.delay_timer, 0);
    vm.apply_signal(Signal::DecrementDelayTimer);
    assert_eq!(vm.delay_timer, 0);
    vm.apply_signal(Signal::DecrementSoundTimer);
    assert_eq!(vm.sound_timer, 0);
}

#[test]
fn timer_cadence_is_set_by_signals_not_instructions() {
    let mut vm = VM::new();
    vm.execute(OpCode::SetRegister(1, 5), 0).unwrap();
    vm.execute(OpCode::SetDelayTimerValue(1), 0).unwrap();
    vm.execute(OpCode::SetSoundTimerValue(1), 0).unwrap();
    // two render iterations' worth of signals, many instructions between
    vm.apply_signal(Signal::DecrementDelayTimer);
    vm.apply_signal(Signal::DecrementSoundTimer);
    for _ in 0..10 {
        vm.execute(OpCode::AddRegister(2, 1), 0).unwrap();
    }
    vm.apply_signal(Signal::DecrementDelayTimer);
    vm.apply_signal(Signal::DecrementSoundTimer);
    assert_eq!(vm.delay_timer, 3);
    assert_eq!(vm.sound_timer, 3);
}

#[test]
fn terminate_is_one_way() {
    let mut vm = VM::new();
    assert_eq!(vm.status, Status::Active);
    vm.terminate();
    assert_eq!(vm.status, Status::Terminated);
    // no signal moves it back
    vm.apply_signal(Signal::SendKeys(3));
    vm.apply_signal(Signal::DecrementDelayTimer);
    assert_eq!(vm.status, Status::Terminated);
    let mut vm2 = VM::new();
    vm2.apply_signal(Signal::Terminate);
    assert_eq!(vm2.status, Status::Terminated);
}
