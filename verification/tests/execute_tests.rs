use chip8::isa::{Chip8Error, Instruction};
use chip8::machine::Machine;
use chip8::register::VariableRegister;

const V0: VariableRegister = VariableRegister::V0;
const V1: VariableRegister = VariableRegister::V1;
const V2: VariableRegister = VariableRegister::V2;
const V3: VariableRegister = VariableRegister::V3;
const VF: VariableRegister = VariableRegister::VF;

#[test]
fn execute_jump() {
    let mut m = Machine::new();
    assert_eq!(m.execute(Instruction::Jump(0x300)), Ok(()));
    assert_eq!(m.pc(), 0x300);
}

#[test]
fn execute_jump_with_offset_adds_v0() {
    let mut m = Machine::new();
    m.set_reg(V0, 5);
    assert_eq!(m.execute(Instruction::JumpWithOffset(0x300)), Ok(()));
    assert_eq!(m.pc(), 0x305);
}

#[test]
fn execute_call_then_pop_restores_pc() {
    let mut m = Machine::new();
    assert_eq!(m.pc(), 0x200);
    assert_eq!(m.execute(Instruction::Call(0x400)), Ok(()));
    assert_eq!(m.pc(), 0x400);
    assert_eq!(m.stack_depth(), 1);
    assert_eq!(m.execute(Instruction::Pop), Ok(()));
    assert_eq!(m.pc(), 0x200);
    assert_eq!(m.stack_depth(), 0);
}

#[test]
fn execute_pop_on_empty_stack_underflows() {
    let mut m = Machine::new();
    assert_eq!(m.execute(Instruction::Pop), Err(Chip8Error::StackUnderflow));
    assert_eq!(m.pc(), 0x200);
}

#[test]
fn execute_set_and_add_reg_imm() {
    let mut m = Machine::new();
    assert_eq!(m.execute(Instruction::SetRegImm(V1, 250)), Ok(()));
    assert_eq!(m.reg(V1), 250);
    assert_eq!(m.execute(Instruction::AddRegImm(V1, 10)), Ok(()));
    // wraps modulo 256 without touching VF
    assert_eq!(m.reg(V1), 4);
    assert_eq!(m.reg(VF), 0);
}

#[test]
fn execute_set_index() {
    let mut m = Machine::new();
    assert_eq!(m.execute(Instruction::SetIdxRegImm(0x123)), Ok(()));
    assert_eq!(m.index_register(), 0x123);
}

#[test]
fn execute_skip_if_eq_imm() {
    let mut m = Machine::new();
    m.set_reg(V1, 7);
    assert_eq!(m.execute(Instruction::SkipIfEqImm(V1, 7)), Ok(()));
    assert_eq!(m.pc(), 0x202);
    assert_eq!(m.execute(Instruction::SkipIfEqImm(V1, 8)), Ok(()));
    assert_eq!(m.pc(), 0x202);
}

#[test]
fn execute_skip_if_neq_imm() {
    let mut m = Machine::new();
    m.set_reg(V1, 7);
    assert_eq!(m.execute(Instruction::SkipIfNeqImm(V1, 7)), Ok(()));
    assert_eq!(m.pc(), 0x200);
    assert_eq!(m.execute(Instruction::SkipIfNeqImm(V1, 8)), Ok(()));
    assert_eq!(m.pc(), 0x202);
}

#[test]
fn execute_skip_reg_comparisons() {
    let mut m = Machine::new();
    m.set_reg(V1, 7);
    m.set_reg(V2, 7);
    m.set_reg(V3, 9);
    assert_eq!(m.execute(Instruction::SkipIfEqReg(V1, V2)), Ok(()));
    assert_eq!(m.pc(), 0x202);
    assert_eq!(m.execute(Instruction::SkipIfEqReg(V1, V3)), Ok(()));
    assert_eq!(m.pc(), 0x202);
    assert_eq!(m.execute(Instruction::SkipIfNeqReg(V1, V3)), Ok(()));
    assert_eq!(m.pc(), 0x204);
    assert_eq!(m.execute(Instruction::SkipIfNeqReg(V1, V2)), Ok(()));
    assert_eq!(m.pc(), 0x204);
}

#[test]
fn execute_set_or_and_xor() {
    let mut m = Machine::new();
    m.set_reg(V1, 0b1100);
    m.set_reg(V2, 0b1010);
    assert_eq!(m.execute(Instruction::BinOr(V1, V2)), Ok(()));
    assert_eq!(m.reg(V1), 0b1110);
    m.set_reg(V1, 0b1100);
    assert_eq!(m.execute(Instruction::BinAnd(V1, V2)), Ok(()));
    assert_eq!(m.reg(V1), 0b1000);
    m.set_reg(V1, 0b1100);
    assert_eq!(m.execute(Instruction::Xor(V1, V2)), Ok(()));
    assert_eq!(m.reg(V1), 0b0110);
    assert_eq!(m.execute(Instruction::SetReg(V1, V2)), Ok(()));
    assert_eq!(m.reg(V1), 0b1010);
}

#[test]
fn execute_add_sets_carry_exactly_on_overflow() {
    let mut m = Machine::new();
    m.set_reg(V1, 10);
    m.set_reg(V2, 20);
    assert_eq!(m.execute(Instruction::Add(V1, V2)), Ok(()));
    assert_eq!(m.reg(V1), 30);
    assert_eq!(m.reg(VF), 0);
    m.set_reg(V1, 200);
    m.set_reg(V2, 100);
    assert_eq!(m.execute(Instruction::Add(V1, V2)), Ok(()));
    // 300 mod 256
    assert_eq!(m.reg(V1), 44);
    assert_eq!(m.reg(VF), 1);
}

#[test]
fn execute_subtract_lr_flag_is_no_borrow() {
    let mut m = Machine::new();
    m.set_reg(V1, 30);
    m.set_reg(V2, 10);
    assert_eq!(m.execute(Instruction::SubtractLR(V1, V2)), Ok(()));
    assert_eq!(m.reg(V1), 20);
    assert_eq!(m.reg(VF), 1);
    m.set_reg(V1, 10);
    m.set_reg(V2, 30);
    assert_eq!(m.execute(Instruction::SubtractLR(V1, V2)), Ok(()));
    // (10 - 30) mod 256
    assert_eq!(m.reg(V1), 236);
    assert_eq!(m.reg(VF), 0);
    m.set_reg(V1, 10);
    m.set_reg(V2, 10);
    assert_eq!(m.execute(Instruction::SubtractLR(V1, V2)), Ok(()));
    // equal operands: no borrow, so the flag is set
    assert_eq!(m.reg(V1), 0);
    assert_eq!(m.reg(VF), 1);
}

#[test]
fn execute_subtract_rl() {
    let mut m = Machine::new();
    m.set_reg(V1, 10);
    m.set_reg(V2, 30);
    assert_eq!(m.execute(Instruction::SubtractRL(V1, V2)), Ok(()));
    assert_eq!(m.reg(V1), 20);
    assert_eq!(m.reg(VF), 1);
    m.set_reg(V1, 30);
    m.set_reg(V2, 10);
    assert_eq!(m.execute(Instruction::SubtractRL(V1, V2)), Ok(()));
    assert_eq!(m.reg(V1), 236);
    assert_eq!(m.reg(VF), 0);
}

#[test]
fn execute_shift_left_flag_is_top_bit() {
    let mut m = Machine::new();
    m.set_reg(V1, 0b1000_0001);
    assert_eq!(m.execute(Instruction::ShiftLeft(V1, V2)), Ok(()));
    assert_eq!(m.reg(V1), 0b0000_0010);
    assert_eq!(m.reg(VF), 1);
    m.set_reg(V1, 0x40);
    assert_eq!(m.execute(Instruction::ShiftLeft(V1, V2)), Ok(()));
    assert_eq!(m.reg(V1), 0x80);
    assert_eq!(m.reg(VF), 0);
}

#[test]
fn execute_shift_right_flag_is_bottom_bit() {
    let mut m = Machine::new();
    m.set_reg(V1, 0b0000_0011);
    assert_eq!(m.execute(Instruction::ShiftRight(V1, V2)), Ok(()));
    assert_eq!(m.reg(V1), 1);
    assert_eq!(m.reg(VF), 1);
    m.set_reg(V1, 4);
    assert_eq!(m.execute(Instruction::ShiftRight(V1, V2)), Ok(()));
    assert_eq!(m.reg(V1), 2);
    assert_eq!(m.reg(VF), 0);
}

#[test]
fn execute_shifts_ignore_second_operand() {
    // same starting state, different second operand register: same outcome
    let mut a = Machine::new();
    let mut b = Machine::new();
    a.set_reg(V1, 0xA5);
    b.set_reg(V1, 0xA5);
    a.set_reg(V2, 0x00);
    b.set_reg(V2, 0xFF);
    assert_eq!(a.execute(Instruction::ShiftLeft(V1, V2)), Ok(()));
    assert_eq!(b.execute(Instruction::ShiftLeft(V1, V3)), Ok(()));
    assert_eq!(a.reg(V1), b.reg(V1));
    assert_eq!(a.reg(VF), b.reg(VF));
}

#[test]
fn execute_random_respects_mask() {
    let mut m = Machine::new();
    m.set_reg(V3, 0xAA);
    // a zero mask forces a zero result whatever byte was drawn
    assert_eq!(m.execute(Instruction::Random(V3, 0x00)), Ok(()));
    assert_eq!(m.reg(V3), 0);
    for _ in 0..32 {
        assert_eq!(m.execute(Instruction::Random(V3, 0x0F)), Ok(()));
        assert!(m.reg(V3) <= 0x0F);
    }
}

#[test]
fn apply_random_masks_the_byte() {
    let mut m = Machine::new();
    m.apply_random(V3, 0x0F, 0xAB);
    assert_eq!(m.reg(V3), 0x0B);
}

#[test]
fn execute_skip_key_pressed() {
    let mut m = Machine::new();
    m.set_reg(V1, 5);
    assert_eq!(m.execute(Instruction::SkipIfKeyPressed(V1)), Ok(()));
    assert_eq!(m.pc(), 0x200);
    m.set_key(5, true);
    assert_eq!(m.execute(Instruction::SkipIfKeyPressed(V1)), Ok(()));
    assert_eq!(m.pc(), 0x202);
}

#[test]
fn execute_skip_key_not_pressed() {
    let mut m = Machine::new();
    m.set_reg(V1, 5);
    assert_eq!(m.execute(Instruction::SkipIfKeyNotPressed(V1)), Ok(()));
    assert_eq!(m.pc(), 0x202);
    m.set_key(5, true);
    assert_eq!(m.execute(Instruction::SkipIfKeyNotPressed(V1)), Ok(()));
    assert_eq!(m.pc(), 0x202);
}

#[test]
fn execute_timers_move_through_registers() {
    let mut m = Machine::new();
    m.set_reg(V0, 42);
    assert_eq!(m.execute(Instruction::SetDelayTimer(V0)), Ok(()));
    assert_eq!(m.delay_timer(), 42);
    assert_eq!(m.execute(Instruction::GetDelayTimer(V1)), Ok(()));
    assert_eq!(m.reg(V1), 42);
    m.set_reg(V0, 9);
    assert_eq!(m.execute(Instruction::SetSoundTimer(V0)), Ok(()));
    assert_eq!(m.sound_timer(), 9);
}

#[test]
fn execute_get_key_rewinds_without_a_key() {
    let mut m = Machine::new();
    m.set_pc(0x202);
    assert_eq!(m.execute(Instruction::GetKey(V1)), Ok(()));
    assert_eq!(m.pc(), 0x200);
    assert_eq!(m.reg(V1), 0);
}

#[test]
fn execute_get_key_stores_lowest_pressed_key() {
    let mut m = Machine::new();
    m.set_pc(0x202);
    m.set_key(9, true);
    m.set_key(4, true);
    assert_eq!(m.execute(Instruction::GetKey(V1)), Ok(()));
    // the counter stays where it is and the lowest pressed key lands in Vx
    assert_eq!(m.pc(), 0x202);
    assert_eq!(m.reg(V1), 4);
}

#[test]
fn execute_get_key_with_rewind_below_zero_fails() {
    let mut m = Machine::new();
    m.set_pc(0);
    assert_eq!(
        m.execute(Instruction::GetKey(V1)),
        Err(Chip8Error::OutOfBounds)
    );
    assert_eq!(m.pc(), 0);
}

#[test]
fn execute_font_points_at_glyph() {
    let mut m = Machine::new();
    m.set_reg(V1, 0xA);
    assert_eq!(m.execute(Instruction::Font(V1)), Ok(()));
    assert_eq!(m.index_register(), 50);
    // only the low nibble of the register names the digit
    m.set_reg(V1, 0x1A);
    assert_eq!(m.execute(Instruction::Font(V1)), Ok(()));
    assert_eq!(m.index_register(), 50);
}

#[test]
fn execute_bcd_writes_three_digits() {
    let mut m = Machine::new();
    m.set_reg(V1, 234);
    m.set_index(0x300);
    assert_eq!(m.execute(Instruction::BinDecConversion(V1)), Ok(()));
    assert_eq!(m.mem_byte(0x300), 2);
    assert_eq!(m.mem_byte(0x301), 3);
    assert_eq!(m.mem_byte(0x302), 4);
}

#[test]
fn execute_bcd_out_of_bounds_fails() {
    let mut m = Machine::new();
    m.set_reg(V1, 7);
    m.set_index(4094);
    assert_eq!(
        m.execute(Instruction::BinDecConversion(V1)),
        Err(Chip8Error::OutOfBounds)
    );
    assert_eq!(m.mem_byte(4094), 0);
}

#[test]
fn execute_store_then_load_round_trips_all_sixteen() {
    let mut m = Machine::new();
    for n in 0u8..16 {
        m.set_reg(VariableRegister::from_nibble(n), 100 + n);
    }
    m.set_index(0x300);
    assert_eq!(m.execute(Instruction::Store(0xF)), Ok(()));
    // register order V0..VF is preserved in memory
    for n in 0u8..16 {
        assert_eq!(m.mem_byte(0x300 + n as usize), 100 + n);
    }
    for n in 0u8..16 {
        m.set_reg(VariableRegister::from_nibble(n), 0);
    }
    assert_eq!(m.execute(Instruction::Load(0xF)), Ok(()));
    for n in 0u8..16 {
        assert_eq!(m.reg(VariableRegister::from_nibble(n)), 100 + n);
    }
    assert_eq!(m.index_register(), 0x300);
}

#[test]
fn execute_store_writes_inclusive_prefix() {
    let mut m = Machine::new();
    m.set_reg(V0, 11);
    m.set_reg(V1, 22);
    m.set_reg(V2, 33);
    m.set_index(0x300);
    assert_eq!(m.execute(Instruction::Store(1)), Ok(()));
    assert_eq!(m.mem_byte(0x300), 11);
    assert_eq!(m.mem_byte(0x301), 22);
    // V2 lies past the inclusive bound and is not written
    assert_eq!(m.mem_byte(0x302), 0);
}

#[test]
fn execute_store_invalid_register_position_fails() {
    let mut m = Machine::new();
    assert_eq!(
        m.execute(Instruction::Store(16)),
        Err(Chip8Error::InvalidRegister)
    );
    assert_eq!(
        m.execute(Instruction::Load(200)),
        Err(Chip8Error::InvalidRegister)
    );
}

#[test]
fn execute_store_out_of_bounds_fails() {
    let mut m = Machine::new();
    m.set_index(4090);
    assert_eq!(
        m.execute(Instruction::Store(0xF)),
        Err(Chip8Error::OutOfBounds)
    );
    assert_eq!(
        m.execute(Instruction::Load(0xF)),
        Err(Chip8Error::OutOfBounds)
    );
}

#[test]
fn execute_add_to_index_flags_address_overflow() {
    let mut m = Machine::new();
    m.set_index(10);
    m.set_reg(V1, 5);
    assert_eq!(m.execute(Instruction::AddToIndex(V1)), Ok(()));
    assert_eq!(m.index_register(), 15);
    assert_eq!(m.reg(VF), 0);
    m.set_index(0xFFE);
    m.set_reg(V1, 2);
    assert_eq!(m.execute(Instruction::AddToIndex(V1)), Ok(()));
    assert_eq!(m.index_register(), 0x1000);
    assert_eq!(m.reg(VF), 1);
}

#[test]
fn execute_display_with_zero_rows_changes_nothing() {
    let mut m = Machine::new();
    m.set_index(0);
    let ins = Instruction::Display { x: V0, y: V1, n: 0 };
    assert_eq!(m.execute(ins), Ok(()));
    for y in 0..32usize {
        for x in 0..64usize {
            assert!(!m.pixel(x, y));
        }
    }
    assert_eq!(m.reg(VF), 0);
}

#[test]
fn execute_skip_eq_reg_same_register_always_skips() {
    let mut m = Machine::new();
    m.set_reg(V1, 9);
    assert_eq!(m.execute(Instruction::SkipIfEqReg(V1, V1)), Ok(()));
    assert_eq!(m.pc(), 0x202);
    assert_eq!(m.execute(Instruction::SkipIfNeqReg(V1, V1)), Ok(()));
    assert_eq!(m.pc(), 0x202);
}

#[test]
fn execute_add_register_to_itself() {
    let mut m = Machine::new();
    m.set_reg(V1, 200);
    assert_eq!(m.execute(Instruction::Add(V1, V1)), Ok(()));
    // 400 mod 256, with the carry flag set
    assert_eq!(m.reg(V1), 144);
    assert_eq!(m.reg(VF), 1);
}
