use chip8::isa::{decode, Chip8Error, Instruction};
use chip8::register::VariableRegister;

#[test]
fn decode_clear_screen() {
    assert_eq!(decode(0x00E0), Ok(Instruction::ClearScreen));
}

#[test]
fn decode_pop() {
    assert_eq!(decode(0x00EE), Ok(Instruction::Pop));
}

#[test]
fn decode_unknown_zero_family() {
    assert_eq!(decode(0x0123), Err(Chip8Error::UnknownOpcode(0x0123)));
    assert_eq!(decode(0x00E1), Err(Chip8Error::UnknownOpcode(0x00E1)));
}

#[test]
fn decode_jump() {
    assert_eq!(decode(0x1ABC), Ok(Instruction::Jump(0xABC)));
}

#[test]
fn decode_call() {
    assert_eq!(decode(0x2ABC), Ok(Instruction::Call(0xABC)));
}

#[test]
fn decode_skip_eq_imm() {
    assert_eq!(
        decode(0x3A42),
        Ok(Instruction::SkipIfEqImm(VariableRegister::VA, 0x42))
    );
}

#[test]
fn decode_skip_neq_imm() {
    assert_eq!(
        decode(0x4B10),
        Ok(Instruction::SkipIfNeqImm(VariableRegister::VB, 0x10))
    );
}

#[test]
fn decode_skip_eq_reg() {
    assert_eq!(
        decode(0x5AB0),
        Ok(Instruction::SkipIfEqReg(
            VariableRegister::VA,
            VariableRegister::VB
        ))
    );
    assert_eq!(decode(0x5AB1), Err(Chip8Error::UnknownOpcode(0x5AB1)));
}

#[test]
fn decode_set_reg_imm() {
    assert_eq!(
        decode(0x6A3C),
        Ok(Instruction::SetRegImm(VariableRegister::VA, 0x3C))
    );
}

#[test]
fn decode_add_reg_imm() {
    assert_eq!(
        decode(0x7C05),
        Ok(Instruction::AddRegImm(VariableRegister::VC, 0x05))
    );
}

#[test]
fn decode_alu_family() {
    let a = VariableRegister::VA;
    let b = VariableRegister::VB;
    assert_eq!(decode(0x8AB0), Ok(Instruction::SetReg(a, b)));
    assert_eq!(decode(0x8AB1), Ok(Instruction::BinOr(a, b)));
    assert_eq!(decode(0x8AB2), Ok(Instruction::BinAnd(a, b)));
    assert_eq!(decode(0x8AB3), Ok(Instruction::Xor(a, b)));
    assert_eq!(decode(0x8AB4), Ok(Instruction::Add(a, b)));
    assert_eq!(decode(0x8AB5), Ok(Instruction::SubtractLR(a, b)));
    assert_eq!(decode(0x8AB6), Ok(Instruction::ShiftRight(a, b)));
    assert_eq!(decode(0x8AB7), Ok(Instruction::SubtractRL(a, b)));
    assert_eq!(decode(0x8ABE), Ok(Instruction::ShiftLeft(a, b)));
    assert_eq!(decode(0x8AB8), Err(Chip8Error::UnknownOpcode(0x8AB8)));
}

#[test]
fn decode_skip_neq_reg() {
    assert_eq!(
        decode(0x9AB0),
        Ok(Instruction::SkipIfNeqReg(
            VariableRegister::VA,
            VariableRegister::VB
        ))
    );
    assert_eq!(decode(0x9AB2), Err(Chip8Error::UnknownOpcode(0x9AB2)));
}

#[test]
fn decode_set_index() {
    assert_eq!(decode(0xA123), Ok(Instruction::SetIdxRegImm(0x123)));
}

#[test]
fn decode_jump_with_offset() {
    assert_eq!(decode(0xB123), Ok(Instruction::JumpWithOffset(0x123)));
}

#[test]
fn decode_random() {
    assert_eq!(
        decode(0xC2F0),
        Ok(Instruction::Random(VariableRegister::V2, 0xF0))
    );
}

#[test]
fn decode_display() {
    assert_eq!(
        decode(0xD125),
        Ok(Instruction::Display {
            x: VariableRegister::V1,
            y: VariableRegister::V2,
            n: 5
        })
    );
}

#[test]
fn decode_key_skips() {
    assert_eq!(
        decode(0xE19E),
        Ok(Instruction::SkipIfKeyPressed(VariableRegister::V1))
    );
    assert_eq!(
        decode(0xE1A1),
        Ok(Instruction::SkipIfKeyNotPressed(VariableRegister::V1))
    );
    assert_eq!(decode(0xE100), Err(Chip8Error::UnknownOpcode(0xE100)));
}

#[test]
fn decode_timer_and_memory_family() {
    let r = VariableRegister::V1;
    assert_eq!(decode(0xF107), Ok(Instruction::GetDelayTimer(r)));
    assert_eq!(decode(0xF10A), Ok(Instruction::GetKey(r)));
    assert_eq!(decode(0xF115), Ok(Instruction::SetDelayTimer(r)));
    assert_eq!(decode(0xF118), Ok(Instruction::SetSoundTimer(r)));
    assert_eq!(decode(0xF11E), Ok(Instruction::AddToIndex(r)));
    assert_eq!(decode(0xF129), Ok(Instruction::Font(r)));
    assert_eq!(decode(0xF133), Ok(Instruction::BinDecConversion(r)));
    assert_eq!(decode(0xF155), Ok(Instruction::Store(1)));
    assert_eq!(decode(0xF165), Ok(Instruction::Load(1)));
    assert_eq!(decode(0xF1FF), Err(Chip8Error::UnknownOpcode(0xF1FF)));
}

#[test]
fn decode_from_nibble_round_trip() {
    for n in 0u8..16 {
        let r = VariableRegister::from_nibble(n);
        assert_eq!(r.index(), n as usize);
    }
}
