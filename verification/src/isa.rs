use vstd::prelude::*;

use crate::register::{reg_of_nibble, VariableRegister};

verus! {

/// A decoded CHIP-8 instruction.
///
/// Field conventions follow the opcode layout: `x` and `y` name variable
/// registers taken from bits 8..12 and 4..8 of the opcode, and the literal
/// operands are the low nibble (`n`), the low byte (`nn`) or the low twelve
/// bits (`nnn`).
#[derive(Debug, Copy, Clone, PartialEq, Eq, Structural)]
pub enum Instruction {
    ClearScreen,
    Jump(u16),
    JumpWithOffset(u16),
    Call(u16),
    Pop,
    SetRegImm(VariableRegister, u8),
    AddRegImm(VariableRegister, u8),
    SetIdxRegImm(u16),
    Display { x: VariableRegister, y: VariableRegister, n: u8 },
    SkipIfEqImm(VariableRegister, u8),
    SkipIfNeqImm(VariableRegister, u8),
    SkipIfEqReg(VariableRegister, VariableRegister),
    SkipIfNeqReg(VariableRegister, VariableRegister),
    SetReg(VariableRegister, VariableRegister),
    BinOr(VariableRegister, VariableRegister),
    BinAnd(VariableRegister, VariableRegister),
    Xor(VariableRegister, VariableRegister),
    Add(VariableRegister, VariableRegister),
    SubtractLR(VariableRegister, VariableRegister),
    SubtractRL(VariableRegister, VariableRegister),
    ShiftLeft(VariableRegister, VariableRegister),
    ShiftRight(VariableRegister, VariableRegister),
    Random(VariableRegister, u8),
    SkipIfKeyPressed(VariableRegister),
    SkipIfKeyNotPressed(VariableRegister),
    GetDelayTimer(VariableRegister),
    SetDelayTimer(VariableRegister),
    SetSoundTimer(VariableRegister),
    GetKey(VariableRegister),
    Font(VariableRegister),
    BinDecConversion(VariableRegister),
    Store(u8),
    Load(u8),
    AddToIndex(VariableRegister),
}

/// A fatal machine condition. None of these are recoverable: the emulation
/// loop stops on the first one.
#[derive(Debug, Copy, Clone, PartialEq, Eq, Structural)]
pub enum Chip8Error {
    /// The opcode matches no defined pattern.
    UnknownOpcode(u16),
    /// A return was executed with an empty stack.
    StackUnderflow,
    /// An instruction would touch memory outside the 4096-byte address space,
    /// or rewind the program counter below zero.
    OutOfBounds,
    /// A register-block store or load names a register position above 15.
    /// Unreachable through `decode`, which masks the field to a nibble.
    InvalidRegister,
}

/// Bits 8..12 of an opcode: the `x` register field.
pub open spec fn op_x(op: u16) -> u8 {
    ((op >> 8u16) & 0xFu16) as u8
}

/// Bits 4..8 of an opcode: the `y` register field.
pub open spec fn op_y(op: u16) -> u8 {
    ((op >> 4u16) & 0xFu16) as u8
}

/// The low nibble of an opcode: the `n` literal.
pub open spec fn op_n(op: u16) -> u8 {
    (op & 0xFu16) as u8
}

/// The low byte of an opcode: the `nn` literal.
pub open spec fn op_nn(op: u16) -> u8 {
    (op & 0xFFu16) as u8
}

/// The low twelve bits of an opcode: the `nnn` address literal.
pub open spec fn op_nnn(op: u16) -> u16 {
    op & 0xFFFu16
}

pub proof fn lemma_op_field_bounds(op: u16)
    by (bit_vector)
    ensures
        op >> 12u16 < 16,
        op_x(op) < 16,
        op_y(op) < 16,
        op_n(op) < 16,
        op_nnn(op) < 4096,
{
}

/// The instruction an opcode decodes to, or `None` where no pattern matches.
///
/// Dispatch is nibble-wise: the high nibble selects a family, and within
/// several families the low nibble or low byte selects the operation.
pub open spec fn decode_of(op: u16) -> Option<Instruction> {
    let hi = op >> 12u16;
    let x = reg_of_nibble(op_x(op));
    let y = reg_of_nibble(op_y(op));
    if hi == 0x0 {
        if op == 0x00E0 {
            Some(Instruction::ClearScreen)
        } else if op == 0x00EE {
            Some(Instruction::Pop)
        } else {
            None
        }
    } else if hi == 0x1 {
        Some(Instruction::Jump(op_nnn(op)))
    } else if hi == 0x2 {
        Some(Instruction::Call(op_nnn(op)))
    } else if hi == 0x3 {
        Some(Instruction::SkipIfEqImm(x, op_nn(op)))
    } else if hi == 0x4 {
        Some(Instruction::SkipIfNeqImm(x, op_nn(op)))
    } else if hi == 0x5 {
        if op_n(op) == 0x0 {
            Some(Instruction::SkipIfEqReg(x, y))
        } else {
            None
        }
    } else if hi == 0x6 {
        Some(Instruction::SetRegImm(x, op_nn(op)))
    } else if hi == 0x7 {
        Some(Instruction::AddRegImm(x, op_nn(op)))
    } else if hi == 0x8 {
        let low = op_n(op);
        if low == 0x0 {
            Some(Instruction::SetReg(x, y))
        } else if low == 0x1 {
            Some(Instruction::BinOr(x, y))
        } else if low == 0x2 {
            Some(Instruction::BinAnd(x, y))
        } else if low == 0x3 {
            Some(Instruction::Xor(x, y))
        } else if low == 0x4 {
            Some(Instruction::Add(x, y))
        } else if low == 0x5 {
            Some(Instruction::SubtractLR(x, y))
        } else if low == 0x6 {
            Some(Instruction::ShiftRight(x, y))
        } else if low == 0x7 {
            Some(Instruction::SubtractRL(x, y))
        } else if low == 0xE {
            Some(Instruction::ShiftLeft(x, y))
        } else {
            None
        }
    } else if hi == 0x9 {
        if op_n(op) == 0x0 {
            Some(Instruction::SkipIfNeqReg(x, y))
        } else {
            None
        }
    } else if hi == 0xA {
        Some(Instruction::SetIdxRegImm(op_nnn(op)))
    } else if hi == 0xB {
        Some(Instruction::JumpWithOffset(op_nnn(op)))
    } else if hi == 0xC {
        Some(Instruction::Random(x, op_nn(op)))
    } else if hi == 0xD {
        Some(Instruction::Display { x, y, n: op_n(op) })
    } else if hi == 0xE {
        let low = op_nn(op);
        if low == 0x9E {
            Some(Instruction::SkipIfKeyPressed(x))
        } else if low == 0xA1 {
            Some(Instruction::SkipIfKeyNotPressed(x))
        } else {
            None
        }
    } else {
        let low = op_nn(op);
        if low == 0x07 {
            Some(Instruction::GetDelayTimer(x))
        } else if low == 0x0A {
            Some(Instruction::GetKey(x))
        } else if low == 0x15 {
            Some(Instruction::SetDelayTimer(x))
        } else if low == 0x18 {
            Some(Instruction::SetSoundTimer(x))
        } else if low == 0x1E {
            Some(Instruction::AddToIndex(x))
        } else if low == 0x29 {
            Some(Instruction::Font(x))
        } else if low == 0x33 {
            Some(Instruction::BinDecConversion(x))
        } else if low == 0x55 {
            Some(Instruction::Store(op_x(op)))
        } else if low == 0x65 {
            Some(Instruction::Load(op_x(op)))
        } else {
            None
        }
    }
}

/// Decode a 16-bit opcode into a tagged instruction.
///
/// Returns `Err(UnknownOpcode)` exactly on the opcodes that match no defined
/// pattern.
pub fn decode(op: u16) -> (r: Result<Instruction, Chip8Error>)
    ensures
        r is Ok <==> decode_of(op) is Some,
        r is Ok ==> r->Ok_0 == decode_of(op)->Some_0,
        r is Err ==> r->Err_0 == Chip8Error::UnknownOpcode(op),
{
    proof {
        lemma_op_field_bounds(op);
    }
    let hi = op >> 12u16;
    let x = VariableRegister::from_nibble(((op >> 8u16) & 0xFu16) as u8);
    let y = VariableRegister::from_nibble(((op >> 4u16) & 0xFu16) as u8);
    let n = (op & 0xFu16) as u8;
    let nn = (op & 0xFFu16) as u8;
    let nnn = op & 0xFFFu16;
    if hi == 0x0 {
        if op == 0x00E0 {
            Ok(Instruction::ClearScreen)
        } else if op == 0x00EE {
            Ok(Instruction::Pop)
        } else {
            Err(Chip8Error::UnknownOpcode(op))
        }
    } else if hi == 0x1 {
        Ok(Instruction::Jump(nnn))
    } else if hi == 0x2 {
        Ok(Instruction::Call(nnn))
    } else if hi == 0x3 {
        Ok(Instruction::SkipIfEqImm(x, nn))
    } else if hi == 0x4 {
        Ok(Instruction::SkipIfNeqImm(x, nn))
    } else if hi == 0x5 {
        if n == 0x0 {
            Ok(Instruction::SkipIfEqReg(x, y))
        } else {
            Err(Chip8Error::UnknownOpcode(op))
        }
    } else if hi == 0x6 {
        Ok(Instruction::SetRegImm(x, nn))
    } else if hi == 0x7 {
        Ok(Instruction::AddRegImm(x, nn))
    } else if hi == 0x8 {
        if n == 0x0 {
            Ok(Instruction::SetReg(x, y))
        } else if n == 0x1 {
            Ok(Instruction::BinOr(x, y))
        } else if n == 0x2 {
            Ok(Instruction::BinAnd(x, y))
        } else if n == 0x3 {
            Ok(Instruction::Xor(x, y))
        } else if n == 0x4 {
            Ok(Instruction::Add(x, y))
        } else if n == 0x5 {
            Ok(Instruction::SubtractLR(x, y))
        } else if n == 0x6 {
            Ok(Instruction::ShiftRight(x, y))
        } else if n == 0x7 {
            Ok(Instruction::SubtractRL(x, y))
        } else if n == 0xE {
            Ok(Instruction::ShiftLeft(x, y))
        } else {
            Err(Chip8Error::UnknownOpcode(op))
        }
    } else if hi == 0x9 {
        if n == 0x0 {
            Ok(Instruction::SkipIfNeqReg(x, y))
        } else {
            Err(Chip8Error::UnknownOpcode(op))
        }
    } else if hi == 0xA {
        Ok(Instruction::SetIdxRegImm(nnn))
    } else if hi == 0xB {
        Ok(Instruction::JumpWithOffset(nnn))
    } else if hi == 0xC {
        Ok(Instruction::Random(x, nn))
    } else if hi == 0xD {
        Ok(Instruction::Display { x, y, n })
    } else if hi == 0xE {
        if nn == 0x9E {
            Ok(Instruction::SkipIfKeyPressed(x))
        } else if nn == 0xA1 {
            Ok(Instruction::SkipIfKeyNotPressed(x))
        } else {
            Err(Chip8Error::UnknownOpcode(op))
        }
    } else {
        if nn == 0x07 {
            Ok(Instruction::GetDelayTimer(x))
        } else if nn == 0x0A {
            Ok(Instruction::GetKey(x))
        } else if nn == 0x15 {
            Ok(Instruction::SetDelayTimer(x))
        } else if nn == 0x18 {
            Ok(Instruction::SetSoundTimer(x))
        } else if nn == 0x1E {
            Ok(Instruction::AddToIndex(x))
        } else if nn == 0x29 {
            Ok(Instruction::Font(x))
        } else if nn == 0x33 {
            Ok(Instruction::BinDecConversion(x))
        } else if nn == 0x55 {
            Ok(Instruction::Store(((op >> 8u16) & 0xFu16) as u8))
        } else if nn == 0x65 {
            Ok(Instruction::Load(((op >> 8u16) & 0xFu16) as u8))
        } else {
            Err(Chip8Error::UnknownOpcode(op))
        }
    }
}

} // verus!
