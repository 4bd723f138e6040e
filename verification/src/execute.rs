use vstd::prelude::*;

use rand::Rng;

use crate::isa::{decode, decode_of, Chip8Error, Instruction};
use crate::machine::{opcode_at, Machine, MachineModel};
use crate::register::{reg_index, VariableRegister};

verus! {

/// The program counter moved past one instruction, wrapping at 16 bits.
pub open spec fn skip_pc(pc: u16) -> u16 {
    if pc + 2 > 0xFFFF {
        (pc + 2 - 0x10000) as u16
    } else {
        (pc + 2) as u16
    }
}

/// Bit `i` of a sprite byte, counted from the most significant end: bit 0 is
/// the leftmost drawn pixel.
pub open spec fn bit_of(b: u8, i: int) -> bool
    recommends
        0 <= i < 8,
{
    ((b >> ((7 - i) as u8)) & 1) == 1
}

/// Whether the sprite drawn with origin (x0, y0) from `n` rows at `index`
/// covers the display cell (px, py): the cell lies in the clipped sprite
/// rectangle and the corresponding sprite bit is set. Cells beyond the right
/// or bottom edge are never covered, so drawing clips instead of wrapping.
pub open spec fn draw_covers(
    mem: Seq<u8>,
    index: u16,
    x0: int,
    y0: int,
    n: u8,
    px: int,
    py: int,
) -> bool
    recommends
        mem.len() == 4096,
        index + n <= 4096,
        0 <= x0 < 64,
        0 <= y0 < 32,
{
    &&& y0 <= py < y0 + n
    &&& py < 32
    &&& x0 <= px < x0 + 8
    &&& px < 64
    &&& bit_of(mem[index + (py - y0)], px - x0)
}

/// The display after the sprite draw: every covered cell is toggled, every
/// other cell keeps its value.
pub open spec fn draw_disp(
    disp: Seq<bool>,
    mem: Seq<u8>,
    index: u16,
    x0: int,
    y0: int,
    n: u8,
) -> Seq<bool> {
    Seq::new(2048, |p: int|
        if draw_covers(mem, index, x0, y0, n, p % 64, p / 64) {
            !disp[p]
        } else {
            disp[p]
        })
}

/// Whether the sprite draw turns any lit cell off: the collision condition
/// that sets VF.
pub open spec fn draw_hits(
    disp: Seq<bool>,
    mem: Seq<u8>,
    index: u16,
    x0: int,
    y0: int,
    n: u8,
) -> bool {
    exists|p: int|
        0 <= p < 2048 && disp[p] && draw_covers(mem, index, x0, y0, n, p % 64, p / 64)
}

/// The lowest-numbered pressed key at or above position `from`, if any.
pub open spec fn first_pressed(keys: Seq<bool>, from: int) -> Option<u8>
    recommends
        keys.len() == 16,
        0 <= from <= 16,
    decreases 16 - from,
{
    if from < 0 || from >= 16 {
        None
    } else if keys[from] {
        Some(from as u8)
    } else {
        first_pressed(keys, from + 1)
    }
}

/// Whether executing `ins` in state `m` succeeds. Execution fails only on
/// the fatal conditions: popping an empty stack, touching memory outside
/// 0..4096, rewinding the program counter below zero while waiting for a
/// key, or a register-block position above 15.
pub open spec fn exec_ok(m: MachineModel, ins: Instruction) -> bool {
    match ins {
        Instruction::Pop => m.stack.len() > 0,
        Instruction::Display { x, y, n } => m.index + n <= 4096,
        Instruction::BinDecConversion(x) => m.index + 3 <= 4096,
        Instruction::Store(x) => x < 16 && m.index + x + 1 <= 4096,
        Instruction::Load(x) => x < 16 && m.index + x + 1 <= 4096,
        Instruction::GetKey(x) => first_pressed(m.keys, 0) is Some || m.pc >= 2,
        _ => true,
    }
}

/// The fatal condition reported when `exec_ok` fails.
pub open spec fn exec_err(m: MachineModel, ins: Instruction) -> Chip8Error
    recommends
        !exec_ok(m, ins),
{
    match ins {
        Instruction::Pop => Chip8Error::StackUnderflow,
        Instruction::Store(x) => if x >= 16 {
            Chip8Error::InvalidRegister
        } else {
            Chip8Error::OutOfBounds
        },
        Instruction::Load(x) => if x >= 16 {
            Chip8Error::InvalidRegister
        } else {
            Chip8Error::OutOfBounds
        },
        _ => Chip8Error::OutOfBounds,
    }
}

/// The machine state after executing one instruction.
///
/// This is the semantic reference for `Machine::execute`: every observable
/// mutation of the machine is defined here, case by case. `rnd` stands for
/// the byte drawn by the random-number instruction and is ignored by every
/// other instruction.
///
/// Conventions fixed by this definition:
/// - Add sets VF to the 8-bit carry, both subtractions set VF to 1 exactly
///   when the minuend is at least the subtrahend, and the result always
///   wraps modulo 256. The flag is written before the result, so for a
///   flag-affecting instruction whose destination is VF the result wins.
/// - Shifts operate on Vx in place and ignore the second register entirely,
///   and VF receives the bit shifted out (0 or 1).
/// - The sprite draw wraps its start coordinates into the grid, then clips:
///   covered cells are toggled, VF reports whether any lit cell went dark.
/// - Jump-with-offset adds V0, the original interpreter's convention.
/// - The key wait stores the lowest pressed key, or rewinds the program
///   counter by two so the instruction runs again on the next cycle.
/// - Register-block store and load move V0..Vx inclusive in register order;
///   the index register itself is left unchanged.
#[verifier::opaque]
pub open spec fn step_model(m: MachineModel, ins: Instruction, rnd: u8) -> MachineModel
    recommends
        m.wf(),
        exec_ok(m, ins),
{
    match ins {
        Instruction::ClearScreen => MachineModel {
            disp: Seq::new(2048, |p: int| false),
            ..m
        },
        Instruction::Jump(a) => MachineModel { pc: a, ..m },
        Instruction::JumpWithOffset(a) => MachineModel {
            pc: if m.regs[0] + a > 0xFFFF {
                (m.regs[0] + a - 0x10000) as u16
            } else {
                (m.regs[0] + a) as u16
            },
            ..m
        },
        Instruction::Call(a) => MachineModel { stack: m.stack.push(m.pc), pc: a, ..m },
        Instruction::Pop => MachineModel { pc: m.stack.last(), stack: m.stack.drop_last(), ..m },
        Instruction::SetRegImm(x, imm) => MachineModel {
            regs: m.regs.update(reg_index(x), imm),
            ..m
        },
        Instruction::AddRegImm(x, imm) => {
            let a = m.regs[reg_index(x)];
            MachineModel {
                regs: m.regs.update(reg_index(x),
                    if a + imm > 255 {
                        (a + imm - 256) as u8
                    } else {
                        (a + imm) as u8
                    }),
                ..m
            }
        },
        Instruction::SetIdxRegImm(a) => MachineModel { index: a, ..m },
        Instruction::Display { x, y, n } => {
            let x0 = (m.regs[reg_index(x)] & 63) as int;
            let y0 = (m.regs[reg_index(y)] & 31) as int;
            MachineModel {
                disp: draw_disp(m.disp, m.mem, m.index, x0, y0, n),
                regs: m.regs.update(15,
                    if draw_hits(m.disp, m.mem, m.index, x0, y0, n) {
                        1u8
                    } else {
                        0u8
                    }),
                ..m
            }
        },
        Instruction::SkipIfEqImm(x, imm) => MachineModel {
            pc: if m.regs[reg_index(x)] == imm {
                skip_pc(m.pc)
            } else {
                m.pc
            },
            ..m
        },
        Instruction::SkipIfNeqImm(x, imm) => MachineModel {
            pc: if m.regs[reg_index(x)] != imm {
                skip_pc(m.pc)
            } else {
                m.pc
            },
            ..m
        },
        Instruction::SkipIfEqReg(x, y) => MachineModel {
            pc: if m.regs[reg_index(x)] == m.regs[reg_index(y)] {
                skip_pc(m.pc)
            } else {
                m.pc
            },
            ..m
        },
        Instruction::SkipIfNeqReg(x, y) => MachineModel {
            pc: if m.regs[reg_index(x)] != m.regs[reg_index(y)] {
                skip_pc(m.pc)
            } else {
                m.pc
            },
            ..m
        },
        Instruction::SetReg(x, y) => MachineModel {
            regs: m.regs.update(reg_index(x), m.regs[reg_index(y)]),
            ..m
        },
        Instruction::BinOr(x, y) => MachineModel {
            regs: m.regs.update(reg_index(x), m.regs[reg_index(x)] | m.regs[reg_index(y)]),
            ..m
        },
        Instruction::BinAnd(x, y) => MachineModel {
            regs: m.regs.update(reg_index(x), m.regs[reg_index(x)] & m.regs[reg_index(y)]),
            ..m
        },
        Instruction::Xor(x, y) => MachineModel {
            regs: m.regs.update(reg_index(x), m.regs[reg_index(x)] ^ m.regs[reg_index(y)]),
            ..m
        },
        Instruction::Add(x, y) => {
            let a = m.regs[reg_index(x)];
            let b = m.regs[reg_index(y)];
            let carry: u8 = if a + b > 255 {
                1
            } else {
                0
            };
            let sum: u8 = if a + b > 255 {
                (a + b - 256) as u8
            } else {
                (a + b) as u8
            };
            MachineModel { regs: m.regs.update(15, carry).update(reg_index(x), sum), ..m }
        },
        Instruction::SubtractLR(x, y) => {
            let a = m.regs[reg_index(x)];
            let b = m.regs[reg_index(y)];
            let flag: u8 = if a >= b {
                1
            } else {
                0
            };
            let diff: u8 = if a >= b {
                (a - b) as u8
            } else {
                (a - b + 256) as u8
            };
            MachineModel { regs: m.regs.update(15, flag).update(reg_index(x), diff), ..m }
        },
        Instruction::SubtractRL(x, y) => {
            let a = m.regs[reg_index(x)];
            let b = m.regs[reg_index(y)];
            let flag: u8 = if b >= a {
                1
            } else {
                0
            };
            let diff: u8 = if b >= a {
                (b - a) as u8
            } else {
                (b - a + 256) as u8
            };
            MachineModel { regs: m.regs.update(15, flag).update(reg_index(x), diff), ..m }
        },
        Instruction::ShiftLeft(x, y) => {
            let a = m.regs[reg_index(x)];
            let flag: u8 = if a >= 128 {
                1
            } else {
                0
            };
            let shifted: u8 = if a >= 128 {
                (2 * a - 256) as u8
            } else {
                (2 * a) as u8
            };
            MachineModel { regs: m.regs.update(15, flag).update(reg_index(x), shifted), ..m }
        },
        Instruction::ShiftRight(x, y) => {
            let a = m.regs[reg_index(x)];
            let flag: u8 = (a % 2) as u8;
            let shifted: u8 = (a / 2) as u8;
            MachineModel { regs: m.regs.update(15, flag).update(reg_index(x), shifted), ..m }
        },
        Instruction::Random(x, mask) => MachineModel {
            regs: m.regs.update(reg_index(x), rnd & mask),
            ..m
        },
        Instruction::SkipIfKeyPressed(x) => MachineModel {
            pc: if m.keys[(m.regs[reg_index(x)] & 0xF) as int] {
                skip_pc(m.pc)
            } else {
                m.pc
            },
            ..m
        },
        Instruction::SkipIfKeyNotPressed(x) => MachineModel {
            pc: if !m.keys[(m.regs[reg_index(x)] & 0xF) as int] {
                skip_pc(m.pc)
            } else {
                m.pc
            },
            ..m
        },
        Instruction::GetDelayTimer(x) => MachineModel {
            regs: m.regs.update(reg_index(x), m.delay),
            ..m
        },
        Instruction::SetDelayTimer(x) => MachineModel { delay: m.regs[reg_index(x)], ..m },
        Instruction::SetSoundTimer(x) => MachineModel { sound: m.regs[reg_index(x)], ..m },
        Instruction::GetKey(x) => match first_pressed(m.keys, 0) {
            Some(k) => MachineModel { regs: m.regs.update(reg_index(x), k), ..m },
            None => MachineModel { pc: (m.pc - 2) as u16, ..m },
        },
        Instruction::Font(x) => MachineModel {
            index: (5 * (m.regs[reg_index(x)] & 0xF)) as u16,
            ..m
        },
        Instruction::BinDecConversion(x) => {
            let v = m.regs[reg_index(x)];
            let i = m.index as int;
            MachineModel {
                mem: m.mem.update(i, (v / 100) as u8).update(i + 1, ((v / 10) % 10) as u8).update(
                    i + 2,
                    (v % 10) as u8,
                ),
                ..m
            }
        },
        Instruction::Store(x) => MachineModel {
            mem: Seq::new(4096, |a: int|
                if m.index <= a < m.index + x + 1 {
                    m.regs[a - m.index]
                } else {
                    m.mem[a]
                }),
            ..m
        },
        Instruction::Load(x) => MachineModel {
            regs: Seq::new(16, |i: int|
                if 0 <= i <= x {
                    m.mem[m.index + i]
                } else {
                    m.regs[i]
                }),
            ..m
        },
        Instruction::AddToIndex(x) => {
            let off = m.regs[reg_index(x)];
            let flag: u8 = if m.index + off > 0xFFF {
                1
            } else {
                0
            };
            let sum: u16 = if m.index + off > 0xFFFF {
                (m.index + off - 0x10000) as u16
            } else {
                (m.index + off) as u16
            };
            MachineModel { regs: m.regs.update(15, flag), index: sum, ..m }
        },
    }
}

pub(crate) proof fn lemma_byte_masks(v: u8)
    by (bit_vector)
    ensures
        (v & 63) < 64,
        (v & 31) < 32,
        (v & 0xF) < 16,
{
}

/// The sprite cells already processed by the draw loops: full rows before
/// `rows_done`, and the first `cols_done` columns of the row `rows_done`.
spec fn covers_upto(
    mem: Seq<u8>,
    index: u16,
    x0: int,
    y0: int,
    n: u8,
    rows_done: int,
    cols_done: int,
    px: int,
    py: int,
) -> bool {
    &&& draw_covers(mem, index, x0, y0, n, px, py)
    &&& (py - y0 < rows_done || (py - y0 == rows_done && px - x0 < cols_done))
}

proof fn lemma_pixel_coords(a: int, b: int)
    by (nonlinear_arith)
    requires
        0 <= a,
        0 <= b < 64,
    ensures
        (a * 64 + b) / 64 == a,
        (a * 64 + b) % 64 == b,
{
}

proof fn lemma_pixel_decomp(p: int)
    by (nonlinear_arith)
    requires
        0 <= p < 2048,
    ensures
        p == (p / 64) * 64 + (p % 64),
        0 <= p % 64 < 64,
        0 <= p / 64 < 32,
{
}

impl Machine {
    /// Clear-screen: every display cell goes dark.
    fn exec_clear(&mut self)
        requires
            old(self).wf(),
        ensures
            final(self).wf(),
            final(self)@ == step_model(old(self)@, Instruction::ClearScreen, 0),
    {
        proof {
            reveal(step_model);
        }
        let mut p: usize = 0;
        while p < 2048
            invariant
                old(self).wf(),
                p <= 2048,
                self.display@.len() == 2048,
                self@ == (MachineModel { disp: self@.disp, ..old(self)@ }),
                forall|i: int| 0 <= i < p ==> !self.display@[i],
            decreases 2048 - p,
        {
            self.display.set(p, false);
            p = p + 1;
        }
        proof {
            assert(self@.disp =~= Seq::new(2048, |q: int| false));
            assert(self@ =~= step_model(old(self)@, Instruction::ClearScreen, 0));
        }
    }

    /// Register-block store: V0..Vx inclusive written to memory at the index
    /// register, in register order.
    fn exec_store(&mut self, x: u8)
        requires
            old(self).wf(),
            x < 16,
            old(self)@.index + x + 1 <= 4096,
        ensures
            final(self).wf(),
            final(self)@ == step_model(old(self)@, Instruction::Store(x), 0),
    {
        proof {
            reveal(step_model);
        }
        let base = self.index as usize;
        let count = x as usize + 1;
        let mut i: usize = 0;
        while i < count
            invariant
                old(self).wf(),
                x < 16,
                count == x as usize + 1,
                old(self)@.index + x + 1 <= 4096,
                base == old(self)@.index,
                i <= count,
                self.memory@.len() == 4096,
                self@ == (MachineModel { mem: self@.mem, ..old(self)@ }),
                forall|a: int| base <= a < base + i ==> self.memory@[a] == old(self)@.regs[a
                    - base],
                forall|a: int| (0 <= a < base || base + i <= a < 4096) ==> self.memory@[a] == old(
                    self,
                )@.mem[a],
            decreases count - i,
        {
            let v = self.registers[i];
            self.memory.set(base + i, v);
            i = i + 1;
        }
        proof {
            assert(self@.mem =~= Seq::new(4096, |a: int|
                if old(self)@.index <= a < old(self)@.index + x + 1 {
                    old(self)@.regs[a - old(self)@.index]
                } else {
                    old(self)@.mem[a]
                }));
            assert(self@ =~= step_model(old(self)@, Instruction::Store(x), 0));
        }
    }

    /// Register-block load: V0..Vx inclusive read back from memory at the
    /// index register, in register order.
    fn exec_load(&mut self, x: u8)
        requires
            old(self).wf(),
            x < 16,
            old(self)@.index + x + 1 <= 4096,
        ensures
            final(self).wf(),
            final(self)@ == step_model(old(self)@, Instruction::Load(x), 0),
    {
        proof {
            reveal(step_model);
        }
        let base = self.index as usize;
        let count = x as usize + 1;
        let mut i: usize = 0;
        while i < count
            invariant
                old(self).wf(),
                x < 16,
                count == x as usize + 1,
                old(self)@.index + x + 1 <= 4096,
                base == old(self)@.index,
                i <= count,
                self.registers@.len() == 16,
                self@ == (MachineModel { regs: self@.regs, ..old(self)@ }),
                forall|j: int| 0 <= j < i ==> self.registers@[j] == old(self)@.mem[base + j],
                forall|j: int| i <= j < 16 ==> self.registers@[j] == old(self)@.regs[j],
            decreases count - i,
        {
            let v = self.memory[base + i];
            self.registers.set(i, v);
            i = i + 1;
        }
        proof {
            assert(self@.regs =~= Seq::new(16, |j: int|
                if 0 <= j <= x {
                    old(self)@.mem[old(self)@.index + j]
                } else {
                    old(self)@.regs[j]
                }));
            assert(self@ =~= step_model(old(self)@, Instruction::Load(x), 0));
        }
    }

    /// Sprite draw: XOR `n` rows of sprite data taken from the index
    /// register onto the display with origin (Vx & 63, Vy & 31), clipping at
    /// the right and bottom edges, and set VF exactly when some lit cell
    /// goes dark.
    fn exec_display(&mut self, x: VariableRegister, y: VariableRegister, n: u8)
        requires
            old(self).wf(),
            old(self)@.index + n <= 4096,
        ensures
            final(self).wf(),
            final(self)@ == step_model(old(self)@, Instruction::Display { x, y, n }, 0),
    {
        proof {
            reveal(step_model);
        }
        let ghost om = old(self)@;
        let xi = x.index();
        let yi = y.index();
        let vx = self.registers[xi];
        let vy = self.registers[yi];
        proof {
            lemma_byte_masks(vx);
            lemma_byte_masks(vy);
        }
        let x0 = (vx & 63) as usize;
        let y0 = (vy & 31) as usize;
        let base = self.index as usize;
        let rows: usize = if (n as usize) < 32 - y0 {
            n as usize
        } else {
            32 - y0
        };
        let cols: usize = if 64 - x0 > 8 {
            8
        } else {
            64 - x0
        };
        let mut collided = false;
        let mut j: usize = 0;
        while j < rows
            invariant
                om == old(self)@,
                om.wf(),
                om.index + n <= 4096,
                x0 == (om.regs[reg_index(x)] & 63),
                y0 == (om.regs[reg_index(y)] & 31),
                x0 < 64,
                y0 < 32,
                base == om.index,
                rows == if (n as int) < 32 - (y0 as int) {
                    n as int
                } else {
                    32 - (y0 as int)
                },
                cols == if 64 - (x0 as int) > 8 {
                    8int
                } else {
                    64 - (x0 as int)
                },
                j <= rows,
                self.display@.len() == 2048,
                self@ == (MachineModel { disp: self@.disp, ..om }),
                forall|p: int|
                    0 <= p < 2048 ==> self.display@[p] == (if covers_upto(
                        om.mem,
                        om.index,
                        x0 as int,
                        y0 as int,
                        n,
                        j as int,
                        0,
                        p % 64,
                        p / 64,
                    ) {
                        !om.disp[p]
                    } else {
                        om.disp[p]
                    }),
                collided == (exists|p: int|
                    0 <= p < 2048 && om.disp[p] && covers_upto(
                        om.mem,
                        om.index,
                        x0 as int,
                        y0 as int,
                        n,
                        j as int,
                        0,
                        p % 64,
                        p / 64,
                    )),
            decreases rows - j,
        {
            let sprite = self.memory[base + j];
            let mut i: usize = 0;
            while i < cols
                invariant
                    om == old(self)@,
                    om.wf(),
                    om.index + n <= 4096,
                    x0 == (om.regs[reg_index(x)] & 63),
                    y0 == (om.regs[reg_index(y)] & 31),
                    x0 < 64,
                    y0 < 32,
                    base == om.index,
                    rows == if (n as int) < 32 - (y0 as int) {
                        n as int
                    } else {
                        32 - (y0 as int)
                    },
                    cols == if 64 - (x0 as int) > 8 {
                        8int
                    } else {
                        64 - (x0 as int)
                    },
                    j < rows,
                    i <= cols,
                    sprite == om.mem[base + j],
                    self.display@.len() == 2048,
                    self@ == (MachineModel { disp: self@.disp, ..om }),
                    forall|p: int|
                        0 <= p < 2048 ==> self.display@[p] == (if covers_upto(
                            om.mem,
                            om.index,
                            x0 as int,
                            y0 as int,
                            n,
                            j as int,
                            i as int,
                            p % 64,
                            p / 64,
                        ) {
                            !om.disp[p]
                        } else {
                            om.disp[p]
                        }),
                    collided == (exists|p: int|
                        0 <= p < 2048 && om.disp[p] && covers_upto(
                            om.mem,
                            om.index,
                            x0 as int,
                            y0 as int,
                            n,
                            j as int,
                            i as int,
                            p % 64,
                            p / 64,
                        )),
                decreases cols - i,
            {
                let ghost gx0 = x0 as int;
                let ghost gy0 = y0 as int;
                let ghost gj = j as int;
                let ghost gi = i as int;
                let shift: u8 = (7 - i) as u8;
                let bit = (sprite >> shift) & 1;
                if bit == 1 {
                    let p = (y0 + j) * 64 + (x0 + i);
                    proof {
                        lemma_pixel_coords(gy0 + gj, gx0 + gi);
                        assert(bit_of(om.mem[om.index + gj], gi));
                        assert(draw_covers(
                            om.mem,
                            om.index,
                            gx0,
                            gy0,
                            n,
                            gx0 + gi,
                            gy0 + gj,
                        ));
                        // the cell being toggled was not processed before now
                        assert(!covers_upto(
                            om.mem,
                            om.index,
                            gx0,
                            gy0,
                            n,
                            gj,
                            gi,
                            p as int % 64,
                            p as int / 64,
                        ));
                    }
                    let cur = self.display[p];
                    proof {
                        assert(cur == om.disp[p as int]);
                    }
                    if cur {
                        collided = true;
                    }
                    self.display.set(p, !cur);
                    proof {
                        let gp = p as int;
                        assert forall|q: int| 0 <= q < 2048 implies self.display@[q] == (
                        if covers_upto(
                            om.mem,
                            om.index,
                            gx0,
                            gy0,
                            n,
                            gj,
                            gi + 1,
                            q % 64,
                            q / 64,
                        ) {
                            !om.disp[q]
                        } else {
                            om.disp[q]
                        }) by {
                            lemma_pixel_decomp(q);
                            if q != gp {
                                assert(!(q % 64 == gx0 + gi && q / 64 == gy0 + gj));
                            }
                        }
                        if collided {
                            if cur {
                                assert(om.disp[gp] && covers_upto(
                                    om.mem,
                                    om.index,
                                    gx0,
                                    gy0,
                                    n,
                                    gj,
                                    gi + 1,
                                    gp % 64,
                                    gp / 64,
                                ));
                            } else {
                                let w = choose|q: int|
                                    0 <= q < 2048 && om.disp[q] && covers_upto(
                                        om.mem,
                                        om.index,
                                        gx0,
                                        gy0,
                                        n,
                                        gj,
                                        gi,
                                        q % 64,
                                        q / 64,
                                    );
                                assert(om.disp[w] && covers_upto(
                                    om.mem,
                                    om.index,
                                    gx0,
                                    gy0,
                                    n,
                                    gj,
                                    gi + 1,
                                    w % 64,
                                    w / 64,
                                ));
                            }
                        } else {
                            assert forall|q: int|
                                !(0 <= q < 2048 && om.disp[q] && covers_upto(
                                    om.mem,
                                    om.index,
                                    gx0,
                                    gy0,
                                    n,
                                    gj,
                                    gi + 1,
                                    q % 64,
                                    q / 64,
                                )) by {
                                if 0 <= q < 2048 {
                                    lemma_pixel_decomp(q);
                                }
                                if 0 <= q < 2048 && om.disp[q] && covers_upto(
                                    om.mem,
                                    om.index,
                                    gx0,
                                    gy0,
                                    n,
                                    gj,
                                    gi + 1,
                                    q % 64,
                                    q / 64,
                                ) {
                                    if covers_upto(
                                        om.mem,
                                        om.index,
                                        gx0,
                                        gy0,
                                        n,
                                        gj,
                                        gi,
                                        q % 64,
                                        q / 64,
                                    ) {
                                        assert(false);
                                    } else {
                                        assert(q == gp);
                                        assert(false);
                                    }
                                }
                            }
                        }
                    }
                } else {
                    proof {
                        assert(!bit_of(om.mem[om.index + gj], gi));
                        assert forall|q: int| 0 <= q < 2048 implies #[trigger] covers_upto(
                            om.mem,
                            om.index,
                            gx0,
                            gy0,
                            n,
                            gj,
                            gi + 1,
                            q % 64,
                            q / 64,
                        ) == covers_upto(
                            om.mem,
                            om.index,
                            gx0,
                            gy0,
                            n,
                            gj,
                            gi,
                            q % 64,
                            q / 64,
                        ) by {
                            lemma_pixel_decomp(q);
                        }
                        if collided {
                            let w = choose|q: int|
                                0 <= q < 2048 && om.disp[q] && covers_upto(
                                    om.mem,
                                    om.index,
                                    gx0,
                                    gy0,
                                    n,
                                    gj,
                                    gi,
                                    q % 64,
                                    q / 64,
                                );
                            assert(om.disp[w] && covers_upto(
                                om.mem,
                                om.index,
                                gx0,
                                gy0,
                                n,
                                gj,
                                gi + 1,
                                w % 64,
                                w / 64,
                            ));
                        }
                    }
                }
                i = i + 1;
            }
            proof {
                let gx0 = x0 as int;
                let gy0 = y0 as int;
                let gj = j as int;
                assert forall|q: int| 0 <= q < 2048 implies #[trigger] covers_upto(
                    om.mem,
                    om.index,
                    gx0,
                    gy0,
                    n,
                    gj + 1,
                    0,
                    q % 64,
                    q / 64,
                ) == covers_upto(
                    om.mem,
                    om.index,
                    gx0,
                    gy0,
                    n,
                    gj,
                    cols as int,
                    q % 64,
                    q / 64,
                ) by {
                    lemma_pixel_decomp(q);
                }
                if collided {
                    let w = choose|q: int|
                        0 <= q < 2048 && om.disp[q] && covers_upto(
                            om.mem,
                            om.index,
                            gx0,
                            gy0,
                            n,
                            gj,
                            cols as int,
                            q % 64,
                            q / 64,
                        );
                    assert(om.disp[w] && covers_upto(
                        om.mem,
                        om.index,
                        gx0,
                        gy0,
                        n,
                        gj + 1,
                        0,
                        w % 64,
                        w / 64,
                    ));
                }
            }
            j = j + 1;
        }
        proof {
            let gx0 = x0 as int;
            let gy0 = y0 as int;
            assert forall|q: int| 0 <= q < 2048 implies #[trigger] covers_upto(
                om.mem,
                om.index,
                gx0,
                gy0,
                n,
                rows as int,
                0,
                q % 64,
                q / 64,
            ) == draw_covers(om.mem, om.index, gx0, gy0, n, q % 64, q / 64) by {
                lemma_pixel_decomp(q);
            }
            if collided {
                let w = choose|q: int|
                    0 <= q < 2048 && om.disp[q] && covers_upto(
                        om.mem,
                        om.index,
                        gx0,
                        gy0,
                        n,
                        rows as int,
                        0,
                        q % 64,
                        q / 64,
                    );
                assert(om.disp[w] && draw_covers(om.mem, om.index, gx0, gy0, n, w % 64, w / 64));
                assert(draw_hits(om.disp, om.mem, om.index, gx0, gy0, n));
            } else {
                assert(!draw_hits(om.disp, om.mem, om.index, gx0, gy0, n)) by {
                    if draw_hits(om.disp, om.mem, om.index, gx0, gy0, n) {
                        let w = choose|q: int|
                            0 <= q < 2048 && om.disp[q] && draw_covers(
                                om.mem,
                                om.index,
                                gx0,
                                gy0,
                                n,
                                q % 64,
                                q / 64,
                            );
                        assert(om.disp[w] && covers_upto(
                            om.mem,
                            om.index,
                            gx0,
                            gy0,
                            n,
                            rows as int,
                            0,
                            w % 64,
                            w / 64,
                        ));
                        assert(false);
                    }
                };
            }
        }
        let flag: u8 = if collided {
            1
        } else {
            0
        };
        self.registers.set(15, flag);
        proof {
            assert(self@.disp =~= draw_disp(
                om.disp,
                om.mem,
                om.index,
                x0 as int,
                y0 as int,
                n,
            ));
            assert(self@ =~= step_model(old(self)@, Instruction::Display { x, y, n }, 0));
        }
    }

    /// Binary-coded-decimal store: the three decimal digits of Vx written at
    /// the index register, hundreds first.
    fn exec_bcd(&mut self, x: VariableRegister)
        requires
            old(self).wf(),
            old(self)@.index + 3 <= 4096,
        ensures
            final(self).wf(),
            final(self)@ == step_model(old(self)@, Instruction::BinDecConversion(x), 0),
    {
        proof {
            reveal(step_model);
        }
        let xi = x.index();
        let v = self.registers[xi];
        let base = self.index as usize;
        self.memory.set(base, v / 100);
        self.memory.set(base + 1, (v / 10) % 10);
        self.memory.set(base + 2, v % 10);
        proof {
            assert(self@ =~= step_model(old(self)@, Instruction::BinDecConversion(x), 0));
        }
    }

    /// Key wait: store the lowest pressed key into Vx, or rewind the program
    /// counter by two so the wait repeats on the next cycle.
    fn exec_get_key(&mut self, x: VariableRegister)
        requires
            old(self).wf(),
            first_pressed(old(self)@.keys, 0) is Some || old(self)@.pc >= 2,
        ensures
            final(self).wf(),
            final(self)@ == step_model(old(self)@, Instruction::GetKey(x), 0),
    {
        proof {
            reveal(step_model);
        }
        let xi = x.index();
        let mut k: usize = 0;
        while k < 16
            invariant
                old(self).wf(),
                k <= 16,
                xi as int == reg_index(x),
                xi < 16,
                *self == *old(self),
                first_pressed(old(self)@.keys, 0) == first_pressed(old(self)@.keys, k as int),
            decreases 16 - k,
        {
            if self.keypad[k] {
                self.registers.set(xi, k as u8);
                proof {
                    reveal(step_model);
                    assert(first_pressed(old(self)@.keys, k as int) == Some(k as u8));
                    assert(self@ =~= step_model(old(self)@, Instruction::GetKey(x), 0));
                }
                return;
            }
            k = k + 1;
        }
        assert(first_pressed(old(self)@.keys, 16) is None);
        self.pc = self.pc - 2;
        proof {
            assert(self@ =~= step_model(old(self)@, Instruction::GetKey(x), 0));
        }
    }

    /// Whether any key of the keypad snapshot is currently pressed.
    fn any_key_pressed(&self) -> (b: bool)
        requires
            self.wf(),
        ensures
            b == (first_pressed(self@.keys, 0) is Some),
    {
        let mut k: usize = 0;
        while k < 16
            invariant
                self.wf(),
                k <= 16,
                first_pressed(self@.keys, 0) == first_pressed(self@.keys, k as int),
            decreases 16 - k,
        {
            if self.keypad[k] {
                return true;
            }
            k = k + 1;
        }
        false
    }

    /// The random-number instruction applied to one drawn byte: Vx becomes
    /// the byte masked by the immediate. Verified for every byte the
    /// generator may hand back.
    pub fn apply_random(&mut self, x: VariableRegister, mask: u8, byte: u8)
        requires
            old(self).wf(),
        ensures
            final(self).wf(),
            final(self)@ == step_model(old(self)@, Instruction::Random(x, mask), byte),
    {
        proof {
            reveal(step_model);
        }
        let xi = x.index();
        self.registers.set(xi, byte & mask);
        proof {
            assert(self@ =~= step_model(old(self)@, Instruction::Random(x, mask), byte));
        }
    }

    /// Apply one decoded instruction to the machine state.
    ///
    /// On success the new state is exactly `step_model` of the old one; for
    /// the random-number instruction this holds for some byte, since the
    /// drawn value is not determined by the machine state. On failure the
    /// machine is unchanged and the error is the fatal condition named by
    /// `exec_err`; failure happens exactly when `exec_ok` denies the state.
    /// Jump: the program counter is set to the literal address.
    fn exec_jump(&mut self, a: u16)
        requires
            old(self).wf(),
        ensures
            final(self).wf(),
            final(self)@ == step_model(old(self)@, Instruction::Jump(a), 0),
    {
        proof {
            reveal(step_model);
        }
        self.pc = a;
    }

    /// Jump with offset: the literal address plus V0, wrapping at 16 bits.
    fn exec_jump_with_offset(&mut self, a: u16)
        requires
            old(self).wf(),
        ensures
            final(self).wf(),
            final(self)@ == step_model(old(self)@, Instruction::JumpWithOffset(a), 0),
    {
        proof {
            reveal(step_model);
        }
        let v0 = self.registers[0];
        self.pc = (v0 as u16).wrapping_add(a);
    }

    /// Call: push the current program counter, already past the call opcode,
    /// then jump.
    fn exec_call(&mut self, a: u16)
        requires
            old(self).wf(),
        ensures
            final(self).wf(),
            final(self)@ == step_model(old(self)@, Instruction::Call(a), 0),
    {
        proof {
            reveal(step_model);
        }
        self.stack.push(self.pc);
        self.pc = a;
    }

    /// Return: pop the most recent return address into the program counter.
    fn exec_pop(&mut self)
        requires
            old(self).wf(),
            old(self)@.stack.len() > 0,
        ensures
            final(self).wf(),
            final(self)@ == step_model(old(self)@, Instruction::Pop, 0),
    {
        proof {
            reveal(step_model);
        }
        match self.stack.pop() {
            Some(addr) => {
                self.pc = addr;
                proof {
                    assert(self@.stack =~= old(self)@.stack.drop_last());
                }
            },
            None => {
                proof {
                    assert(false);
                }
            },
        }
    }

    /// Set Vx to the immediate.
    fn exec_set_reg_imm(&mut self, x: VariableRegister, imm: u8)
        requires
            old(self).wf(),
        ensures
            final(self).wf(),
            final(self)@ == step_model(old(self)@, Instruction::SetRegImm(x, imm), 0),
    {
        proof {
            reveal(step_model);
        }
        let xi = x.index();
        self.registers.set(xi, imm);
    }

    /// Add the immediate to Vx, wrapping modulo 256, without touching VF.
    fn exec_add_reg_imm(&mut self, x: VariableRegister, imm: u8)
        requires
            old(self).wf(),
        ensures
            final(self).wf(),
            final(self)@ == step_model(old(self)@, Instruction::AddRegImm(x, imm), 0),
    {
        proof {
            reveal(step_model);
        }
        let xi = x.index();
        let a = self.registers[xi];
        self.registers.set(xi, a.wrapping_add(imm));
    }

    /// Set the index register to the literal address.
    fn exec_set_index_imm(&mut self, a: u16)
        requires
            old(self).wf(),
        ensures
            final(self).wf(),
            final(self)@ == step_model(old(self)@, Instruction::SetIdxRegImm(a), 0),
    {
        proof {
            reveal(step_model);
        }
        self.index = a;
    }

    /// Skip the next instruction when Vx equals the immediate.
    fn exec_skip_eq_imm(&mut self, x: VariableRegister, imm: u8)
        requires
            old(self).wf(),
        ensures
            final(self).wf(),
            final(self)@ == step_model(old(self)@, Instruction::SkipIfEqImm(x, imm), 0),
    {
        proof {
            reveal(step_model);
        }
        let xi = x.index();
        if self.registers[xi] == imm {
            self.pc = self.pc.wrapping_add(2);
        }
    }

    /// Skip the next instruction when Vx differs from the immediate.
    fn exec_skip_neq_imm(&mut self, x: VariableRegister, imm: u8)
        requires
            old(self).wf(),
        ensures
            final(self).wf(),
            final(self)@ == step_model(old(self)@, Instruction::SkipIfNeqImm(x, imm), 0),
    {
        proof {
            reveal(step_model);
        }
        let xi = x.index();
        if self.registers[xi] != imm {
            self.pc = self.pc.wrapping_add(2);
        }
    }

    /// Skip the next instruction when Vx equals Vy.
    fn exec_skip_eq_reg(&mut self, x: VariableRegister, y: VariableRegister)
        requires
            old(self).wf(),
        ensures
            final(self).wf(),
            final(self)@ == step_model(old(self)@, Instruction::SkipIfEqReg(x, y), 0),
    {
        proof {
            reveal(step_model);
        }
        let xi = x.index();
        let yi = y.index();
        if self.registers[xi] == self.registers[yi] {
            self.pc = self.pc.wrapping_add(2);
        }
    }

    /// Skip the next instruction when Vx differs from Vy.
    fn exec_skip_neq_reg(&mut self, x: VariableRegister, y: VariableRegister)
        requires
            old(self).wf(),
        ensures
            final(self).wf(),
            final(self)@ == step_model(old(self)@, Instruction::SkipIfNeqReg(x, y), 0),
    {
        proof {
            reveal(step_model);
        }
        let xi = x.index();
        let yi = y.index();
        if self.registers[xi] != self.registers[yi] {
            self.pc = self.pc.wrapping_add(2);
        }
    }

    /// Copy Vy into Vx.
    fn exec_set_reg(&mut self, x: VariableRegister, y: VariableRegister)
        requires
            old(self).wf(),
        ensures
            final(self).wf(),
            final(self)@ == step_model(old(self)@, Instruction::SetReg(x, y), 0),
    {
        proof {
            reveal(step_model);
        }
        let yi = y.index();
        let v = self.registers[yi];
        let xi = x.index();
        self.registers.set(xi, v);
    }

    /// Bitwise OR of Vx and Vy into Vx.
    fn exec_bin_or(&mut self, x: VariableRegister, y: VariableRegister)
        requires
            old(self).wf(),
        ensures
            final(self).wf(),
            final(self)@ == step_model(old(self)@, Instruction::BinOr(x, y), 0),
    {
        proof {
            reveal(step_model);
        }
        let xi = x.index();
        let yi = y.index();
        let a = self.registers[xi];
        let b = self.registers[yi];
        self.registers.set(xi, a | b);
    }

    /// Bitwise AND of Vx and Vy into Vx.
    fn exec_bin_and(&mut self, x: VariableRegister, y: VariableRegister)
        requires
            old(self).wf(),
        ensures
            final(self).wf(),
            final(self)@ == step_model(old(self)@, Instruction::BinAnd(x, y), 0),
    {
        proof {
            reveal(step_model);
        }
        let xi = x.index();
        let yi = y.index();
        let a = self.registers[xi];
        let b = self.registers[yi];
        self.registers.set(xi, a & b);
    }

    /// Bitwise XOR of Vx and Vy into Vx.
    fn exec_xor(&mut self, x: VariableRegister, y: VariableRegister)
        requires
            old(self).wf(),
        ensures
            final(self).wf(),
            final(self)@ == step_model(old(self)@, Instruction::Xor(x, y), 0),
    {
        proof {
            reveal(step_model);
        }
        let xi = x.index();
        let yi = y.index();
        let a = self.registers[xi];
        let b = self.registers[yi];
        self.registers.set(xi, a ^ b);
    }

    /// Add Vy to Vx: VF becomes the carry out of eight bits, Vx the sum
    /// modulo 256. Both operands are read before either write.
    fn exec_add(&mut self, x: VariableRegister, y: VariableRegister)
        requires
            old(self).wf(),
        ensures
            final(self).wf(),
            final(self)@ == step_model(old(self)@, Instruction::Add(x, y), 0),
    {
        proof {
            reveal(step_model);
        }
        let xi = x.index();
        let yi = y.index();
        let a = self.registers[xi];
        let b = self.registers[yi];
        let carry: u8 = if a as u16 + b as u16 > 255 {
            1
        } else {
            0
        };
        self.registers.set(15, carry);
        self.registers.set(xi, a.wrapping_add(b));
    }

    /// Vx minus Vy into Vx: VF is 1 exactly when no borrow occurs, and the
    /// difference wraps modulo 256.
    fn exec_sub_lr(&mut self, x: VariableRegister, y: VariableRegister)
        requires
            old(self).wf(),
        ensures
            final(self).wf(),
            final(self)@ == step_model(old(self)@, Instruction::SubtractLR(x, y), 0),
    {
        proof {
            reveal(step_model);
        }
        let xi = x.index();
        let yi = y.index();
        let a = self.registers[xi];
        let b = self.registers[yi];
        let flag: u8 = if a >= b {
            1
        } else {
            0
        };
        self.registers.set(15, flag);
        self.registers.set(xi, a.wrapping_sub(b));
    }

    /// Vy minus Vx into Vx: VF is 1 exactly when no borrow occurs, and the
    /// difference wraps modulo 256.
    fn exec_sub_rl(&mut self, x: VariableRegister, y: VariableRegister)
        requires
            old(self).wf(),
        ensures
            final(self).wf(),
            final(self)@ == step_model(old(self)@, Instruction::SubtractRL(x, y), 0),
    {
        proof {
            reveal(step_model);
        }
        let xi = x.index();
        let yi = y.index();
        let a = self.registers[xi];
        let b = self.registers[yi];
        let flag: u8 = if b >= a {
            1
        } else {
            0
        };
        self.registers.set(15, flag);
        self.registers.set(xi, b.wrapping_sub(a));
    }

    /// Shift Vx left in place, ignoring the second operand register; VF
    /// receives the bit shifted out.
    fn exec_shift_left(&mut self, x: VariableRegister, y: VariableRegister)
        requires
            old(self).wf(),
        ensures
            final(self).wf(),
            final(self)@ == step_model(old(self)@, Instruction::ShiftLeft(x, y), 0),
    {
        proof {
            reveal(step_model);
        }
        let xi = x.index();
        let a = self.registers[xi];
        let flag: u8 = if a >= 128 {
            1
        } else {
            0
        };
        let shifted: u8 = if a >= 128 {
            (a - 128) * 2
        } else {
            a * 2
        };
        self.registers.set(15, flag);
        self.registers.set(xi, shifted);
    }

    /// Shift Vx right in place, ignoring the second operand register; VF
    /// receives the bit shifted out.
    fn exec_shift_right(&mut self, x: VariableRegister, y: VariableRegister)
        requires
            old(self).wf(),
        ensures
            final(self).wf(),
            final(self)@ == step_model(old(self)@, Instruction::ShiftRight(x, y), 0),
    {
        proof {
            reveal(step_model);
        }
        let xi = x.index();
        let a = self.registers[xi];
        let flag: u8 = a % 2;
        let shifted: u8 = a / 2;
        self.registers.set(15, flag);
        self.registers.set(xi, shifted);
    }

    /// Skip the next instruction when the key named by the low nibble of Vx
    /// is pressed.
    fn exec_skip_key_pressed(&mut self, x: VariableRegister)
        requires
            old(self).wf(),
        ensures
            final(self).wf(),
            final(self)@ == step_model(old(self)@, Instruction::SkipIfKeyPressed(x), 0),
    {
        proof {
            reveal(step_model);
        }
        let xi = x.index();
        let v = self.registers[xi];
        proof {
            lemma_byte_masks(v);
        }
        let key = (v & 0xF) as usize;
        if self.keypad[key] {
            self.pc = self.pc.wrapping_add(2);
        }
    }

    /// Skip the next instruction when the key named by the low nibble of Vx
    /// is not pressed.
    fn exec_skip_key_not_pressed(&mut self, x: VariableRegister)
        requires
            old(self).wf(),
        ensures
            final(self).wf(),
            final(self)@ == step_model(old(self)@, Instruction::SkipIfKeyNotPressed(x), 0),
    {
        proof {
            reveal(step_model);
        }
        let xi = x.index();
        let v = self.registers[xi];
        proof {
            lemma_byte_masks(v);
        }
        let key = (v & 0xF) as usize;
        if !self.keypad[key] {
            self.pc = self.pc.wrapping_add(2);
        }
    }

    /// Copy the delay timer into Vx.
    fn exec_get_delay(&mut self, x: VariableRegister)
        requires
            old(self).wf(),
        ensures
            final(self).wf(),
            final(self)@ == step_model(old(self)@, Instruction::GetDelayTimer(x), 0),
    {
        proof {
            reveal(step_model);
        }
        let xi = x.index();
        let d = self.delay;
        self.registers.set(xi, d);
    }

    /// Copy Vx into the delay timer.
    fn exec_set_delay(&mut self, x: VariableRegister)
        requires
            old(self).wf(),
        ensures
            final(self).wf(),
            final(self)@ == step_model(old(self)@, Instruction::SetDelayTimer(x), 0),
    {
        proof {
            reveal(step_model);
        }
        let xi = x.index();
        self.delay = self.registers[xi];
    }

    /// Copy Vx into the sound timer.
    fn exec_set_sound(&mut self, x: VariableRegister)
        requires
            old(self).wf(),
        ensures
            final(self).wf(),
            final(self)@ == step_model(old(self)@, Instruction::SetSoundTimer(x), 0),
    {
        proof {
            reveal(step_model);
        }
        let xi = x.index();
        self.sound = self.registers[xi];
    }

    /// Point the index register at the font glyph for the digit in the low
    /// nibble of Vx: glyph d lives at address 5 * d.
    fn exec_font(&mut self, x: VariableRegister)
        requires
            old(self).wf(),
        ensures
            final(self).wf(),
            final(self)@ == step_model(old(self)@, Instruction::Font(x), 0),
    {
        proof {
            reveal(step_model);
        }
        let xi = x.index();
        let v = self.registers[xi] & 0xF;
        proof {
            lemma_byte_masks(self.registers[xi as int]);
        }
        self.index = 5 * (v as u16);
    }

    /// Add Vx to the index register, wrapping at 16 bits; VF reports whether
    /// the sum left the 12-bit address range.
    fn exec_add_to_index(&mut self, x: VariableRegister)
        requires
            old(self).wf(),
        ensures
            final(self).wf(),
            final(self)@ == step_model(old(self)@, Instruction::AddToIndex(x), 0),
    {
        proof {
            reveal(step_model);
        }
        let xi = x.index();
        let off = self.registers[xi];
        let flag: u8 = if self.index as u32 + off as u32 > 0xFFF {
            1
        } else {
            0
        };
        self.registers.set(15, flag);
        self.index = self.index.wrapping_add(off as u16);
    }

    /// Whether executing `ins` now would succeed: the executable test for
    /// `exec_ok`.
    fn check_exec_ok(&self, ins: Instruction) -> (b: bool)
        requires
            self.wf(),
        ensures
            b == exec_ok(self@, ins),
    {
        match ins {
            Instruction::Pop => self.stack.len() > 0,
            Instruction::Display { x: _, y: _, n } => self.index as usize + n as usize <= 4096,
            Instruction::BinDecConversion(_) => self.index as usize + 3 <= 4096,
            Instruction::Store(x) => x < 16 && self.index as usize + x as usize + 1 <= 4096,
            Instruction::Load(x) => x < 16 && self.index as usize + x as usize + 1 <= 4096,
            Instruction::GetKey(_) => self.pc >= 2 || self.any_key_pressed(),
            _ => true,
        }
    }

    /// The fatal condition to report for `ins`: the executable counterpart
    /// of `exec_err`.
    fn err_for(&self, ins: Instruction) -> (e: Chip8Error)
        requires
            self.wf(),
            !exec_ok(self@, ins),
        ensures
            e == exec_err(self@, ins),
    {
        match ins {
            Instruction::Pop => Chip8Error::StackUnderflow,
            Instruction::Store(x) => if x >= 16 {
                Chip8Error::InvalidRegister
            } else {
                Chip8Error::OutOfBounds
            },
            Instruction::Load(x) => if x >= 16 {
                Chip8Error::InvalidRegister
            } else {
                Chip8Error::OutOfBounds
            },
            _ => Chip8Error::OutOfBounds,
        }
    }

    /// Dispatch one instruction that is known to succeed to its handler.
    #[verifier::rlimit(100)]
    fn execute_ok(&mut self, ins: Instruction)
        requires
            old(self).wf(),
            exec_ok(old(self)@, ins),
        ensures
            final(self).wf(),
            !(ins is Random) ==> final(self)@ == step_model(old(self)@, ins, 0),
            ins is Random ==> exists|b: u8| final(self)@ == step_model(old(self)@, ins, b),
    {
        match ins {
            Instruction::ClearScreen => self.exec_clear(),
            Instruction::Jump(a) => self.exec_jump(a),
            Instruction::JumpWithOffset(a) => self.exec_jump_with_offset(a),
            Instruction::Call(a) => self.exec_call(a),
            Instruction::Pop => self.exec_pop(),
            Instruction::SetRegImm(x, imm) => self.exec_set_reg_imm(x, imm),
            Instruction::AddRegImm(x, imm) => self.exec_add_reg_imm(x, imm),
            Instruction::SetIdxRegImm(a) => self.exec_set_index_imm(a),
            Instruction::Display { x, y, n } => self.exec_display(x, y, n),
            Instruction::SkipIfEqImm(x, imm) => self.exec_skip_eq_imm(x, imm),
            Instruction::SkipIfNeqImm(x, imm) => self.exec_skip_neq_imm(x, imm),
            Instruction::SkipIfEqReg(x, y) => self.exec_skip_eq_reg(x, y),
            Instruction::SkipIfNeqReg(x, y) => self.exec_skip_neq_reg(x, y),
            Instruction::SetReg(x, y) => self.exec_set_reg(x, y),
            Instruction::BinOr(x, y) => self.exec_bin_or(x, y),
            Instruction::BinAnd(x, y) => self.exec_bin_and(x, y),
            Instruction::Xor(x, y) => self.exec_xor(x, y),
            Instruction::Add(x, y) => self.exec_add(x, y),
            Instruction::SubtractLR(x, y) => self.exec_sub_lr(x, y),
            Instruction::SubtractRL(x, y) => self.exec_sub_rl(x, y),
            Instruction::ShiftLeft(x, y) => self.exec_shift_left(x, y),
            Instruction::ShiftRight(x, y) => self.exec_shift_right(x, y),
            _ => self.execute_ok_rest(ins),
        }
    }

    /// Dispatch the remaining instruction families: random numbers, keypad
    /// and timer access, and the memory block operations.
    #[verifier::rlimit(100)]
    fn execute_ok_rest(&mut self, ins: Instruction)
        requires
            old(self).wf(),
            exec_ok(old(self)@, ins),
            ins is Random || ins is SkipIfKeyPressed || ins is SkipIfKeyNotPressed
                || ins is GetDelayTimer || ins is SetDelayTimer || ins is SetSoundTimer
                || ins is GetKey || ins is Font || ins is BinDecConversion || ins is Store
                || ins is Load || ins is AddToIndex,
        ensures
            final(self).wf(),
            !(ins is Random) ==> final(self)@ == step_model(old(self)@, ins, 0),
            ins is Random ==> exists|b: u8| final(self)@ == step_model(old(self)@, ins, b),
    {
        match ins {
            Instruction::Random(x, mask) => {
                let b = random_byte();
                self.apply_random(x, mask, b);
                proof {
                    assert(self@ == step_model(old(self)@, ins, b));
                }
            },
            Instruction::SkipIfKeyPressed(x) => self.exec_skip_key_pressed(x),
            Instruction::SkipIfKeyNotPressed(x) => self.exec_skip_key_not_pressed(x),
            Instruction::GetDelayTimer(x) => self.exec_get_delay(x),
            Instruction::SetDelayTimer(x) => self.exec_set_delay(x),
            Instruction::SetSoundTimer(x) => self.exec_set_sound(x),
            Instruction::GetKey(x) => self.exec_get_key(x),
            Instruction::Font(x) => self.exec_font(x),
            Instruction::BinDecConversion(x) => self.exec_bcd(x),
            Instruction::Store(x) => self.exec_store(x),
            Instruction::Load(x) => self.exec_load(x),
            Instruction::AddToIndex(x) => self.exec_add_to_index(x),
            _ => {
                proof {
                    assert(false);
                }
            },
        }
    }

    /// Apply one decoded instruction to the machine state.
    ///
    /// On success the new state is exactly `step_model` of the old one; for
    /// the random-number instruction this holds for some byte, since the
    /// drawn value is not determined by the machine state. On failure the
    /// machine is unchanged and the error is the fatal condition named by
    /// `exec_err`; failure happens exactly when `exec_ok` denies the state.
    pub fn execute(&mut self, ins: Instruction) -> (r: Result<(), Chip8Error>)
        requires
            old(self).wf(),
        ensures
            final(self).wf(),
            r is Ok <==> exec_ok(old(self)@, ins),
            r is Err ==> final(self)@ == old(self)@ && r->Err_0 == exec_err(old(self)@, ins),
            r is Ok && !(ins is Random) ==> final(self)@ == step_model(old(self)@, ins, 0),
            r is Ok && ins is Random ==> exists|b: u8|
                final(self)@ == step_model(old(self)@, ins, b),
    {
        if !self.check_exec_ok(ins) {
            return Err(self.err_for(ins));
        }
        self.execute_ok(ins);
        Ok(())
    }


    /// One whole machine cycle: fetch the opcode at the program counter,
    /// decode it, and execute it.
    ///
    /// A fetch past the end of memory fails with the machine unchanged; an
    /// unknown opcode fails with the counter already moved past it; a fatal
    /// condition during execution reports that condition, again with the
    /// counter already advanced. Otherwise the new state is `step_model` of
    /// the post-fetch state.
    pub fn step(&mut self) -> (r: Result<(), Chip8Error>)
        requires
            old(self).wf(),
        ensures
            final(self).wf(),
            old(self)@.pc + 1 >= 4096 ==> r is Err && r->Err_0 == Chip8Error::OutOfBounds
                && final(self)@ == old(self)@,
            old(self)@.pc + 1 < 4096 ==> match decode_of(opcode_at(old(self)@)) {
                Option::None => r is Err && r->Err_0 == Chip8Error::UnknownOpcode(
                    opcode_at(old(self)@),
                ) && final(self)@ == after_fetch(old(self)@),
                Option::Some(ins) => {
                    &&& (r is Ok <==> exec_ok(after_fetch(old(self)@), ins))
                    &&& (r is Err ==> r->Err_0 == exec_err(after_fetch(old(self)@), ins)
                        && final(self)@ == after_fetch(old(self)@))
                    &&& (r is Ok && !(ins is Random) ==> final(self)@ == step_model(
                        after_fetch(old(self)@),
                        ins,
                        0,
                    ))
                    &&& (r is Ok && ins is Random ==> exists|b: u8|
                        final(self)@ == step_model(after_fetch(old(self)@), ins, b))
                },
            },
    {
        let op = match self.fetch() {
            Ok(op) => op,
            Err(e) => {
                return Err(e);
            },
        };
        let ins = match decode(op) {
            Ok(ins) => ins,
            Err(e) => {
                return Err(e);
            },
        };
        self.execute(ins)
    }
}

/// The machine state once the opcode at the program counter has been
/// consumed: the counter has moved two bytes on, nothing else changed.
pub open spec fn after_fetch(m: MachineModel) -> MachineModel
    recommends
        m.pc + 1 < 4096,
{
    MachineModel { pc: (m.pc + 2) as u16, ..m }
}

/// Relies on rand::thread_rng and rand::Rng::gen: draws one byte from the
/// thread-local random generator. Nothing is promised of the value; callers
/// state what holds of every possible byte.
#[verifier::external_body]
fn random_byte() -> u8 {
    rand::thread_rng().gen()
}

} // verus!
