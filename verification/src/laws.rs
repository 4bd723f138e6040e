use vstd::prelude::*;

use crate::execute::{
    after_fetch, draw_covers, draw_hits, exec_ok, first_pressed, step_model,
};
use crate::isa::Instruction;
use crate::machine::MachineModel;
use crate::register::{reg_index, VariableRegister};

verus! {

/// Register-to-register add: for every machine state and pair of registers,
/// the destination becomes the sum modulo 256 and VF becomes 1 exactly when
/// the sum exceeds 255. Excluded: a destination of VF itself, where the
/// wrapped sum overwrites the flag.
pub proof fn lemma_add_carry(m: MachineModel, x: VariableRegister, y: VariableRegister)
    requires
        m.wf(),
        x != VariableRegister::VF,
    ensures
        ({
            let a = m.regs[reg_index(x)];
            let b = m.regs[reg_index(y)];
            let m2 = step_model(m, Instruction::Add(x, y), 0);
            &&& m2.regs[reg_index(x)] == (a + b) % 256
            &&& (m2.regs[15] == 1 <==> a + b > 255)
            &&& (m2.regs[15] == 0 <==> a + b <= 255)
        }),
{
    reveal(step_model);
    crate::register::lemma_reg_index_bounds(x);
    crate::register::lemma_reg_index_bounds(y);
}

/// Left-minus-right subtract: the destination becomes (a - b) modulo 256 and
/// VF becomes 1 exactly when a >= b, that is, when no borrow occurs.
/// Excluded: a destination of VF itself, where the result overwrites the
/// flag.
pub proof fn lemma_subtract_borrow(m: MachineModel, x: VariableRegister, y: VariableRegister)
    requires
        m.wf(),
        x != VariableRegister::VF,
    ensures
        ({
            let a = m.regs[reg_index(x)];
            let b = m.regs[reg_index(y)];
            let m2 = step_model(m, Instruction::SubtractLR(x, y), 0);
            &&& m2.regs[reg_index(x)] == (a - b) % 256
            &&& (m2.regs[15] == 1 <==> a >= b)
            &&& (m2.regs[15] == 0 <==> a < b)
        }),
{
    reveal(step_model);
    crate::register::lemma_reg_index_bounds(x);
    crate::register::lemma_reg_index_bounds(y);
}

/// Both shifts ignore their second operand register entirely: the outcome is
/// the same whatever register stands there.
pub proof fn lemma_shift_ignores_second_operand(
    m: MachineModel,
    x: VariableRegister,
    y1: VariableRegister,
    y2: VariableRegister,
)
    requires
        m.wf(),
    ensures
        step_model(m, Instruction::ShiftLeft(x, y1), 0) == step_model(
            m,
            Instruction::ShiftLeft(x, y2),
            0,
        ),
        step_model(m, Instruction::ShiftRight(x, y1), 0) == step_model(
            m,
            Instruction::ShiftRight(x, y2),
            0,
        ),
{
    reveal(step_model);
}

/// The shifts move Vx one bit in place and VF receives exactly the bit
/// shifted out: the top bit for a left shift, the bottom bit for a right
/// shift. Excluded: a destination of VF itself, where the shifted value
/// overwrites the flag.
pub proof fn lemma_shift_flag(m: MachineModel, x: VariableRegister, y: VariableRegister)
    requires
        m.wf(),
        x != VariableRegister::VF,
    ensures
        ({
            let a = m.regs[reg_index(x)];
            let ml = step_model(m, Instruction::ShiftLeft(x, y), 0);
            let mr = step_model(m, Instruction::ShiftRight(x, y), 0);
            &&& ml.regs[reg_index(x)] == (a * 2) % 256
            &&& ml.regs[15] == a / 128
            &&& mr.regs[reg_index(x)] == a / 2
            &&& mr.regs[15] == a % 2
        }),
{
    reveal(step_model);
    crate::register::lemma_reg_index_bounds(x);
}

/// Drawing the same sprite at the same location twice restores the display:
/// the XOR of each covered cell cancels. VF after the second draw reports a
/// collision exactly where the first draw lit a cell, that is, where some
/// covered cell was dark at the start. Excluded: VF as a coordinate
/// register, since the first draw overwrites it.
pub proof fn lemma_draw_twice_restores(
    m: MachineModel,
    x: VariableRegister,
    y: VariableRegister,
    n: u8,
)
    requires
        m.wf(),
        x != VariableRegister::VF,
        y != VariableRegister::VF,
        m.index + n <= 4096,
    ensures
        ({
            let x0 = (m.regs[reg_index(x)] & 63) as int;
            let y0 = (m.regs[reg_index(y)] & 31) as int;
            let m1 = step_model(m, Instruction::Display { x, y, n }, 0);
            let m2 = step_model(m1, Instruction::Display { x, y, n }, 0);
            &&& m2.disp == m.disp
            &&& (m2.regs[15] == 1 <==> exists|p: int|
                0 <= p < 2048 && !m.disp[p] && draw_covers(m.mem, m.index, x0, y0, n, p % 64, p
                    / 64))
        }),
{
    reveal(step_model);
    crate::register::lemma_reg_index_bounds(x);
    crate::register::lemma_reg_index_bounds(y);
    let x0 = (m.regs[reg_index(x)] & 63) as int;
    let y0 = (m.regs[reg_index(y)] & 31) as int;
    let m1 = step_model(m, Instruction::Display { x, y, n }, 0);
    let m2 = step_model(m1, Instruction::Display { x, y, n }, 0);
    // the first draw leaves the coordinate registers, memory and index
    // untouched, so the second draw covers the same cells
    assert(m1.regs[reg_index(x)] == m.regs[reg_index(x)]);
    assert(m1.regs[reg_index(y)] == m.regs[reg_index(y)]);
    assert(m2.disp =~= m.disp);
    if m2.regs[15] == 1 {
        let w = choose|p: int|
            0 <= p < 2048 && m1.disp[p] && draw_covers(m1.mem, m1.index, x0, y0, n, p % 64, p
                / 64);
        assert(!m.disp[w] && draw_covers(m.mem, m.index, x0, y0, n, w % 64, w / 64));
    }
    if exists|p: int|
        0 <= p < 2048 && !m.disp[p] && draw_covers(m.mem, m.index, x0, y0, n, p % 64, p / 64) {
        let w = choose|p: int|
            0 <= p < 2048 && !m.disp[p] && draw_covers(m.mem, m.index, x0, y0, n, p % 64, p / 64);
        assert(m1.disp[w] && draw_covers(m1.mem, m1.index, x0, y0, n, w % 64, w / 64));
        assert(draw_hits(m1.disp, m1.mem, m1.index, x0, y0, n));
    }
}

/// The sprite draw touches nothing outside the 64x32 grid: the display keeps
/// its 2048 cells, a cell the sprite does not cover keeps its value, and a
/// covered cell always lies inside the grid, so out-of-range pixels are
/// dropped rather than wrapped.
pub proof fn lemma_draw_clips(m: MachineModel, x: VariableRegister, y: VariableRegister, n: u8)
    requires
        m.wf(),
        m.index + n <= 4096,
    ensures
        ({
            let x0 = (m.regs[reg_index(x)] & 63) as int;
            let y0 = (m.regs[reg_index(y)] & 31) as int;
            let m1 = step_model(m, Instruction::Display { x, y, n }, 0);
            &&& m1.disp.len() == 2048
            &&& forall|p: int|
                0 <= p < 2048 && !draw_covers(m.mem, m.index, x0, y0, n, p % 64, p / 64)
                    ==> m1.disp[p] == m.disp[p]
            &&& forall|px: int, py: int|
                draw_covers(m.mem, m.index, x0, y0, n, px, py) ==> 0 <= px < 64 && 0 <= py < 32
            &&& m1.mem == m.mem
        }),
{
    reveal(step_model);
    crate::register::lemma_reg_index_bounds(x);
    crate::register::lemma_reg_index_bounds(y);
    crate::execute::lemma_byte_masks(m.regs[reg_index(x)]);
    crate::execute::lemma_byte_masks(m.regs[reg_index(y)]);
}

/// The key wait blocks by rewinding: when no key is pressed, a whole
/// fetch-execute cycle of the wait instruction leaves the machine exactly as
/// it was, so the program counter shows no net movement and the wait repeats
/// next cycle.
pub proof fn lemma_get_key_blocks(m: MachineModel, x: VariableRegister)
    requires
        m.wf(),
        m.pc + 1 < 4096,
        first_pressed(m.keys, 0) is None,
    ensures
        step_model(after_fetch(m), Instruction::GetKey(x), 0) == m,
{
    reveal(step_model);
    assert(step_model(after_fetch(m), Instruction::GetKey(x), 0) =~= m);
}

/// When some key is pressed, the key wait completes: over a whole
/// fetch-execute cycle the program counter advances past the instruction and
/// Vx receives the lowest pressed key's code; nothing else changes.
pub proof fn lemma_get_key_completes(m: MachineModel, x: VariableRegister)
    requires
        m.wf(),
        m.pc + 1 < 4096,
        first_pressed(m.keys, 0) is Some,
    ensures
        ({
            let m1 = step_model(after_fetch(m), Instruction::GetKey(x), 0);
            let k = first_pressed(m.keys, 0)->Some_0;
            &&& m1.pc == m.pc + 2
            &&& m1.regs == m.regs.update(reg_index(x), k)
            &&& m.keys[k as int]
            &&& m1 == (MachineModel { pc: m1.pc, regs: m1.regs, ..m })
        }),
{
    reveal(step_model);
    lemma_first_pressed_is_pressed(m.keys, 0);
}

/// The key position returned by `first_pressed` really is pressed and lies
/// in range.
proof fn lemma_first_pressed_is_pressed(keys: Seq<bool>, from: int)
    requires
        keys.len() == 16,
        0 <= from <= 16,
        first_pressed(keys, from) is Some,
    ensures
        ({
            let k = first_pressed(keys, from)->Some_0;
            from <= k < 16 && keys[k as int]
        }),
    decreases 16 - from,
{
    if from < 16 && !keys[from] {
        lemma_first_pressed_is_pressed(keys, from + 1);
    }
}

/// Register-block store writes V0..Vx to memory in register order, and a
/// load from the same index restores every register: for x = 15 all sixteen
/// registers round-trip through memory unchanged.
pub proof fn lemma_store_load_round_trip(m: MachineModel, x: u8)
    requires
        m.wf(),
        x < 16,
        m.index + x + 1 <= 4096,
    ensures
        ({
            let m1 = step_model(m, Instruction::Store(x), 0);
            let m2 = step_model(m1, Instruction::Load(x), 0);
            &&& forall|i: int| 0 <= i <= x ==> m1.mem[m.index + i] == m.regs[i]
            &&& exec_ok(m1, Instruction::Load(x))
            &&& m2.regs == m.regs
            &&& m2.mem == m1.mem
        }),
{
    reveal(step_model);
    let m1 = step_model(m, Instruction::Store(x), 0);
    let m2 = step_model(m1, Instruction::Load(x), 0);
    assert(m2.regs =~= m.regs);
}

} // verus!
