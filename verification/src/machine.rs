use vstd::prelude::*;

use crate::isa::Chip8Error;
use crate::register::{reg_index, VariableRegister};

verus! {

/// Size of the byte-addressable memory.
pub const MEM_SIZE: usize = 4096;

/// First address of the loaded program image.
pub const ROM_START: usize = 512;

/// Width of the monochrome display in pixels.
pub const GRID_WIDTH: usize = 64;

/// Height of the monochrome display in pixels.
pub const GRID_HEIGHT: usize = 32;

/// The mathematical model of the whole machine state. Contracts and proofs
/// speak about this structure; `Machine` is its executable carrier.
#[verifier::ext_equal]
pub struct MachineModel {
    /// 4096 bytes of memory, fonts at 0x000..0x050, program at 0x200.
    pub mem: Seq<u8>,
    /// The sixteen one-byte variable registers V0..VF, by position.
    pub regs: Seq<u8>,
    /// The 64x32 display, row-major: pixel (x, y) is at index y * 64 + x.
    pub disp: Seq<bool>,
    /// LIFO return-address stack, most recent call last. Its depth is
    /// unbounded by design: no 16-level limit is enforced.
    pub stack: Seq<u16>,
    /// Snapshot of the sixteen logical keys, true while pressed.
    pub keys: Seq<bool>,
    /// Program counter: address of the next opcode to fetch.
    pub pc: u16,
    /// The 16-bit index register pointing into memory.
    pub index: u16,
    /// Delay timer, counted down toward zero by `tick_timers`.
    pub delay: u8,
    /// Sound timer, counted down toward zero by `tick_timers`.
    pub sound: u8,
}

impl MachineModel {
    /// The fixed shape of a machine state: every component has its size.
    pub open spec fn wf(self) -> bool {
        &&& self.mem.len() == 4096
        &&& self.regs.len() == 16
        &&& self.disp.len() == 2048
        &&& self.keys.len() == 16
    }

    /// The value of a variable register.
    pub open spec fn reg(self, r: VariableRegister) -> u8 {
        self.regs[reg_index(r)]
    }
}

/// The CHIP-8 machine state: memory, registers, display, stack, timers and
/// the keypad snapshot, owned as one mutable aggregate. All mutation flows
/// through the load, execute and timer-tick operations.
pub struct Machine {
    pub memory: Vec<u8>,
    pub registers: Vec<u8>,
    pub display: Vec<bool>,
    pub stack: Vec<u16>,
    pub keypad: Vec<bool>,
    pub pc: u16,
    pub index: u16,
    pub delay: u8,
    pub sound: u8,
}

impl View for Machine {
    type V = MachineModel;

    open spec fn view(&self) -> MachineModel {
        MachineModel {
            mem: self.memory@,
            regs: self.registers@,
            disp: self.display@,
            stack: self.stack@,
            keys: self.keypad@,
            pc: self.pc,
            index: self.index,
            delay: self.delay,
            sound: self.sound,
        }
    }
}

/// The 80-byte font table: sixteen 5-byte glyphs for the digits 0..F,
/// loaded at address 0x000. The glyph for digit d starts at 5 * d.
pub open spec fn font_data() -> Seq<u8> {
    seq![
        0xF0u8, 0x90, 0x90, 0x90, 0xF0,  // 0
        0x20, 0x60, 0x20, 0x20, 0x70,  // 1
        0xF0, 0x10, 0xF0, 0x80, 0xF0,  // 2
        0xF0, 0x10, 0xF0, 0x10, 0xF0,  // 3
        0x90, 0x90, 0xF0, 0x10, 0x10,  // 4
        0xF0, 0x80, 0xF0, 0x10, 0xF0,  // 5
        0xF0, 0x80, 0xF0, 0x90, 0xF0,  // 6
        0xF0, 0x10, 0x20, 0x40, 0x40,  // 7
        0xF0, 0x90, 0xF0, 0x90, 0xF0,  // 8
        0xF0, 0x90, 0xF0, 0x10, 0xF0,  // 9
        0xF0, 0x90, 0xF0, 0x90, 0x90,  // A
        0xE0, 0x90, 0xE0, 0x90, 0xE0,  // B
        0xF0, 0x80, 0x80, 0x80, 0xF0,  // C
        0xE0, 0x90, 0x90, 0x90, 0xE0,  // D
        0xF0, 0x80, 0xF0, 0x80, 0xF0,  // E
        0xF0, 0x80, 0xF0, 0x80, 0x80,  // F
    ]
}

/// A countdown step: one less, stopping at zero.
pub open spec fn timer_dec(t: u8) -> u8 {
    if t > 0 {
        (t - 1) as u8
    } else {
        0
    }
}

/// The big-endian 16-bit opcode formed by the bytes at the program counter.
pub open spec fn opcode_at(m: MachineModel) -> u16
    recommends
        m.wf(),
        m.pc + 1 < 4096,
{
    ((m.mem[m.pc as int] as int) * 256 + (m.mem[m.pc as int + 1] as int)) as u16
}

fn repeat_byte(n: usize, b: u8) -> (v: Vec<u8>)
    ensures
        v@.len() == n,
        forall|i: int| 0 <= i < n ==> v@[i] == b,
{
    let mut v: Vec<u8> = Vec::new();
    let mut k: usize = 0;
    while k < n
        invariant
            k <= n,
            v@.len() == k,
            forall|i: int| 0 <= i < k ==> v@[i] == b,
        decreases n - k,
    {
        v.push(b);
        k = k + 1;
    }
    v
}

fn repeat_bool(n: usize, b: bool) -> (v: Vec<bool>)
    ensures
        v@.len() == n,
        forall|i: int| 0 <= i < n ==> v@[i] == b,
{
    let mut v: Vec<bool> = Vec::new();
    let mut k: usize = 0;
    while k < n
        invariant
            k <= n,
            v@.len() == k,
            forall|i: int| 0 <= i < k ==> v@[i] == b,
        decreases n - k,
    {
        v.push(b);
        k = k + 1;
    }
    v
}

impl Machine {
    /// Well-formedness of the executable state; established by `new` and
    /// preserved by every operation.
    pub open spec fn wf(self) -> bool {
        self@.wf()
    }

    /// A freshly powered-on machine: font table at 0x000, the rest of memory
    /// zero, all registers and timers zero, display and keypad clear, empty
    /// stack, program counter at 0x200.
    pub fn new() -> (m: Machine)
        ensures
            m.wf(),
            forall|i: int| 0 <= i < 80 ==> m@.mem[i] == font_data()[i],
            forall|i: int| 80 <= i < 4096 ==> m@.mem[i] == 0,
            forall|i: int| 0 <= i < 16 ==> m@.regs[i] == 0,
            forall|i: int| 0 <= i < 2048 ==> !m@.disp[i],
            forall|i: int| 0 <= i < 16 ==> !m@.keys[i],
            m@.stack.len() == 0,
            m@.pc == 0x200,
            m@.index == 0,
            m@.delay == 0,
            m@.sound == 0,
    {
        let fonts: [u8; 80] = [
            0xF0, 0x90, 0x90, 0x90, 0xF0,  // 0
            0x20, 0x60, 0x20, 0x20, 0x70,  // 1
            0xF0, 0x10, 0xF0, 0x80, 0xF0,  // 2
            0xF0, 0x10, 0xF0, 0x10, 0xF0,  // 3
            0x90, 0x90, 0xF0, 0x10, 0x10,  // 4
            0xF0, 0x80, 0xF0, 0x10, 0xF0,  // 5
            0xF0, 0x80, 0xF0, 0x90, 0xF0,  // 6
            0xF0, 0x10, 0x20, 0x40, 0x40,  // 7
            0xF0, 0x90, 0xF0, 0x90, 0xF0,  // 8
            0xF0, 0x90, 0xF0, 0x10, 0xF0,  // 9
            0xF0, 0x90, 0xF0, 0x90, 0x90,  // A
            0xE0, 0x90, 0xE0, 0x90, 0xE0,  // B
            0xF0, 0x80, 0x80, 0x80, 0xF0,  // C
            0xE0, 0x90, 0x90, 0x90, 0xE0,  // D
            0xF0, 0x80, 0xF0, 0x80, 0xF0,  // E
            0xF0, 0x80, 0xF0, 0x80, 0x80,  // F
        ];
        proof {
            assert(fonts@ =~= font_data());
        }
        let mut memory = repeat_byte(MEM_SIZE, 0);
        let mut k: usize = 0;
        while k < 80
            invariant
                k <= 80,
                fonts@ =~= font_data(),
                memory@.len() == 4096,
                forall|i: int| 0 <= i < k ==> memory@[i] == font_data()[i],
                forall|i: int| k <= i < 4096 ==> memory@[i] == 0,
            decreases 80 - k,
        {
            memory.set(k, fonts[k]);
            proof {
                assert(fonts@[k as int] == font_data()[k as int]);
            }
            k = k + 1;
        }
        Machine {
            memory,
            registers: repeat_byte(16, 0),
            display: repeat_bool(2048, false),
            stack: Vec::new(),
            keypad: repeat_bool(16, false),
            pc: 0x200,
            index: 0,
            delay: 0,
            sound: 0,
        }
    }

    /// Copy a program image into memory starting at 0x200.
    ///
    /// Fails with `OutOfBounds`, leaving the machine unchanged, exactly when
    /// the image is larger than the 3584 bytes above the reserved area.
    pub fn load_rom(&mut self, rom: &Vec<u8>) -> (r: Result<(), Chip8Error>)
        requires
            old(self).wf(),
        ensures
            final(self).wf(),
            r is Ok <==> rom@.len() <= 3584,
            r is Err ==> final(self)@ == old(self)@ && r->Err_0 == Chip8Error::OutOfBounds,
            r is Ok ==> final(self)@ == (MachineModel {
                mem: Seq::new(4096, |a: int|
                    if 0x200 <= a < 0x200 + rom@.len() {
                        rom@[a - 0x200]
                    } else {
                        old(self)@.mem[a]
                    }),
                ..old(self)@
            }),
    {
        if rom.len() > MEM_SIZE - ROM_START {
            return Err(Chip8Error::OutOfBounds);
        }
        let mut k: usize = 0;
        while k < rom.len()
            invariant
                old(self).wf(),
                rom@.len() <= 3584,
                k <= rom@.len(),
                self.memory@.len() == 4096,
                forall|a: int| 0x200 <= a < 0x200 + k ==> self.memory@[a] == rom@[a - 0x200],
                forall|a: int| (0 <= a < 0x200 || 0x200 + k <= a < 4096) ==> self.memory@[a]
                    == old(self)@.mem[a],
                self.registers == old(self).registers,
                self.display == old(self).display,
                self.stack == old(self).stack,
                self.keypad == old(self).keypad,
                self.pc == old(self).pc,
                self.index == old(self).index,
                self.delay == old(self).delay,
                self.sound == old(self).sound,
            decreases rom@.len() - k,
        {
            self.memory.set(ROM_START + k, rom[k]);
            k = k + 1;
        }
        proof {
            assert(self@.mem =~= Seq::new(4096, |a: int|
                if 0x200 <= a < 0x200 + rom@.len() {
                    rom@[a - 0x200]
                } else {
                    old(self)@.mem[a]
                }));
        }
        Ok(())
    }

    /// Read the two bytes at the program counter as one big-endian opcode and
    /// advance the counter by two.
    ///
    /// Fails with `OutOfBounds`, leaving the machine unchanged, exactly when
    /// the counter or its successor lies outside memory.
    pub fn fetch(&mut self) -> (r: Result<u16, Chip8Error>)
        requires
            old(self).wf(),
        ensures
            final(self).wf(),
            r is Ok <==> old(self)@.pc + 1 < 4096,
            r is Ok ==> r->Ok_0 == opcode_at(old(self)@) && final(self)@ == (MachineModel {
                pc: (old(self)@.pc + 2) as u16,
                ..old(self)@
            }),
            r is Err ==> final(self)@ == old(self)@ && r->Err_0 == Chip8Error::OutOfBounds,
    {
        if self.pc as usize + 1 < MEM_SIZE {
            let b0 = self.memory[self.pc as usize];
            let b1 = self.memory[self.pc as usize + 1];
            let op = (b0 as u16) * 256 + (b1 as u16);
            self.pc = self.pc + 2;
            Ok(op)
        } else {
            Err(Chip8Error::OutOfBounds)
        }
    }

    /// One 60 Hz timer tick: both countdown timers lose one, stopping at
    /// zero. Paced by the driver independently of instruction execution.
    pub fn tick_timers(&mut self)
        requires
            old(self).wf(),
        ensures
            final(self).wf(),
            final(self)@ == (MachineModel {
                delay: timer_dec(old(self)@.delay),
                sound: timer_dec(old(self)@.sound),
                ..old(self)@
            }),
    {
        if self.delay > 0 {
            self.delay = self.delay - 1;
        }
        if self.sound > 0 {
            self.sound = self.sound - 1;
        }
    }

    /// Record one key of the logical keypad as pressed or released.
    pub fn set_key(&mut self, key: u8, down: bool)
        requires
            old(self).wf(),
            key < 16,
        ensures
            final(self).wf(),
            final(self)@ == (MachineModel {
                keys: old(self)@.keys.update(key as int, down),
                ..old(self)@
            }),
    {
        self.keypad.set(key as usize, down);
    }

    /// Set a variable register directly, as a test harness or loader does.
    pub fn set_reg(&mut self, r: VariableRegister, val: u8)
        requires
            old(self).wf(),
        ensures
            final(self).wf(),
            final(self)@ == (MachineModel {
                regs: old(self)@.regs.update(reg_index(r), val),
                ..old(self)@
            }),
    {
        let i = r.index();
        self.registers.set(i, val);
    }

    /// Set the index register directly.
    pub fn set_index(&mut self, val: u16)
        requires
            old(self).wf(),
        ensures
            final(self).wf(),
            final(self)@ == (MachineModel { index: val, ..old(self)@ }),
    {
        self.index = val;
    }

    /// Set the program counter directly.
    pub fn set_pc(&mut self, val: u16)
        requires
            old(self).wf(),
        ensures
            final(self).wf(),
            final(self)@ == (MachineModel { pc: val, ..old(self)@ }),
    {
        self.pc = val;
    }

    /// Write one byte of memory directly.
    pub fn write_mem(&mut self, addr: usize, val: u8)
        requires
            old(self).wf(),
            addr < 4096,
        ensures
            final(self).wf(),
            final(self)@ == (MachineModel {
                mem: old(self)@.mem.update(addr as int, val),
                ..old(self)@
            }),
    {
        self.memory.set(addr, val);
    }

    /// The value of a variable register.
    pub fn reg(&self, r: VariableRegister) -> (v: u8)
        requires
            self.wf(),
        ensures
            v == self@.reg(r),
    {
        let i = r.index();
        self.registers[i]
    }

    /// The program counter.
    pub fn pc(&self) -> (v: u16)
        ensures
            v == self@.pc,
    {
        self.pc
    }

    /// The index register.
    pub fn index_register(&self) -> (v: u16)
        ensures
            v == self@.index,
    {
        self.index
    }

    /// The delay timer.
    pub fn delay_timer(&self) -> (v: u8)
        ensures
            v == self@.delay,
    {
        self.delay
    }

    /// The sound timer.
    pub fn sound_timer(&self) -> (v: u8)
        ensures
            v == self@.sound,
    {
        self.sound
    }

    /// One byte of memory.
    pub fn mem_byte(&self, addr: usize) -> (v: u8)
        requires
            self.wf(),
            addr < 4096,
        ensures
            v == self@.mem[addr as int],
    {
        self.memory[addr]
    }

    /// The display pixel at column `x`, row `y`: true while lit.
    pub fn pixel(&self, x: usize, y: usize) -> (v: bool)
        requires
            self.wf(),
            x < 64,
            y < 32,
        ensures
            v == self@.disp[y as int * 64 + x as int],
    {
        self.display[y * GRID_WIDTH + x]
    }

    /// How many return addresses the stack holds.
    pub fn stack_depth(&self) -> (n: usize)
        ensures
            n == self@.stack.len(),
    {
        self.stack.len()
    }
}

} // verus!
