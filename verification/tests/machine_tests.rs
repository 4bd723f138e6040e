use chip8::isa::{Chip8Error, Instruction};
use chip8::machine::Machine;
use chip8::register::VariableRegister;

const V0: VariableRegister = VariableRegister::V0;
const V1: VariableRegister = VariableRegister::V1;
const VF: VariableRegister = VariableRegister::VF;

#[test]
fn new_machine_has_fonts_and_clean_state() {
    let m = Machine::new();
    // first glyph row and last glyph row of the font table
    assert_eq!(m.mem_byte(0x000), 0xF0);
    assert_eq!(m.mem_byte(0x04F), 0x80);
    // glyph for digit 1 starts at 5
    assert_eq!(m.mem_byte(5), 0x20);
    assert_eq!(m.mem_byte(0x050), 0);
    assert_eq!(m.mem_byte(0xFFF), 0);
    assert_eq!(m.pc(), 0x200);
    assert_eq!(m.index_register(), 0);
    assert_eq!(m.delay_timer(), 0);
    assert_eq!(m.sound_timer(), 0);
    assert_eq!(m.stack_depth(), 0);
    for n in 0u8..16 {
        assert_eq!(m.reg(VariableRegister::from_nibble(n)), 0);
    }
    for y in 0..32 {
        for x in 0..64 {
            assert!(!m.pixel(x, y));
        }
    }
}

#[test]
fn load_rom_copies_image_at_0x200() {
    let mut m = Machine::new();
    let rom = vec![0xDE, 0xAD, 0xBE, 0xEF];
    assert_eq!(m.load_rom(&rom), Ok(()));
    assert_eq!(m.mem_byte(0x200), 0xDE);
    assert_eq!(m.mem_byte(0x201), 0xAD);
    assert_eq!(m.mem_byte(0x202), 0xBE);
    assert_eq!(m.mem_byte(0x203), 0xEF);
    assert_eq!(m.mem_byte(0x204), 0);
}

#[test]
fn load_rom_accepts_largest_image_and_rejects_larger() {
    let mut m = Machine::new();
    let rom = vec![0x55; 3584];
    assert_eq!(m.load_rom(&rom), Ok(()));
    assert_eq!(m.mem_byte(0xFFF), 0x55);
    let mut m2 = Machine::new();
    let too_big = vec![0x55; 3585];
    assert_eq!(m2.load_rom(&too_big), Err(Chip8Error::OutOfBounds));
    assert_eq!(m2.mem_byte(0x200), 0);
}

#[test]
fn fetch_reads_big_endian_and_advances() {
    let mut m = Machine::new();
    m.write_mem(0x200, 0x12);
    m.write_mem(0x201, 0x34);
    assert_eq!(m.fetch(), Ok(0x1234));
    assert_eq!(m.pc(), 0x202);
}

#[test]
fn fetch_past_end_of_memory_fails() {
    let mut m = Machine::new();
    m.set_pc(4095);
    assert_eq!(m.fetch(), Err(Chip8Error::OutOfBounds));
    assert_eq!(m.pc(), 4095);
}

#[test]
fn tick_timers_counts_down_and_stops_at_zero() {
    let mut m = Machine::new();
    m.set_reg(V0, 2);
    assert_eq!(m.execute(Instruction::SetDelayTimer(V0)), Ok(()));
    m.set_reg(V0, 1);
    assert_eq!(m.execute(Instruction::SetSoundTimer(V0)), Ok(()));
    m.tick_timers();
    assert_eq!(m.delay_timer(), 1);
    assert_eq!(m.sound_timer(), 0);
    m.tick_timers();
    assert_eq!(m.delay_timer(), 0);
    assert_eq!(m.sound_timer(), 0);
    m.tick_timers();
    assert_eq!(m.delay_timer(), 0);
    assert_eq!(m.sound_timer(), 0);
}

#[test]
fn draw_renders_glyph_row_and_reports_no_collision() {
    let mut m = Machine::new();
    // glyph 0 row one is 0xF0: four lit pixels then four dark
    m.set_index(0);
    let ins = Instruction::Display { x: V0, y: V1, n: 1 };
    assert_eq!(m.execute(ins), Ok(()));
    for x in 0..4 {
        assert!(m.pixel(x, 0));
    }
    for x in 4..9 {
        assert!(!m.pixel(x, 0));
    }
    assert_eq!(m.reg(VF), 0);
}

#[test]
fn draw_same_sprite_twice_restores_display() {
    let mut m = Machine::new();
    m.set_index(0);
    let ins = Instruction::Display { x: V0, y: V1, n: 5 };
    assert_eq!(m.execute(ins), Ok(()));
    assert!(m.pixel(0, 0));
    assert_eq!(m.reg(VF), 0);
    assert_eq!(m.execute(ins), Ok(()));
    // the second draw collides everywhere the first one lit a pixel
    assert_eq!(m.reg(VF), 1);
    for y in 0..32 {
        for x in 0..64 {
            assert!(!m.pixel(x, y));
        }
    }
}

#[test]
fn draw_clips_at_right_and_bottom_edges() {
    let mut m = Machine::new();
    m.write_mem(0x300, 0xFF);
    m.write_mem(0x301, 0xFF);
    m.write_mem(0x302, 0xFF);
    m.set_index(0x300);
    m.set_reg(V0, 62);
    m.set_reg(V1, 30);
    let ins = Instruction::Display { x: V0, y: V1, n: 3 };
    assert_eq!(m.execute(ins), Ok(()));
    // the two rightmost columns of the two bottom rows are lit
    assert!(m.pixel(62, 30));
    assert!(m.pixel(63, 30));
    assert!(m.pixel(62, 31));
    assert!(m.pixel(63, 31));
    // nothing wrapped to the left column or the top row
    for y in 0..32 {
        assert!(!m.pixel(0, y));
        assert!(!m.pixel(1, y));
    }
    for x in 0..64 {
        assert!(!m.pixel(x, 0));
    }
    assert_eq!(m.reg(VF), 0);
}

#[test]
fn draw_wraps_start_coordinates_into_grid() {
    let mut m = Machine::new();
    m.write_mem(0x300, 0x80);
    m.set_index(0x300);
    // 66 & 63 == 2, 33 & 31 == 1
    m.set_reg(V0, 66);
    m.set_reg(V1, 33);
    let ins = Instruction::Display { x: V0, y: V1, n: 1 };
    assert_eq!(m.execute(ins), Ok(()));
    assert!(m.pixel(2, 1));
}

#[test]
fn draw_with_sprite_rows_past_memory_end_fails() {
    let mut m = Machine::new();
    m.set_index(4095);
    let ins = Instruction::Display { x: V0, y: V1, n: 2 };
    assert_eq!(m.execute(ins), Err(Chip8Error::OutOfBounds));
    assert_eq!(m.reg(VF), 0);
}

#[test]
fn step_runs_clear_and_jump_loop_forever() {
    // a program of 00E0 (clear) then 1200 (jump back to the start)
    let mut m = Machine::new();
    let rom = vec![0x00, 0xE0, 0x12, 0x00];
    assert_eq!(m.load_rom(&rom), Ok(()));
    for _ in 0..10 {
        assert_eq!(m.step(), Ok(()));
        assert_eq!(m.step(), Ok(()));
        // after clear and jump the counter is back at the start
        assert_eq!(m.pc(), 0x200);
    }
    for y in 0..32 {
        for x in 0..64 {
            assert!(!m.pixel(x, y));
        }
    }
}

#[test]
fn step_set_register_immediate() {
    // opcode 6A3C: VA becomes 0x3C and the counter moves one instruction on
    let mut m = Machine::new();
    let rom = vec![0x6A, 0x3C];
    assert_eq!(m.load_rom(&rom), Ok(()));
    assert_eq!(m.step(), Ok(()));
    assert_eq!(m.reg(VariableRegister::VA), 0x3C);
    assert_eq!(m.pc(), 0x202);
}

#[test]
fn step_reports_unknown_opcode() {
    let mut m = Machine::new();
    let rom = vec![0x5A, 0xB1];
    assert_eq!(m.load_rom(&rom), Ok(()));
    assert_eq!(m.step(), Err(Chip8Error::UnknownOpcode(0x5AB1)));
}

#[test]
fn step_key_wait_blocks_then_captures_key() {
    // F10A: wait for a key, store its code in V1
    let mut m = Machine::new();
    let rom = vec![0xF1, 0x0A];
    assert_eq!(m.load_rom(&rom), Ok(()));
    for _ in 0..3 {
        assert_eq!(m.step(), Ok(()));
        // no key pressed: no net movement of the counter per cycle
        assert_eq!(m.pc(), 0x200);
        assert_eq!(m.reg(V1), 0);
    }
    m.set_key(7, true);
    assert_eq!(m.step(), Ok(()));
    assert_eq!(m.pc(), 0x202);
    assert_eq!(m.reg(V1), 7);
}
