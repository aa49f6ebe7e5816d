use chip8::chip8::Core;
use chip8::error::Chip8Error;
use chip8::processor::Processor;

const FONT: [u8; 80] = [
    0xF0, 0x90, 0x90, 0x90, 0xF0, 0x20, 0x60, 0x20, 0x20, 0x70, 0xF0, 0x10, 0xF0, 0x80, 0xF0,
    0xF0, 0x10, 0xF0, 0x10, 0xF0, 0x90, 0x90, 0xF0, 0x10, 0x10, 0xF0, 0x80, 0xF0, 0x10, 0xF0,
    0xF0, 0x80, 0xF0, 0x90, 0xF0, 0xF0, 0x10, 0x20, 0x40, 0x40, 0xF0, 0x90, 0xF0, 0x90, 0xF0,
    0xF0, 0x90, 0xF0, 0x10, 0xF0, 0xF0, 0x90, 0xF0, 0x90, 0x90, 0xE0, 0x90, 0xE0, 0x90, 0xE0,
    0xF0, 0x80, 0x80, 0x80, 0xF0, 0xE0, 0x90, 0x90, 0x90, 0xE0, 0xF0, 0x80, 0xF0, 0x80, 0xF0,
    0xF0, 0x80, 0xF0, 0x80, 0x80,
];

fn rom_of(words: &[u16]) -> Vec<u8> {
    let mut bytes = Vec::new();
    for w in words {
        bytes.push((w >> 8) as u8);
        bytes.push((w & 0xFF) as u8);
    }
    bytes
}

fn machine(words: &[u16]) -> Processor {
    Processor::new(&rom_of(words)).unwrap()
}

fn run(p: &mut Processor, cycles: usize) {
    for _ in 0..cycles {
        p.cycle().unwrap();
    }
}

#[test]
fn new_machine_start_state() {
    let p = Processor::new(&[0x12, 0x34]).unwrap();
    assert_eq!(p.pc, 0x200);
    assert_eq!(p.index, 0);
    assert_eq!(p.stack_ptr, 0);
    assert_eq!(p.delay_timer, 0);
    assert_eq!(p.sound_timer, 0);
    assert_eq!(p.registers, [0u8; 16]);
    assert_eq!(p.keypad, [false; 16]);
    assert!(p.display.iter().all(|&b| b == 0));
    assert_eq!(&p.memory[0x050..0x0A0], &FONT[..]);
    assert_eq!(p.memory[0x200], 0x12);
    assert_eq!(p.memory[0x201], 0x34);
    assert!(p.memory[0x202..].iter().all(|&b| b == 0));
    assert!(p.memory[..0x050].iter().all(|&b| b == 0));
}

#[test]
fn largest_rom_loads_verbatim() {
    let rom: Vec<u8> = (0..3584u32).map(|i| (i * 7 % 251) as u8).collect();
    let p = Processor::new(&rom).unwrap();
    assert_eq!(&p.memory[0x200..0x1000], &rom[..]);
    assert_eq!(&p.memory[0x050..0x0A0], &FONT[..]);
}

#[test]
fn empty_rom_loads() {
    let p = Processor::new(&[]).unwrap();
    assert!(p.memory[0x200..].iter().all(|&b| b == 0));
}

#[test]
fn oversized_rom_is_refused() {
    let rom = vec![0xAAu8; 3585];
    assert_eq!(
        Processor::new(&rom).err(),
        Some(Chip8Error::RomTooLarge { len: 3585 })
    );
    assert!(matches!(Core::new(&rom), Err(Chip8Error::RomTooLarge { len: 3585 })));
}

#[test]
fn load_rom_refusal_leaves_memory_alone() {
    let mut p = machine(&[0x6001]);
    let before = p.memory;
    assert_eq!(
        p.load_rom(&vec![1u8; 4000]),
        Err(Chip8Error::RomTooLarge { len: 4000 })
    );
    assert_eq!(p.memory, before);
    assert_eq!(p.init(&vec![1u8; 3600]), Err(Chip8Error::RomTooLarge { len: 3600 }));
    assert_eq!(p.memory, before);
}

#[test]
fn core_holds_loaded_processor() {
    let core = Core::new(&[0xA0, 0x50]).unwrap();
    assert_eq!(core.processor.pc, 0x200);
    assert_eq!(core.processor.memory[0x200], 0xA0);
    assert_eq!(&core.processor.memory[0x050..0x0A0], &FONT[..]);
}

#[test]
fn font_survives_a_program() {
    let mut p = machine(&[0x6005, 0xA300, 0xF033, 0xF555, 0x00E0, 0x1208]);
    run(&mut p, 10);
    assert_eq!(&p.memory[0x050..0x0A0], &FONT[..]);
}

#[test]
fn digit_zero_glyph_address() {
    let mut p = machine(&[0x6300, 0xF329]);
    run(&mut p, 2);
    assert_eq!(p.index, 0x050);
}

#[test]
fn digit_f_glyph_address() {
    let mut p = machine(&[0x6A0F, 0xFA29]);
    run(&mut p, 2);
    assert_eq!(p.index, 0x050 + 5 * 0xF);
    assert_eq!(p.index, 0x09B);
}

#[test]
fn add_with_carry_wraps() {
    let mut p = machine(&[0x61FF, 0x6201, 0x8124]);
    run(&mut p, 3);
    assert_eq!(p.registers[1], 0x00);
    assert_eq!(p.registers[0xF], 1);
}

#[test]
fn add_without_carry() {
    let mut p = machine(&[0x6110, 0x6220, 0x6F07, 0x8124]);
    run(&mut p, 4);
    assert_eq!(p.registers[1], 0x30);
    assert_eq!(p.registers[0xF], 0);
}

#[test]
fn subtract_with_borrow() {
    let mut p = machine(&[0x6101, 0x6202, 0x8125]);
    run(&mut p, 3);
    assert_eq!(p.registers[1], 0xFF);
    assert_eq!(p.registers[0xF], 0);
}

#[test]
fn subtract_without_borrow() {
    let mut p = machine(&[0x6105, 0x6202, 0x8125]);
    run(&mut p, 3);
    assert_eq!(p.registers[1], 0x03);
    assert_eq!(p.registers[0xF], 1);
}

#[test]
fn reverse_subtract() {
    let mut p = machine(&[0x6105, 0x6202, 0x8127, 0x6302, 0x6405, 0x8347]);
    run(&mut p, 3);
    assert_eq!(p.registers[1], 0xFD);
    assert_eq!(p.registers[0xF], 0);
    run(&mut p, 3);
    assert_eq!(p.registers[3], 0x03);
    assert_eq!(p.registers[0xF], 1);
}

#[test]
fn shifts_set_flag_from_lost_bit() {
    let mut p = machine(&[0x6105, 0x8106, 0x6281, 0x820E]);
    run(&mut p, 2);
    assert_eq!(p.registers[1], 0x02);
    assert_eq!(p.registers[0xF], 1);
    run(&mut p, 2);
    assert_eq!(p.registers[2], 0x02);
    assert_eq!(p.registers[0xF], 1);
}

#[test]
fn logic_ops() {
    let mut p = machine(&[0x61F0, 0x623C, 0x8310, 0x8321, 0x6AF0, 0x8A22, 0x6BF0, 0x8B23]);
    run(&mut p, 8);
    assert_eq!(p.registers[3], 0xFC);
    assert_eq!(p.registers[0xA], 0x30);
    assert_eq!(p.registers[0xB], 0xCC);
}

#[test]
fn add_immediate_wraps_without_flag() {
    let mut p = machine(&[0x61FE, 0x7103]);
    run(&mut p, 2);
    assert_eq!(p.registers[1], 0x01);
    assert_eq!(p.registers[0xF], 0);
}

#[test]
fn skips() {
    // 3XKK taken, 4XKK not taken, 5XY0 taken, 9XY0 not taken.
    let mut p = machine(&[0x6107, 0x3107, 0x0000, 0x4107, 0x6207, 0x5120, 0x0000, 0x9120]);
    run(&mut p, 2);
    assert_eq!(p.pc, 0x206);
    run(&mut p, 3);
    assert_eq!(p.pc, 0x20E);
    run(&mut p, 1);
    assert_eq!(p.pc, 0x210);
}

#[test]
fn jumps() {
    let mut p = machine(&[0x1208]);
    run(&mut p, 1);
    assert_eq!(p.pc, 0x208);
    let mut q = machine(&[0x6004, 0xB300]);
    run(&mut q, 2);
    assert_eq!(q.pc, 0x304);
}

#[test]
fn call_and_return() {
    let mut p = machine(&[0x2206, 0x0000, 0x0000, 0x00EE]);
    run(&mut p, 1);
    assert_eq!(p.pc, 0x206);
    assert_eq!(p.stack_ptr, 1);
    assert_eq!(p.stack[0], 0x202);
    run(&mut p, 1);
    assert_eq!(p.pc, 0x202);
    assert_eq!(p.stack_ptr, 0);
}

#[test]
fn sixteen_calls_fill_stack_then_overflow() {
    // Each call lands on the next instruction, itself a call.
    let words: Vec<u16> = (0..17u16).map(|i| 0x2000 | (0x202 + 2 * i)).collect();
    let mut p = machine(&words);
    run(&mut p, 16);
    assert_eq!(p.stack_ptr, 16);
    assert_eq!(p.stack[15], 0x220);
    assert_eq!(p.cycle(), Err(Chip8Error::StackOverflow));
    assert_eq!(p.stack_ptr, 16);
}

#[test]
fn return_on_empty_stack_underflows() {
    let mut p = machine(&[0x00EE]);
    assert_eq!(p.cycle(), Err(Chip8Error::StackUnderflow));
}

#[test]
fn draw_twice_erases_and_collides() {
    let mut p = machine(&[0x6003, 0x6105, 0xA050, 0xD015, 0xD015]);
    run(&mut p, 4);
    assert_eq!(p.registers[0xF], 0);
    assert!(p.display.iter().any(|&b| b == 0xFF));
    run(&mut p, 1);
    assert_eq!(p.registers[0xF], 1);
    assert!(p.display.iter().all(|&b| b == 0));
}

#[test]
fn draw_wraps_around_edges() {
    // A one-row sprite 0xFF drawn at (60, 31) covers columns 60..63 and 0..3 of row 31.
    let mut p = machine(&[0x603C, 0x611F, 0xA20A, 0xD011, 0x1208, 0xFF00]);
    run(&mut p, 4);
    let row = 31 * 64;
    for x in 0..64 {
        let lit = x >= 60 || x < 4;
        assert_eq!(p.display[row + x] == 0xFF, lit, "column {}", x);
    }
    assert_eq!(p.display.iter().filter(|&&b| b == 0xFF).count(), 8);
}

fn assert_glyph_zero_at(p: &Processor, ox: usize, oy: usize) {
    let glyph = [0xF0u8, 0x90, 0x90, 0x90, 0xF0];
    for y in 0..32 {
        for x in 0..64 {
            let lit = y >= oy
                && y < oy + 5
                && x >= ox
                && x < ox + 8
                && (glyph[y - oy] >> (7 - (x - ox))) & 1 == 1;
            assert_eq!(p.display[y * 64 + x] == 0xFF, lit, "pixel ({}, {})", x, y);
        }
    }
}

#[test]
fn draw_glyph_zero_one_column_right() {
    // D015 reads its origin from (V0, V1) = (1, 0).
    let mut p = machine(&[0x6001, 0xA050, 0xD015]);
    run(&mut p, 3);
    assert_eq!(p.registers[0xF], 0);
    assert_glyph_zero_at(&p, 1, 0);
}

#[test]
fn draw_glyph_zero_with_both_coordinates_from_v0() {
    // D005 reads both coordinates from V0, so the origin is (1, 1).
    let mut p = machine(&[0x6001, 0xA050, 0xD005]);
    run(&mut p, 3);
    assert_eq!(p.registers[0xF], 0);
    assert_glyph_zero_at(&p, 1, 1);
}

#[test]
fn clear_screen() {
    let mut p = machine(&[0xA050, 0xD005, 0x00E0]);
    run(&mut p, 2);
    assert!(p.display.iter().any(|&b| b == 0xFF));
    run(&mut p, 1);
    assert!(p.display.iter().all(|&b| b == 0));
}

#[test]
fn wait_for_key_loops_until_pressed() {
    let mut p = machine(&[0xF50A, 0x0000]);
    for _ in 0..5 {
        p.cycle().unwrap();
        assert_eq!(p.pc, 0x200);
    }
    p.keypad[3] = true;
    p.keypad[9] = true;
    p.cycle().unwrap();
    assert_eq!(p.registers[5], 3);
    assert_eq!(p.pc, 0x202);
}

#[test]
fn key_skips() {
    let mut p = machine(&[0x6207, 0xE29E, 0x0000, 0xE2A1, 0x0000]);
    p.keypad[7] = true;
    run(&mut p, 2);
    assert_eq!(p.pc, 0x206);
    run(&mut p, 1);
    assert_eq!(p.pc, 0x208);
    let mut q = machine(&[0x6207, 0xE29E, 0x0000, 0xE2A1, 0x0000]);
    run(&mut q, 2);
    assert_eq!(q.pc, 0x204);
    run(&mut q, 2);
    assert_eq!(q.pc, 0x20A);
}

#[test]
fn timers_count_down_and_stop() {
    let mut p = machine(&[0x6003, 0xF015, 0xF018, 0xF107, 0x0000, 0x0000, 0x0000, 0xF207]);
    run(&mut p, 3);
    // Set in the second and third cycles, each ticked once after its instruction.
    assert_eq!(p.delay_timer, 1);
    assert_eq!(p.sound_timer, 2);
    run(&mut p, 1);
    assert_eq!(p.registers[1], 1);
    run(&mut p, 4);
    assert_eq!(p.delay_timer, 0);
    assert_eq!(p.sound_timer, 0);
    assert_eq!(p.registers[2], 0);
}

#[test]
fn index_add() {
    let mut p = machine(&[0xAFFF, 0x6102, 0xF11E]);
    run(&mut p, 3);
    assert_eq!(p.index, 0x1001);
}

#[test]
fn decimal_digits() {
    let mut p = machine(&[0x60EA, 0xA300, 0xF033]);
    run(&mut p, 3);
    assert_eq!(&p.memory[0x300..0x303], &[2, 3, 4]);
    assert_eq!(p.registers[0], 234);
}

#[test]
fn store_and_load_registers() {
    let mut p = machine(&[0x6011, 0x6122, 0x6233, 0x6344, 0xA300, 0xF255, 0x6000, 0x6100, 0x6200, 0x6300, 0xF265]);
    run(&mut p, 6);
    assert_eq!(&p.memory[0x300..0x304], &[0x11, 0x22, 0x33, 0x00]);
    run(&mut p, 5);
    assert_eq!(&p.registers[0..4], &[0x11, 0x22, 0x33, 0x00]);
}

#[test]
fn store_wraps_around_memory() {
    let mut p = machine(&[0x6011, 0x6122, 0xAFFF, 0xF155]);
    run(&mut p, 4);
    assert_eq!(p.memory[0xFFF], 0x11);
    assert_eq!(p.memory[0x000], 0x22);
}

#[test]
fn random_byte_only_touches_its_register() {
    let mut p = machine(&[0x6155, 0xC3FF, 0xC30F]);
    run(&mut p, 3);
    assert_eq!(p.registers[1], 0x55);
    assert_eq!(p.pc, 0x206);
    for r in [0usize, 2, 4, 15] {
        assert_eq!(p.registers[r], 0);
    }
}

#[test]
fn illegal_opcodes_are_reported() {
    for (word, opcode) in [(0x0123u16, 0x0123u16), (0x800F, 0x800F), (0xE1FF, 0xE1FF), (0xF0FF, 0xF0FF)] {
        let mut p = machine(&[0x0000, word]);
        run(&mut p, 1);
        assert_eq!(
            p.cycle(),
            Err(Chip8Error::IllegalOpcode { opcode, address: 0x202 })
        );
    }
}

#[test]
fn zero_word_is_a_no_op() {
    let mut p = machine(&[0x0000]);
    let before = p;
    run(&mut p, 1);
    assert_eq!(p.pc, 0x202);
    assert_eq!(p.registers, before.registers);
    assert_eq!(p.memory, before.memory);
}
