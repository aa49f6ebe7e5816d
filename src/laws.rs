use vstd::prelude::*;
use crate::error::Chip8Error;
use crate::model::{
    cell,
    collides,
    covers,
    draw,
    family_of,
    fetch,
    first_key_down,
    first_key_from,
    font,
    holds_font,
    initial,
    kk_of,
    lemma_cell_offset,
    rom_fits,
    step,
    wrap16,
    writes_cell,
    x_of,
    Machine,
    FONTSET_SIZE,
    FONTSET_START_ADDR,
    MEM_SIZE,
    PIXEL_ON,
    ROM_START_ADDR,
    STACK_SIZE,
};

verus! {

/// A ROM image that fits is loaded unchanged at the load address, on top of the font.
pub proof fn rom_loaded_verbatim(rom: Seq<u8>)
    requires
        rom_fits(rom),
    ensures
        initial(rom).wf(),
        initial(rom).memory.subrange(ROM_START_ADDR as int, ROM_START_ADDR + rom.len()) == rom,
        holds_font(initial(rom).memory),
{
    let mem = initial(rom).memory;
    assert(mem.subrange(ROM_START_ADDR as int, ROM_START_ADDR + rom.len()) =~= rom);
    assert(mem.subrange(FONTSET_START_ADDR as int, FONTSET_START_ADDR + FONTSET_SIZE) =~= font());
}

/// One cycle changes no memory cell but those its instruction stores into.
pub proof fn cycle_writes_only_its_cells(m: Machine, random: u8, a: int)
    requires
        m.wf(),
        0 <= a < MEM_SIZE,
        !writes_cell(m.fetched(), a),
    ensures
        step(m, random).1.memory.len() == MEM_SIZE,
        step(m, random).1.memory[a] == m.memory[a],
{
    let s = m.fetched();
    if family_of(s.opcode) == 0xF && kk_of(s.opcode) == 0x33 {
        lemma_cell_offset(a, s.index as int, 0);
        lemma_cell_offset(a, s.index as int, 1);
        lemma_cell_offset(a, s.index as int, 2);
    }
}

/// The font stays in place through every cycle whose instruction stores
/// nothing into the font's cells.
pub proof fn cycle_keeps_font(m: Machine, random: u8)
    requires
        m.wf(),
        holds_font(m.memory),
        forall|a: int|
            FONTSET_START_ADDR <= a < FONTSET_START_ADDR + FONTSET_SIZE ==> !writes_cell(
                m.fetched(),
                a,
            ),
    ensures
        holds_font(step(m, random).1.memory),
{
    let after = step(m, random).1.memory;
    assert forall|a: int| FONTSET_START_ADDR <= a < FONTSET_START_ADDR + FONTSET_SIZE implies after[a]
        == m.memory[a] by {
        cycle_writes_only_its_cells(m, random, a);
    }
    assert(after.subrange(FONTSET_START_ADDR as int, FONTSET_START_ADDR + FONTSET_SIZE)
        =~= m.memory.subrange(FONTSET_START_ADDR as int, FONTSET_START_ADDR + FONTSET_SIZE));
}

/// Every cycle keeps the machine well formed.
pub proof fn cycle_keeps_wf(m: Machine, random: u8)
    requires
        m.wf(),
    ensures
        step(m, random).1.wf(),
{
}

/// 6XKK followed by FX29 with the same X points I at the glyph of digit KK,
/// 5 bytes per glyph from the font's start.
pub proof fn digit_to_glyph(m: Machine, random: u8, x: int, kk: int)
    requires
        m.wf(),
        0 <= x < 16,
        0 <= kk < 256,
        fetch(m.memory, m.pc) == 0x6000 + x * 256 + kk,
        fetch(m.memory, wrap16(m.pc + 2)) == 0xF029 + x * 256,
    ensures
        step(m, random).0 is Ok,
        step(step(m, random).1, random).0 is Ok,
        step(step(m, random).1, random).1.index == FONTSET_START_ADDR + 5 * kk,
{
    let op = fetch(m.memory, m.pc);
    assert(x_of(op as u16) == x && kk_of(op as u16) == kk && family_of(op as u16) == 6);
    let m1 = step(m, random).1;
    assert(m1.memory == m.memory);
    assert(m1.pc == wrap16(m.pc + 2));
    let op2 = fetch(m1.memory, m1.pc);
    assert(x_of(op2) == x && kk_of(op2) == 0x29 && family_of(op2) == 0xF);
}

/// Drawing a sprite on a blank display collides with nothing; drawing it again
/// at the same place blanks the display and collides exactly when the sprite
/// has a set pixel.
pub proof fn draw_twice_erases(display: Seq<u8>, sprite: Seq<u8>, ox: int, oy: int)
    requires
        forall|p: int| 0 <= p < display.len() ==> display[p] == 0,
    ensures
        !collides(display, sprite, ox, oy),
        draw(draw(display, sprite, ox, oy), sprite, ox, oy) == display,
        collides(draw(display, sprite, ox, oy), sprite, ox, oy) == exists|p: int|
            0 <= p < display.len() && covers(sprite, ox, oy, p),
{
    let once = draw(display, sprite, ox, oy);
    assert forall|p: int| 0 <= p < display.len() && covers(sprite, ox, oy, p) implies once[p]
        == PIXEL_ON && once[p] ^ PIXEL_ON == 0 by {
        assert(0u8 ^ 0xFFu8 == 0xFFu8) by (bit_vector);
        assert(0xFFu8 ^ 0xFFu8 == 0u8) by (bit_vector);
    }
    assert(draw(once, sprite, ox, oy) =~= display);
    if exists|p: int| 0 <= p < display.len() && covers(sprite, ox, oy, p) {
        let p = choose|p: int| 0 <= p < display.len() && covers(sprite, ox, oy, p);
        assert(once[p] == PIXEL_ON);
    }
}

/// A call pushes the return address while the stack has room, and overflows
/// once it holds sixteen addresses.
pub proof fn call_fills_stack(m: Machine, random: u8)
    requires
        m.wf(),
        family_of(fetch(m.memory, m.pc)) == 0x2,
    ensures
        m.stack_ptr < STACK_SIZE ==> step(m, random).0 is Ok && step(m, random).1.stack_ptr
            == m.stack_ptr + 1 && step(m, random).1.stack[m.stack_ptr as int] == wrap16(m.pc + 2),
        m.stack_ptr == STACK_SIZE ==> step(m, random).0 == Err::<(), Chip8Error>(
            Chip8Error::StackOverflow,
        ),
{
}

/// A return with an empty stack underflows.
pub proof fn return_on_empty_stack(m: Machine, random: u8)
    requires
        m.wf(),
        m.stack_ptr == 0,
        family_of(fetch(m.memory, m.pc)) == 0x0,
        kk_of(fetch(m.memory, m.pc)) == 0xEE,
    ensures
        step(m, random).0 == Err::<(), Chip8Error>(Chip8Error::StackUnderflow),
{
}

/// FX0A with no key down leaves `pc` on itself, so the same instruction runs
/// again; with a key down, VX gets the lowest such key and `pc` moves on.
pub proof fn wait_for_key(m: Machine, random: u8)
    requires
        m.wf(),
        family_of(fetch(m.memory, m.pc)) == 0xF,
        kk_of(fetch(m.memory, m.pc)) == 0x0A,
    ensures
        step(m, random).0 is Ok,
        first_key_down(m.keypad) is None ==> step(m, random).1.pc == m.pc
            && step(m, random).1.registers == m.registers && step(m, random).1.memory
            == m.memory && step(m, random).1.keypad == m.keypad,
        first_key_down(m.keypad) is Some ==> step(m, random).1.pc == wrap16(m.pc + 2)
            && step(m, random).1.registers[x_of(fetch(m.memory, m.pc))]
            == first_key_down(m.keypad)->Some_0,
{
}

/// The lowest key down is `k` when `k` is down and every key below it is up.
pub proof fn lowest_key_down(keys: Seq<bool>, k: int)
    requires
        0 <= k < 16,
        keys[k],
        forall|j: int| 0 <= j < k ==> !keys[j],
    ensures
        first_key_down(keys) == Some(k as u8),
{
    lemma_first_key_from(keys, 0, k);
}

proof fn lemma_first_key_from(keys: Seq<bool>, i: int, k: int)
    requires
        0 <= i <= k < 16,
        keys[k],
        forall|j: int| 0 <= j < k ==> !keys[j],
    ensures
        first_key_from(keys, i) == Some(k as u8),
    decreases k - i,
{
    if i < k {
        lemma_first_key_from(keys, i + 1, k);
    }
}

} // verus!
