use vstd::prelude::*;
use crate::error::Chip8Error;

verus! {

/// Bytes of addressable memory.
pub const MEM_SIZE: usize = 4096;
/// Bytes of the built-in font: sixteen glyphs of five rows each.
pub const FONTSET_SIZE: usize = 80;
/// Where the font is placed in memory.
pub const FONTSET_START_ADDR: u16 = 0x050;
/// Where a ROM image is loaded, and where execution starts.
pub const ROM_START_ADDR: u16 = 0x200;
/// Largest ROM image that fits in memory.
pub const MAX_ROM_SIZE: usize = 3584;
/// Width of the display in pixels.
pub const DISPLAY_WIDTH: u16 = 64;
/// Height of the display in pixels.
pub const DISPLAY_HEIGHT: u16 = 32;
/// Number of pixels of the display, stored row by row.
pub const DISPLAY_SIZE: usize = 2048;
/// Number of return addresses the call stack can hold.
pub const STACK_SIZE: usize = 16;
/// Value of a lit pixel; an unlit pixel is 0.
pub const PIXEL_ON: u8 = 0xFF;

/// The glyphs of the hexadecimal digits 0 to F, five rows of four pixels each,
/// held in the high nibble of every byte.
pub open spec fn font() -> Seq<u8> {
    seq![
        0xF0u8, 0x90, 0x90, 0x90, 0xF0, 0x20, 0x60, 0x20, 0x20, 0x70,
        0xF0, 0x10, 0xF0, 0x80, 0xF0, 0xF0, 0x10, 0xF0, 0x10, 0xF0,
        0x90, 0x90, 0xF0, 0x10, 0x10, 0xF0, 0x80, 0xF0, 0x10, 0xF0,
        0xF0, 0x80, 0xF0, 0x90, 0xF0, 0xF0, 0x10, 0x20, 0x40, 0x40,
        0xF0, 0x90, 0xF0, 0x90, 0xF0, 0xF0, 0x90, 0xF0, 0x10, 0xF0,
        0xF0, 0x90, 0xF0, 0x90, 0x90, 0xE0, 0x90, 0xE0, 0x90, 0xE0,
        0xF0, 0x80, 0x80, 0x80, 0xF0, 0xE0, 0x90, 0x90, 0x90, 0xE0,
        0xF0, 0x80, 0xF0, 0x80, 0xF0, 0xF0, 0x80, 0xF0, 0x80, 0x80
    ]
}

/// Whether `memory` holds the font at its fixed place.
pub open spec fn holds_font(memory: Seq<u8>) -> bool {
    memory.len() == MEM_SIZE
        && memory.subrange(FONTSET_START_ADDR as int, FONTSET_START_ADDR + FONTSET_SIZE) == font()
}

/// The complete state of the machine, as plain mathematical values.
pub struct Machine {
    pub memory: Seq<u8>,
    pub registers: Seq<u8>,
    pub stack: Seq<u16>,
    pub keypad: Seq<bool>,
    pub display: Seq<u8>,
    pub pc: u16,
    pub index: u16,
    pub opcode: u16,
    pub stack_ptr: u8,
    pub delay_timer: u8,
    pub sound_timer: u8,
}

/// The register named by bits 8 to 11 of an instruction.
pub open spec fn x_of(op: u16) -> int {
    (op as int / 256) % 16
}

/// The register named by bits 4 to 7 of an instruction.
pub open spec fn y_of(op: u16) -> int {
    (op as int / 16) % 16
}

/// The low nibble of an instruction.
pub open spec fn n_of(op: u16) -> int {
    op as int % 16
}

/// The low byte of an instruction.
pub open spec fn kk_of(op: u16) -> u8 {
    (op as int % 256) as u8
}

/// The low twelve bits of an instruction.
pub open spec fn nnn_of(op: u16) -> u16 {
    (op as int % 4096) as u16
}

/// The high nibble of an instruction, which selects its family.
pub open spec fn family_of(op: u16) -> int {
    op as int / 4096
}

/// `v` reduced to sixteen bits.
pub open spec fn wrap16(v: int) -> u16 {
    (v % 0x10000) as u16
}

/// `v` reduced to eight bits.
pub open spec fn wrap8(v: int) -> u8 {
    (v % 0x100) as u8
}

/// The memory cell that an address names: addresses wrap around the 4 KiB space.
pub open spec fn cell(a: int) -> int {
    a % (MEM_SIZE as int)
}

/// Whether bit `7 - col` of a sprite row is set: column 0 is the leftmost pixel.
pub open spec fn sprite_bit(b: u8, col: int) -> bool {
    (b >> ((7 - col) as u8)) & 1u8 == 1u8
}

/// The sprite row of pixel `p` when a sprite is drawn with its top-left corner at `(ox, oy)`.
pub open spec fn sprite_row(oy: int, p: int) -> int {
    (p / (DISPLAY_WIDTH as int) - oy) % (DISPLAY_HEIGHT as int)
}

/// The sprite column of pixel `p` when a sprite is drawn with its top-left corner at `(ox, oy)`.
pub open spec fn sprite_col(ox: int, p: int) -> int {
    (p % (DISPLAY_WIDTH as int) - ox) % (DISPLAY_WIDTH as int)
}

/// Whether drawing `sprite` at `(ox, oy)` toggles pixel `p`. Coordinates wrap
/// around both edges of the display.
pub open spec fn covers(sprite: Seq<u8>, ox: int, oy: int, p: int) -> bool {
    let row = sprite_row(oy, p);
    let col = sprite_col(ox, p);
    row < sprite.len() && col < 8 && sprite_bit(sprite[row], col)
}

/// The display after XOR-drawing `sprite` at `(ox, oy)`.
pub open spec fn draw(display: Seq<u8>, sprite: Seq<u8>, ox: int, oy: int) -> Seq<u8> {
    Seq::new(
        display.len(),
        |p: int|
            if covers(sprite, ox, oy, p) {
                display[p] ^ PIXEL_ON
            } else {
                display[p]
            },
    )
}

/// Whether drawing `sprite` at `(ox, oy)` turns off a lit pixel.
pub open spec fn collides(display: Seq<u8>, sprite: Seq<u8>, ox: int, oy: int) -> bool {
    exists|p: int| 0 <= p < display.len() && covers(sprite, ox, oy, p) && display[p] == PIXEL_ON
}

/// The `n` sprite rows stored from address `start` on.
pub open spec fn sprite_at(memory: Seq<u8>, start: u16, n: int) -> Seq<u8> {
    Seq::new(n as nat, |r: int| memory[cell(start + r)])
}

/// The lowest key at or above `k` that is down.
pub open spec fn first_key_from(keys: Seq<bool>, k: int) -> Option<u8>
    decreases 16 - k,
{
    if k >= 16 || k < 0 {
        None
    } else if keys[k] {
        Some(k as u8)
    } else {
        first_key_from(keys, k + 1)
    }
}

/// The lowest key that is down.
pub open spec fn first_key_down(keys: Seq<bool>) -> Option<u8> {
    first_key_from(keys, 0)
}

/// The instruction stored at `pc` and the byte after it, most significant byte first.
pub open spec fn fetch(memory: Seq<u8>, pc: u16) -> u16 {
    (memory[cell(pc as int)] as int * 256 + memory[cell(pc + 1)] as int) as u16
}

/// `memory` with the font written at its fixed place.
pub open spec fn with_font(memory: Seq<u8>) -> Seq<u8> {
    Seq::new(
        memory.len(),
        |a: int|
            if FONTSET_START_ADDR <= a < FONTSET_START_ADDR + FONTSET_SIZE {
                font()[a - FONTSET_START_ADDR]
            } else {
                memory[a]
            },
    )
}

/// `memory` with `rom` written from the load address on.
pub open spec fn with_rom(memory: Seq<u8>, rom: Seq<u8>) -> Seq<u8> {
    Seq::new(
        memory.len(),
        |a: int|
            if ROM_START_ADDR <= a < ROM_START_ADDR + rom.len() {
                rom[a - ROM_START_ADDR]
            } else {
                memory[a]
            },
    )
}

/// Whether `rom` fits between the load address and the end of memory.
pub open spec fn rom_fits(rom: Seq<u8>) -> bool {
    rom.len() <= MAX_ROM_SIZE
}

/// The state a ROM image starts in: zeroed memory holding the font and the ROM,
/// `pc` at the load address, everything else zero, every key up.
pub open spec fn initial(rom: Seq<u8>) -> Machine {
    Machine {
        memory: with_rom(with_font(Seq::new(MEM_SIZE as nat, |a: int| 0u8)), rom),
        registers: Seq::new(16, |r: int| 0u8),
        stack: Seq::new(STACK_SIZE as nat, |r: int| 0u16),
        keypad: Seq::new(16, |k: int| false),
        display: Seq::new(DISPLAY_SIZE as nat, |p: int| 0u8),
        pc: ROM_START_ADDR,
        index: 0,
        opcode: 0,
        stack_ptr: 0,
        delay_timer: 0,
        sound_timer: 0,
    }
}

/// Whether the instruction in `s.opcode` stores into memory cell `a`: FX33
/// writes three cells from I on, FX55 writes X + 1 cells from I on.
pub open spec fn writes_cell(s: Machine, a: int) -> bool {
    family_of(s.opcode) == 0xF && ((kk_of(s.opcode) == 0x33 && cell(a - s.index) < 3) || (
    kk_of(s.opcode) == 0x55 && cell(a - s.index) <= s.x()))
}

impl Machine {
    /// The shape every reachable state has.
    pub open spec fn wf(self) -> bool {
        &&& self.memory.len() == MEM_SIZE
        &&& self.registers.len() == 16
        &&& self.stack.len() == STACK_SIZE
        &&& self.keypad.len() == 16
        &&& self.display.len() == DISPLAY_SIZE
        &&& self.stack_ptr <= STACK_SIZE
    }

    pub open spec fn x(self) -> int {
        x_of(self.opcode)
    }

    pub open spec fn y(self) -> int {
        y_of(self.opcode)
    }

    pub open spec fn vx(self) -> u8 {
        self.registers[self.x()]
    }

    pub open spec fn vy(self) -> u8 {
        self.registers[self.y()]
    }

    pub open spec fn set_reg(self, r: int, v: u8) -> Machine {
        Machine { registers: self.registers.update(r, v), ..self }
    }

    /// Steps over the next instruction when `c` holds.
    pub open spec fn skip_if(self, c: bool) -> Machine {
        if c {
            Machine { pc: wrap16(self.pc + 2), ..self }
        } else {
            self
        }
    }

    /// The state after the instruction at `pc` has been fetched: `opcode` holds it
    /// and `pc` has moved past it.
    pub open spec fn fetched(self) -> Machine {
        Machine { opcode: fetch(self.memory, self.pc), pc: wrap16(self.pc + 2), ..self }
    }

    /// Both timers count down by one, stopping at zero.
    pub open spec fn tick(self) -> Machine {
        Machine {
            delay_timer: if self.delay_timer > 0 { (self.delay_timer - 1) as u8 } else { 0 },
            sound_timer: if self.sound_timer > 0 { (self.sound_timer - 1) as u8 } else { 0 },
            ..self
        }
    }
}

/// 00E0: every pixel off.
pub open spec fn exec_00e0(s: Machine) -> Machine {
    Machine { display: Seq::new(DISPLAY_SIZE as nat, |p: int| 0u8), ..s }
}

/// 00EE: return to the address on top of the call stack.
pub open spec fn exec_00ee(s: Machine) -> Result<Machine, Chip8Error> {
    if s.stack_ptr == 0 {
        Err(Chip8Error::StackUnderflow)
    } else {
        Ok(
            Machine {
                stack_ptr: (s.stack_ptr - 1) as u8,
                pc: s.stack[s.stack_ptr - 1],
                ..s
            },
        )
    }
}

/// 1NNN: jump to NNN.
pub open spec fn exec_1nnn(s: Machine) -> Machine {
    Machine { pc: nnn_of(s.opcode), ..s }
}

/// 2NNN: push the return address and jump to NNN.
pub open spec fn exec_2nnn(s: Machine) -> Result<Machine, Chip8Error> {
    if s.stack_ptr >= STACK_SIZE {
        Err(Chip8Error::StackOverflow)
    } else {
        Ok(
            Machine {
                stack: s.stack.update(s.stack_ptr as int, s.pc),
                stack_ptr: (s.stack_ptr + 1) as u8,
                pc: nnn_of(s.opcode),
                ..s
            },
        )
    }
}

/// 3XKK: skip when VX equals KK.
pub open spec fn exec_3xkk(s: Machine) -> Machine {
    s.skip_if(s.vx() == kk_of(s.opcode))
}

/// 4XKK: skip when VX differs from KK.
pub open spec fn exec_4xkk(s: Machine) -> Machine {
    s.skip_if(s.vx() != kk_of(s.opcode))
}

/// 5XY0: skip when VX equals VY.
pub open spec fn exec_5xy0(s: Machine) -> Machine {
    s.skip_if(s.vx() == s.vy())
}

/// 9XY0: skip when VX differs from VY.
pub open spec fn exec_9xy0(s: Machine) -> Machine {
    s.skip_if(s.vx() != s.vy())
}

/// 6XKK: VX = KK.
pub open spec fn exec_6xkk(s: Machine) -> Machine {
    s.set_reg(s.x(), kk_of(s.opcode))
}

/// 7XKK: VX = VX + KK on eight bits; VF is left alone.
pub open spec fn exec_7xkk(s: Machine) -> Machine {
    s.set_reg(s.x(), wrap8(s.vx() + kk_of(s.opcode)))
}

/// 8XY0: VX = VY.
pub open spec fn exec_8xy0(s: Machine) -> Machine {
    s.set_reg(s.x(), s.vy())
}

/// 8XY1: VX = VX | VY.
pub open spec fn exec_8xy1(s: Machine) -> Machine {
    s.set_reg(s.x(), s.vx() | s.vy())
}

/// 8XY2: VX = VX & VY.
pub open spec fn exec_8xy2(s: Machine) -> Machine {
    s.set_reg(s.x(), s.vx() & s.vy())
}

/// 8XY3: VX = VX ^ VY.
pub open spec fn exec_8xy3(s: Machine) -> Machine {
    s.set_reg(s.x(), s.vx() ^ s.vy())
}

/// 8XY4: VF = carry of VX + VY, then VX = the sum on eight bits.
pub open spec fn exec_8xy4(s: Machine) -> Machine {
    let sum = s.vx() + s.vy();
    s.set_reg(15, if sum > 255 { 1 } else { 0 }).set_reg(s.x(), wrap8(sum))
}

/// 8XY5: VF = 1 when VX > VY, else 0; then VX = VX - VY on eight bits.
pub open spec fn exec_8xy5(s: Machine) -> Machine {
    let t = s.set_reg(15, if s.vx() > s.vy() { 1 } else { 0 });
    t.set_reg(s.x(), wrap8(t.vx() - t.vy()))
}

/// 8XY7: VF = 1 when VY > VX, else 0; then VX = VY - VX on eight bits.
pub open spec fn exec_8xy7(s: Machine) -> Machine {
    let t = s.set_reg(15, if s.vy() > s.vx() { 1 } else { 0 });
    t.set_reg(s.x(), wrap8(t.vy() - t.vx()))
}

/// 8XY6: VF = low bit of VX; then VX is shifted right by one.
pub open spec fn exec_8xy6(s: Machine) -> Machine {
    let t = s.set_reg(15, (s.vx() % 2) as u8);
    t.set_reg(s.x(), (t.vx() / 2) as u8)
}

/// 8XYE: VF = high bit of VX; then VX is shifted left by one on eight bits.
pub open spec fn exec_8xye(s: Machine) -> Machine {
    let t = s.set_reg(15, (s.vx() / 128) as u8);
    t.set_reg(s.x(), wrap8(t.vx() * 2))
}

/// ANNN: I = NNN.
pub open spec fn exec_annn(s: Machine) -> Machine {
    Machine { index: nnn_of(s.opcode), ..s }
}

/// BNNN: jump to V0 + NNN.
pub open spec fn exec_bnnn(s: Machine) -> Machine {
    Machine { pc: (s.registers[0] + nnn_of(s.opcode)) as u16, ..s }
}

/// CXKK: VX = a random byte (KK is not applied as a mask).
pub open spec fn exec_cxkk(s: Machine, random: u8) -> Machine {
    s.set_reg(s.x(), random)
}

/// The rows of the sprite that DXYN draws.
pub open spec fn dxyn_sprite(s: Machine) -> Seq<u8> {
    sprite_at(s.memory, s.index, n_of(s.opcode))
}

/// DXYN: XOR-draw N rows from memory at I with the top-left corner at
/// (VX mod 64, VY mod 32); VF = 1 when a lit pixel was turned off, else 0.
pub open spec fn exec_dxyn(s: Machine) -> Machine {
    let sprite = dxyn_sprite(s);
    let ox = s.vx() as int % (DISPLAY_WIDTH as int);
    let oy = s.vy() as int % (DISPLAY_HEIGHT as int);
    Machine {
        display: draw(s.display, sprite, ox, oy),
        ..s.set_reg(15, if collides(s.display, sprite, ox, oy) { 1 } else { 0 })
    }
}

/// The key that EX9E and EXA1 test: only the low nibble of VX names a key.
pub open spec fn key_of(v: u8) -> int {
    v as int % 16
}

/// EX9E: skip when key VX is down.
pub open spec fn exec_ex9e(s: Machine) -> Machine {
    s.skip_if(s.keypad[key_of(s.vx())])
}

/// EXA1: skip when key VX is up.
pub open spec fn exec_exa1(s: Machine) -> Machine {
    s.skip_if(!s.keypad[key_of(s.vx())])
}

/// FX07: VX = delay timer.
pub open spec fn exec_fx07(s: Machine) -> Machine {
    s.set_reg(s.x(), s.delay_timer)
}

/// FX0A: VX = the lowest key that is down; with none down, `pc` goes back so
/// that the same instruction runs again.
pub open spec fn exec_fx0a(s: Machine) -> Machine {
    match first_key_down(s.keypad) {
        Some(k) => s.set_reg(s.x(), k),
        None => Machine { pc: wrap16(s.pc - 2), ..s },
    }
}

/// FX15: delay timer = VX.
pub open spec fn exec_fx15(s: Machine) -> Machine {
    Machine { delay_timer: s.vx(), ..s }
}

/// FX18: sound timer = VX.
pub open spec fn exec_fx18(s: Machine) -> Machine {
    Machine { sound_timer: s.vx(), ..s }
}

/// FX1E: I = I + VX on sixteen bits.
pub open spec fn exec_fx1e(s: Machine) -> Machine {
    Machine { index: wrap16(s.index + s.vx()), ..s }
}

/// FX29: I = address of the glyph of digit VX.
pub open spec fn exec_fx29(s: Machine) -> Machine {
    Machine { index: (FONTSET_START_ADDR + 5 * s.vx()) as u16, ..s }
}

/// FX33: the hundreds, tens and ones of VX at I, I + 1 and I + 2.
pub open spec fn exec_fx33(s: Machine) -> Machine {
    let v = s.vx();
    Machine {
        memory: s.memory.update(cell(s.index + 2), (v % 10) as u8).update(
            cell(s.index + 1),
            ((v / 10) % 10) as u8,
        ).update(cell(s.index as int), (v / 100) as u8),
        ..s
    }
}

/// FX55: V0 to VX stored at I onwards.
pub open spec fn exec_fx55(s: Machine) -> Machine {
    Machine {
        memory: Seq::new(
            s.memory.len(),
            |a: int|
                if cell(a - s.index) <= s.x() {
                    s.registers[cell(a - s.index)]
                } else {
                    s.memory[a]
                },
        ),
        ..s
    }
}

/// FX65: V0 to VX loaded from I onwards.
pub open spec fn exec_fx65(s: Machine) -> Machine {
    Machine {
        registers: Seq::new(
            s.registers.len(),
            |r: int|
                if r <= s.x() {
                    s.memory[cell(s.index + r)]
                } else {
                    s.registers[r]
                },
        ),
        ..s
    }
}

/// The effect of the instruction in `s.opcode`, fetched from `address`, on a
/// state whose `pc` has already moved past it.
pub open spec fn execute(s: Machine, random: u8, address: u16) -> Result<Machine, Chip8Error> {
    let op = s.opcode;
    let f = family_of(op);
    let kk = kk_of(op);
    let n = n_of(op);
    let illegal = Err(Chip8Error::IllegalOpcode { opcode: op, address });
    if f == 0x0 {
        if kk == 0xE0 {
            Ok(exec_00e0(s))
        } else if kk == 0xEE {
            exec_00ee(s)
        } else if kk == 0x00 {
            Ok(s)
        } else {
            illegal
        }
    } else if f == 0x1 {
        Ok(exec_1nnn(s))
    } else if f == 0x2 {
        exec_2nnn(s)
    } else if f == 0x3 {
        Ok(exec_3xkk(s))
    } else if f == 0x4 {
        Ok(exec_4xkk(s))
    } else if f == 0x5 {
        Ok(exec_5xy0(s))
    } else if f == 0x6 {
        Ok(exec_6xkk(s))
    } else if f == 0x7 {
        Ok(exec_7xkk(s))
    } else if f == 0x8 {
        if n == 0x0 {
            Ok(exec_8xy0(s))
        } else if n == 0x1 {
            Ok(exec_8xy1(s))
        } else if n == 0x2 {
            Ok(exec_8xy2(s))
        } else if n == 0x3 {
            Ok(exec_8xy3(s))
        } else if n == 0x4 {
            Ok(exec_8xy4(s))
        } else if n == 0x5 {
            Ok(exec_8xy5(s))
        } else if n == 0x6 {
            Ok(exec_8xy6(s))
        } else if n == 0x7 {
            Ok(exec_8xy7(s))
        } else if n == 0xE {
            Ok(exec_8xye(s))
        } else {
            illegal
        }
    } else if f == 0x9 {
        Ok(exec_9xy0(s))
    } else if f == 0xA {
        Ok(exec_annn(s))
    } else if f == 0xB {
        Ok(exec_bnnn(s))
    } else if f == 0xC {
        Ok(exec_cxkk(s, random))
    } else if f == 0xD {
        Ok(exec_dxyn(s))
    } else if f == 0xE {
        if kk == 0x9E {
            Ok(exec_ex9e(s))
        } else if kk == 0xA1 {
            Ok(exec_exa1(s))
        } else {
            illegal
        }
    } else if kk == 0x07 {
        Ok(exec_fx07(s))
    } else if kk == 0x0A {
        Ok(exec_fx0a(s))
    } else if kk == 0x15 {
        Ok(exec_fx15(s))
    } else if kk == 0x18 {
        Ok(exec_fx18(s))
    } else if kk == 0x1E {
        Ok(exec_fx1e(s))
    } else if kk == 0x29 {
        Ok(exec_fx29(s))
    } else if kk == 0x33 {
        Ok(exec_fx33(s))
    } else if kk == 0x55 {
        Ok(exec_fx55(s))
    } else if kk == 0x65 {
        Ok(exec_fx65(s))
    } else {
        illegal
    }
}

/// One cycle: fetch, execute, then tick both timers. `random` is the byte that
/// CXKK would draw. A failed instruction leaves the state as it was right after
/// the fetch, and the timers do not tick.
pub open spec fn step(m: Machine, random: u8) -> (Result<(), Chip8Error>, Machine) {
    let s = m.fetched();
    match execute(s, random, m.pc) {
        Ok(t) => (Ok(()), t.tick()),
        Err(e) => (Err(e), s),
    }
}

/// An address `i` cells past `base` is the one whose distance from `base` is `i`.
pub proof fn lemma_cell_offset(a: int, base: int, i: int)
    requires
        0 <= a < 4096,
        0 <= base,
        0 <= i < 4096,
    ensures
        (cell(a - base) == i) <==> (a == cell(base + i)),
{
    let b = base % 4096;
    let k = base / 4096;
    assert(base == k * 4096 + b);
    assert(cell(a - base) == cell(a - b)) by {
        vstd::arithmetic::div_mod::lemma_mod_sub_multiples_vanish(a - b, 4096);
        vstd::arithmetic::div_mod::lemma_mod_multiples_vanish(-k, a - b, 4096);
    }
    assert(cell(base + i) == cell(b + i)) by {
        vstd::arithmetic::div_mod::lemma_mod_multiples_vanish(k, b + i, 4096);
    }
}

} // verus!
