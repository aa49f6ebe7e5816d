use vstd::prelude::*;
use rand::Rng;
use crate::error::Chip8Error;
use crate::model::{
    lemma_cell_offset,
    execute,
    font,
    with_font,
    with_rom,
    rom_fits,
    initial,
    step,
    FONTSET_SIZE,
    MAX_ROM_SIZE,
    ROM_START_ADDR,
    sprite_bit,
    MEM_SIZE,
    STACK_SIZE,
    DISPLAY_SIZE,
    FONTSET_START_ADDR,
    Machine,
    kk_of,
    nnn_of,
    first_key_down,
    first_key_from,
    exec_00e0,
    exec_00ee,
    exec_1nnn,
    exec_2nnn,
    exec_3xkk,
    exec_4xkk,
    exec_5xy0,
    exec_9xy0,
    exec_6xkk,
    exec_7xkk,
    exec_8xy0,
    exec_8xy1,
    exec_8xy2,
    exec_8xy3,
    exec_8xy4,
    exec_8xy5,
    exec_8xy7,
    exec_8xy6,
    exec_8xye,
    exec_annn,
    exec_bnnn,
    exec_cxkk,
    exec_ex9e,
    exec_exa1,
    exec_fx07,
    exec_fx0a,
    exec_fx15,
    exec_fx18,
    exec_fx1e,
    exec_fx29,
    exec_fx33,
    exec_fx55,
    exec_fx65,
    exec_dxyn,
    dxyn_sprite,
    cell,
    covers,
    draw,
    collides,
    sprite_row,
    sprite_col,
    n_of,
    PIXEL_ON,
};

verus! {

/// Relies on rand's `thread_rng` and `Rng::gen_range` over the inclusive range
/// 0..=255, which is never empty: any byte may come back.
#[verifier::external_body]
fn random_byte() -> (r: u8) {
    rand::thread_rng().gen_range(u8::MIN..=u8::MAX)
}

/// The machine: memory, registers, call stack, keypad snapshot, framebuffer and
/// timers. A driver sets `keypad` and reads `display` and `sound_timer` between
/// cycles.
#[derive(Clone, Copy)]
pub struct Processor {
    pub memory: [u8; MEM_SIZE],
    pub registers: [u8; 16],
    pub stack: [u16; STACK_SIZE],
    pub keypad: [bool; 16],
    pub display: [u8; DISPLAY_SIZE],
    pub pc: u16,
    pub index: u16,
    pub opcode: u16,
    pub stack_ptr: u8,
    pub delay_timer: u8,
    pub sound_timer: u8,
}

impl View for Processor {
    type V = Machine;

    open spec fn view(&self) -> Machine {
        Machine {
            memory: self.memory@,
            registers: self.registers@,
            stack: self.stack@,
            keypad: self.keypad@,
            display: self.display@,
            pc: self.pc,
            index: self.index,
            opcode: self.opcode,
            stack_ptr: self.stack_ptr,
            delay_timer: self.delay_timer,
            sound_timer: self.sound_timer,
        }
    }
}

/// The order in which DXYN visits pixel `p`: row by row, left to right.
spec fn rank(ox: int, oy: int, p: int) -> int {
    sprite_row(oy, p) * 8 + sprite_col(ox, p)
}

spec fn covered_before(sprite: Seq<u8>, ox: int, oy: int, p: int, k: int) -> bool {
    covers(sprite, ox, oy, p) && rank(ox, oy, p) < k
}

/// The display once the first `k` sprite pixels have been drawn.
spec fn drawn_upto(display: Seq<u8>, sprite: Seq<u8>, ox: int, oy: int, k: int) -> Seq<u8> {
    Seq::new(
        display.len(),
        |p: int|
            if covered_before(sprite, ox, oy, p, k) {
                display[p] ^ PIXEL_ON
            } else {
                display[p]
            },
    )
}

/// Whether one of the first `k` sprite pixels met a lit pixel.
spec fn collides_upto(display: Seq<u8>, sprite: Seq<u8>, ox: int, oy: int, k: int) -> bool {
    exists|p: int|
        0 <= p < display.len() && covered_before(sprite, ox, oy, p, k) && display[p] == PIXEL_ON
}

/// The pixel that sprite cell `(row, col)` lands on is the only pixel that maps back to it.
proof fn lemma_pixel_position(ox: int, oy: int, row: int, col: int, p: int)
    requires
        0 <= ox < 64,
        0 <= oy < 32,
        0 <= row < 16,
        0 <= col < 8,
        0 <= p < 2048,
    ensures
        (sprite_row(oy, p) == row && sprite_col(ox, p) == col) <==> p == ((oy + row) % 32) * 64
            + (ox + col) % 64,
{
    let py = p / 64;
    let px = p % 64;
    assert(p == py * 64 + px);
    assert(0 <= py < 32);
    let qy = (oy + row) % 32;
    let qx = (ox + col) % 64;
    assert(qy == if oy + row < 32 { oy + row } else { oy + row - 32 });
    assert(qx == if ox + col < 64 { ox + col } else { ox + col - 64 });
    assert(sprite_row(oy, p) == if py >= oy { py - oy } else { py - oy + 32 });
    assert(sprite_col(ox, p) == if px >= ox { px - ox } else { px - ox + 64 });
    if p == qy * 64 + qx {
        assert(py == qy && px == qx) by (nonlinear_arith)
            requires p == py * 64 + px, p == qy * 64 + qx, 0 <= px < 64, 0 <= qx < 64;
    }
    if py == qy && px == qx {
        assert(p == qy * 64 + qx);
    }
}

impl Processor {
    fn x_index(&self) -> (r: usize)
        ensures
            r == self@.x(),
            r < 16,
    {
        ((self.opcode / 256) % 16) as usize
    }

    fn y_index(&self) -> (r: usize)
        ensures
            r == self@.y(),
            r < 16,
    {
        ((self.opcode / 16) % 16) as usize
    }

    fn byte(&self) -> (r: u8)
        ensures
            r == kk_of(self.opcode),
    {
        (self.opcode % 256) as u8
    }

    fn address(&self) -> (r: u16)
        ensures
            r == nnn_of(self.opcode),
    {
        self.opcode % 4096
    }

    fn skip_next(&mut self)
        ensures
            final(self)@ == old(self)@.skip_if(true),
    {
        self.pc = ((self.pc as u32 + 2) % 0x10000) as u16;
    }

    /// 00E0: clears the framebuffer.
    pub fn op_00e0(&mut self)
        ensures
            final(self)@ == exec_00e0(old(self)@),
    {
        self.display = [0u8; DISPLAY_SIZE];
        assert(self.display@ =~= exec_00e0(old(self)@).display);
    }

    /// 00EE: returns from a subroutine.
    pub fn op_00ee(&mut self) -> (r: Result<(), Chip8Error>)
        requires
            old(self)@.wf(),
        ensures
            match exec_00ee(old(self)@) {
                Ok(m) => r == Ok::<(), Chip8Error>(()) && final(self)@ == m,
                Err(e) => r == Err::<(), Chip8Error>(e) && final(self)@ == old(self)@,
            },
    {
        if self.stack_ptr == 0 {
            return Err(Chip8Error::StackUnderflow);
        }
        self.stack_ptr -= 1;
        self.pc = self.stack[self.stack_ptr as usize];
        Ok(())
    }

    /// 1NNN: jumps to NNN.
    pub fn op_1nnn(&mut self)
        ensures
            final(self)@ == exec_1nnn(old(self)@),
    {
        self.pc = self.address();
    }

    /// 2NNN: calls the subroutine at NNN.
    pub fn op_2nnn(&mut self) -> (r: Result<(), Chip8Error>)
        requires
            old(self)@.wf(),
        ensures
            match exec_2nnn(old(self)@) {
                Ok(m) => r == Ok::<(), Chip8Error>(()) && final(self)@ == m,
                Err(e) => r == Err::<(), Chip8Error>(e) && final(self)@ == old(self)@,
            },
    {
        if self.stack_ptr as usize >= STACK_SIZE {
            return Err(Chip8Error::StackOverflow);
        }
        let address = self.address();
        self.stack[self.stack_ptr as usize] = self.pc;
        self.stack_ptr += 1;
        self.pc = address;
        Ok(())
    }

    /// 3XKK: skips the next instruction when VX equals KK.
    pub fn op_3xkk(&mut self)
        ensures
            final(self)@ == exec_3xkk(old(self)@),
    {
        let vx = self.registers[self.x_index()];
        if vx == self.byte() {
            self.skip_next();
        }
    }

    /// 4XKK: skips the next instruction when VX differs from KK.
    pub fn op_4xkk(&mut self)
        ensures
            final(self)@ == exec_4xkk(old(self)@),
    {
        let vx = self.registers[self.x_index()];
        if vx != self.byte() {
            self.skip_next();
        }
    }

    /// 5XY0: skips the next instruction when VX equals VY.
    pub fn op_5xy0(&mut self)
        ensures
            final(self)@ == exec_5xy0(old(self)@),
    {
        let vx = self.registers[self.x_index()];
        let vy = self.registers[self.y_index()];
        if vx == vy {
            self.skip_next();
        }
    }

    /// 9XY0: skips the next instruction when VX differs from VY.
    pub fn op_9xy0(&mut self)
        ensures
            final(self)@ == exec_9xy0(old(self)@),
    {
        let vx = self.registers[self.x_index()];
        let vy = self.registers[self.y_index()];
        if vx != vy {
            self.skip_next();
        }
    }

    /// 6XKK: VX = KK.
    pub fn op_6xkk(&mut self)
        ensures
            final(self)@ == exec_6xkk(old(self)@),
    {
        let x = self.x_index();
        self.registers[x] = self.byte();
    }

    /// 7XKK: VX = VX + KK, wrapping, with no flag.
    pub fn op_7xkk(&mut self)
        ensures
            final(self)@ == exec_7xkk(old(self)@),
    {
        let x = self.x_index();
        let byte = self.byte();
        self.registers[x] = ((self.registers[x] as u16 + byte as u16) % 256) as u8;
    }

    /// 8XY0: VX = VY.
    pub fn op_8xy0(&mut self)
        ensures
            final(self)@ == exec_8xy0(old(self)@),
    {
        let x = self.x_index();
        let y = self.y_index();
        self.registers[x] = self.registers[y];
    }

    /// 8XY1: VX = VX | VY.
    pub fn op_8xy1(&mut self)
        ensures
            final(self)@ == exec_8xy1(old(self)@),
    {
        let x = self.x_index();
        let y = self.y_index();
        self.registers[x] = self.registers[x] | self.registers[y];
    }

    /// 8XY2: VX = VX & VY.
    pub fn op_8xy2(&mut self)
        ensures
            final(self)@ == exec_8xy2(old(self)@),
    {
        let x = self.x_index();
        let y = self.y_index();
        self.registers[x] = self.registers[x] & self.registers[y];
    }

    /// 8XY3: VX = VX ^ VY.
    pub fn op_8xy3(&mut self)
        ensures
            final(self)@ == exec_8xy3(old(self)@),
    {
        let x = self.x_index();
        let y = self.y_index();
        self.registers[x] = self.registers[x] ^ self.registers[y];
    }

    /// 8XY4: VX = VX + VY, wrapping; VF = 1 on carry, else 0.
    pub fn op_8xy4(&mut self)
        ensures
            final(self)@ == exec_8xy4(old(self)@),
    {
        let x = self.x_index();
        let y = self.y_index();
        let sum = self.registers[x] as u16 + self.registers[y] as u16;
        if sum > 255 {
            self.registers[15] = 1;
        } else {
            self.registers[15] = 0;
        }
        self.registers[x] = (sum % 256) as u8;
    }

    /// 8XY5: VF = 1 when VX > VY, else 0; then VX = VX - VY, wrapping.
    pub fn op_8xy5(&mut self)
        ensures
            final(self)@ == exec_8xy5(old(self)@),
    {
        let x = self.x_index();
        let y = self.y_index();
        if self.registers[x] > self.registers[y] {
            self.registers[15] = 1;
        } else {
            self.registers[15] = 0;
        }
        self.registers[x] = ((256 + self.registers[x] as u16 - self.registers[y] as u16)
            % 256) as u8;
    }

    /// 8XY7: VF = 1 when VY > VX, else 0; then VX = VY - VX, wrapping.
    pub fn op_8xy7(&mut self)
        ensures
            final(self)@ == exec_8xy7(old(self)@),
    {
        let x = self.x_index();
        let y = self.y_index();
        if self.registers[y] > self.registers[x] {
            self.registers[15] = 1;
        } else {
            self.registers[15] = 0;
        }
        self.registers[x] = ((256 + self.registers[y] as u16 - self.registers[x] as u16)
            % 256) as u8;
    }

    /// 8XY6: VF = low bit of VX; then VX is shifted right by one.
    pub fn op_8xy6(&mut self)
        ensures
            final(self)@ == exec_8xy6(old(self)@),
    {
        let x = self.x_index();
        self.registers[15] = self.registers[x] % 2;
        self.registers[x] = self.registers[x] / 2;
    }

    /// 8XYE: VF = high bit of VX; then VX is shifted left by one, wrapping.
    pub fn op_8xye(&mut self)
        ensures
            final(self)@ == exec_8xye(old(self)@),
    {
        let x = self.x_index();
        self.registers[15] = self.registers[x] / 128;
        self.registers[x] = ((self.registers[x] as u16 * 2) % 256) as u8;
    }

    /// ANNN: I = NNN.
    pub fn op_annn(&mut self)
        ensures
            final(self)@ == exec_annn(old(self)@),
    {
        self.index = self.address();
    }

    /// BNNN: jumps to V0 + NNN.
    pub fn op_bnnn(&mut self)
        ensures
            final(self)@ == exec_bnnn(old(self)@),
    {
        self.pc = self.registers[0] as u16 + self.address();
    }

    /// CXKK: VX = a random byte, whichever the generator gave.
    pub fn op_cxkk(&mut self)
        ensures
            final(self)@ == exec_cxkk(old(self)@, final(self)@.vx()),
    {
        let x = self.x_index();
        self.registers[x] = random_byte();
    }

    /// EX9E: skips the next instruction when key VX is down.
    pub fn op_ex9e(&mut self)
        ensures
            final(self)@ == exec_ex9e(old(self)@),
    {
        let key = self.registers[self.x_index()] % 16;
        if self.keypad[key as usize] {
            self.skip_next();
        }
    }

    /// EXA1: skips the next instruction when key VX is up.
    pub fn op_exa1(&mut self)
        ensures
            final(self)@ == exec_exa1(old(self)@),
    {
        let key = self.registers[self.x_index()] % 16;
        if !self.keypad[key as usize] {
            self.skip_next();
        }
    }

    /// FX07: VX = delay timer.
    pub fn op_fx07(&mut self)
        ensures
            final(self)@ == exec_fx07(old(self)@),
    {
        let x = self.x_index();
        self.registers[x] = self.delay_timer;
    }

    /// FX0A: VX = the lowest key that is down; with none down the instruction
    /// runs again next cycle.
    pub fn op_fx0a(&mut self)
        ensures
            final(self)@ == exec_fx0a(old(self)@),
    {
        let x = self.x_index();
        let mut i: u8 = 0;
        while i < 16
            invariant
                0 <= i <= 16,
                x == self@.x(),
                *self == *old(self),
                forall|j: int| 0 <= j < i ==> !self.keypad@[j],
                first_key_down(self.keypad@) == first_key_from(self.keypad@, i as int),
            decreases 16 - i,
        {
            if self.keypad[i as usize] {
                self.registers[x] = i;
                return;
            }
            i += 1;
        }
        self.pc = ((self.pc as u32 + 0x10000 - 2) % 0x10000) as u16;
    }

    /// FX15: delay timer = VX.
    pub fn op_fx15(&mut self)
        ensures
            final(self)@ == exec_fx15(old(self)@),
    {
        self.delay_timer = self.registers[self.x_index()];
    }

    /// FX18: sound timer = VX.
    pub fn op_fx18(&mut self)
        ensures
            final(self)@ == exec_fx18(old(self)@),
    {
        self.sound_timer = self.registers[self.x_index()];
    }

    /// FX1E: I = I + VX on sixteen bits.
    pub fn op_fx1e(&mut self)
        ensures
            final(self)@ == exec_fx1e(old(self)@),
    {
        let vx = self.registers[self.x_index()];
        self.index = ((self.index as u32 + vx as u32) % 0x10000) as u16;
    }

    /// FX29: I = address of the font glyph of digit VX.
    pub fn op_fx29(&mut self)
        ensures
            final(self)@ == exec_fx29(old(self)@),
    {
        let vx = self.registers[self.x_index()];
        self.index = FONTSET_START_ADDR + 5 * vx as u16;
    }

    /// FX33: stores the decimal digits of VX at I, I + 1 and I + 2.
    pub fn op_fx33(&mut self)
        ensures
            final(self)@ == exec_fx33(old(self)@),
    {
        let mut value = self.registers[self.x_index()];
        let base = self.index as usize;
        self.memory[(base + 2) % MEM_SIZE] = value % 10;
        value = value / 10;
        self.memory[(base + 1) % MEM_SIZE] = value % 10;
        value = value / 10;
        self.memory[base % MEM_SIZE] = value % 10;
    }
    /// FX55: stores V0 to VX in memory from I on.
    pub fn op_fx55(&mut self)
        ensures
            final(self)@ == exec_fx55(old(self)@),
    {
        let x = self.x_index();
        let base = self.index as usize;
        let mut memory = self.memory;
        let mut i: usize = 0;
        while i <= x
            invariant
                x == self@.x(),
                x < 16,
                i <= x + 1,
                base == self.index,
                forall|a: int|
                    0 <= a < MEM_SIZE ==> memory@[a] == if cell(a - base) < i {
                        self.registers@[cell(a - base)]
                    } else {
                        self.memory@[a]
                    },
            decreases x + 1 - i,
        {
            let target = (base + i) % MEM_SIZE;
            memory[target] = self.registers[i];
            assert forall|a: int| 0 <= a < MEM_SIZE implies memory@[a] == if cell(a - base) < i
                + 1 {
                self.registers@[cell(a - base)]
            } else {
                self.memory@[a]
            } by {
                lemma_cell_offset(a, base as int, i as int);
            }
            i += 1;
        }
        self.memory = memory;
        assert(self.memory@ =~= exec_fx55(old(self)@).memory);
    }

    /// FX65: loads V0 to VX from memory from I on.
    pub fn op_fx65(&mut self)
        ensures
            final(self)@ == exec_fx65(old(self)@),
    {
        let x = self.x_index();
        let base = self.index as usize;
        let mut registers = self.registers;
        let mut i: usize = 0;
        while i <= x
            invariant
                x == self@.x(),
                x < 16,
                i <= x + 1,
                base == self.index,
                forall|r: int|
                    0 <= r < 16 ==> registers@[r] == if r < i {
                        self.memory@[cell(base + r)]
                    } else {
                        self.registers@[r]
                    },
            decreases x + 1 - i,
        {
            registers[i] = self.memory[(base + i) % MEM_SIZE];
            i += 1;
        }
        self.registers = registers;
        assert(self.registers@ =~= exec_fx65(old(self)@).registers);
    }

    /// DXYN: XOR-draws an N-row sprite from memory at I with its top-left corner
    /// at (VX mod 64, VY mod 32), wrapping around the edges; VF = 1 when a lit
    /// pixel was turned off, else 0.
    pub fn op_dxyn(&mut self)
        ensures
            final(self)@ == exec_dxyn(old(self)@),
    {
        let x = self.x_index();
        let y = self.y_index();
        let height = (self.opcode % 16) as usize;
        let x_pos = (self.registers[x] % 64) as usize;
        let y_pos = (self.registers[y] % 32) as usize;
        let base = self.index as usize;
        let ghost sprite = dxyn_sprite(self@);
        let ghost old_display = self.display@;
        let mut display = self.display;
        let mut collision = false;
        let mut row: usize = 0;
        while row < height
            invariant
                height == n_of(self.opcode),
                height < 16,
                row <= height,
                x_pos < 64,
                y_pos < 32,
                base == self.index,
                sprite == dxyn_sprite(self@),
                old_display == self.display@,
                display@ == drawn_upto(old_display, sprite, x_pos as int, y_pos as int, row * 8),
                collision == collides_upto(old_display, sprite, x_pos as int, y_pos as int, row * 8),
            decreases height - row,
        {
            let sprite_byte = self.memory[(base + row) % MEM_SIZE];
            assert(sprite_byte == sprite[row as int]);
            let mut col: usize = 0;
            while col < 8
                invariant
                    row < height,
                    height < 16,
                    col <= 8,
                    x_pos < 64,
                    y_pos < 32,
                    sprite.len() == height,
                    sprite_byte == sprite[row as int],
                    old_display.len() == DISPLAY_SIZE,
                    display@ == drawn_upto(
                        old_display,
                        sprite,
                        x_pos as int,
                        y_pos as int,
                        row * 8 + col,
                    ),
                    collision == collides_upto(
                        old_display,
                        sprite,
                        x_pos as int,
                        y_pos as int,
                        row * 8 + col,
                    ),
                decreases 8 - col,
            {
                let target = ((y_pos + row) % 32) * 64 + (x_pos + col) % 64;
                let ghost k = row * 8 + col;
                let ghost ox = x_pos as int;
                let ghost oy = y_pos as int;
                assert forall|p: int| 0 <= p < DISPLAY_SIZE implies (covered_before(
                    sprite,
                    ox,
                    oy,
                    p,
                    k + 1,
                ) <==> (covered_before(sprite, ox, oy, p, k) || (p == target && sprite_bit(
                    sprite[row as int],
                    col as int,
                )))) && (p == target ==> !covered_before(sprite, ox, oy, p, k)) by {
                    lemma_pixel_position(ox, oy, row as int, col as int, p);
                }
                let lit = (sprite_byte >> (7 - col as u8)) & 1 == 1;
                assert(lit == sprite_bit(sprite[row as int], col as int));
                let ghost before = collision;
                if lit {
                    if display[target] == PIXEL_ON {
                        collision = true;
                    }
                    display[target] = display[target] ^ PIXEL_ON;
                }
                assert(display@ =~= drawn_upto(old_display, sprite, ox, oy, k + 1));
                proof {
                    if collision && !before {
                        assert(covered_before(sprite, ox, oy, target as int, k + 1));
                    }
                }
                col += 1;
            }
            row += 1;
        }
        let ghost ox = x_pos as int;
        let ghost oy = y_pos as int;
        assert forall|p: int| 0 <= p < DISPLAY_SIZE implies covered_before(
            sprite,
            ox,
            oy,
            p,
            height * 8,
        ) == covers(sprite, ox, oy, p) by {}
        assert(display@ =~= draw(old_display, sprite, ox, oy));
        assert(collision == collides(old_display, sprite, ox, oy));
        self.display = display;
        self.registers[15] = if collision {
            1
        } else {
            0
        };
    }
    /// The machine in its start state with `rom` loaded, or `RomTooLarge` when
    /// the image does not fit in memory.
    pub fn new(rom: &[u8]) -> (r: Result<Processor, Chip8Error>)
        ensures
            rom_fits(rom@) ==> r is Ok && r->Ok_0@ == initial(rom@),
            !rom_fits(rom@) ==> r == Err::<Processor, Chip8Error>(
                Chip8Error::RomTooLarge { len: rom.len() },
            ),
    {
        let mut processor = Processor {
            memory: [0u8; MEM_SIZE],
            registers: [0u8; 16],
            stack: [0u16; STACK_SIZE],
            keypad: [false; 16],
            display: [0u8; DISPLAY_SIZE],
            pc: ROM_START_ADDR,
            index: 0,
            opcode: 0,
            stack_ptr: 0,
            delay_timer: 0,
            sound_timer: 0,
        };
        let ghost blank = processor@;
        match processor.init(rom) {
            Ok(()) => {
                assert(processor.registers@ =~= initial(rom@).registers);
                assert(processor.stack@ =~= initial(rom@).stack);
                assert(processor.keypad@ =~= initial(rom@).keypad);
                assert(processor.display@ =~= initial(rom@).display);
                assert(blank.memory =~= Seq::new(MEM_SIZE as nat, |a: int| 0u8));
                Ok(processor)
            },
            Err(e) => Err(e),
        }
    }

    /// Writes the font at its fixed place and `rom` from the load address on.
    /// An image that does not fit is refused before anything is written.
    pub fn init(&mut self, rom: &[u8]) -> (r: Result<(), Chip8Error>)
        ensures
            rom_fits(rom@) ==> r is Ok && final(self)@ == (Machine {
                memory: with_rom(with_font(old(self)@.memory), rom@),
                ..old(self)@
            }),
            !rom_fits(rom@) ==> r == Err::<(), Chip8Error>(
                Chip8Error::RomTooLarge { len: rom.len() },
            ) && *final(self) == *old(self),
    {
        if rom.len() > MAX_ROM_SIZE {
            return Err(Chip8Error::RomTooLarge { len: rom.len() });
        }
        let fontset: [u8; FONTSET_SIZE] = [
            0xF0, 0x90, 0x90, 0x90, 0xF0, 0x20, 0x60, 0x20, 0x20, 0x70,
            0xF0, 0x10, 0xF0, 0x80, 0xF0, 0xF0, 0x10, 0xF0, 0x10, 0xF0,
            0x90, 0x90, 0xF0, 0x10, 0x10, 0xF0, 0x80, 0xF0, 0x10, 0xF0,
            0xF0, 0x80, 0xF0, 0x90, 0xF0, 0xF0, 0x10, 0x20, 0x40, 0x40,
            0xF0, 0x90, 0xF0, 0x90, 0xF0, 0xF0, 0x90, 0xF0, 0x10, 0xF0,
            0xF0, 0x90, 0xF0, 0x90, 0x90, 0xE0, 0x90, 0xE0, 0x90, 0xE0,
            0xF0, 0x80, 0x80, 0x80, 0xF0, 0xE0, 0x90, 0x90, 0x90, 0xE0,
            0xF0, 0x80, 0xF0, 0x80, 0xF0, 0xF0, 0x80, 0xF0, 0x80, 0x80,
        ];
        assert(fontset@ =~= font());
        let ghost start = self.memory@;
        let mut i: usize = 0;
        while i < FONTSET_SIZE
            invariant
                i <= FONTSET_SIZE,
                fontset@ == font(),
                self.memory@.len() == MEM_SIZE,
                *self == (Processor { memory: self.memory, ..*old(self) }),
                start == old(self).memory@,
                forall|a: int|
                    0 <= a < MEM_SIZE ==> self.memory@[a] == if FONTSET_START_ADDR <= a
                        < FONTSET_START_ADDR + i {
                        font()[a - FONTSET_START_ADDR]
                    } else {
                        start[a]
                    },
            decreases FONTSET_SIZE - i,
        {
            self.memory[FONTSET_START_ADDR as usize + i] = fontset[i];
            i += 1;
        }
        assert(self.memory@ =~= with_font(start));
        self.load_rom(rom)
    }

    /// Writes `rom` from the load address on, or refuses an image that does not
    /// fit in memory, leaving the machine as it was.
    pub fn load_rom(&mut self, rom: &[u8]) -> (r: Result<(), Chip8Error>)
        ensures
            rom_fits(rom@) ==> r is Ok && final(self)@ == (Machine {
                memory: with_rom(old(self)@.memory, rom@),
                ..old(self)@
            }),
            !rom_fits(rom@) ==> r == Err::<(), Chip8Error>(
                Chip8Error::RomTooLarge { len: rom.len() },
            ) && *final(self) == *old(self),
    {
        if rom.len() > MAX_ROM_SIZE {
            return Err(Chip8Error::RomTooLarge { len: rom.len() });
        }
        let ghost start = self.memory@;
        let mut i: usize = 0;
        while i < rom.len()
            invariant
                i <= rom.len(),
                rom.len() <= MAX_ROM_SIZE,
                self.memory@.len() == MEM_SIZE,
                *self == (Processor { memory: self.memory, ..*old(self) }),
                start == old(self).memory@,
                forall|a: int|
                    0 <= a < MEM_SIZE ==> self.memory@[a] == if ROM_START_ADDR <= a
                        < ROM_START_ADDR + i {
                        rom@[a - ROM_START_ADDR]
                    } else {
                        start[a]
                    },
            decreases rom.len() - i,
        {
            self.memory[ROM_START_ADDR as usize + i] = rom[i];
            i += 1;
        }
        assert(self.memory@ =~= with_rom(start, rom@));
        Ok(())
    }
    /// Counts both timers down by one, stopping at zero.
    fn tick_timers(&mut self)
        ensures
            final(self)@ == old(self)@.tick(),
    {
        if self.delay_timer > 0 {
            self.delay_timer -= 1;
        }
        if self.sound_timer > 0 {
            self.sound_timer -= 1;
        }
    }

    /// Runs one cycle: fetches the instruction at `pc`, moves `pc` past it,
    /// executes it, then ticks both timers. The result is the one `step` gives
    /// for the byte that a CXKK instruction drew; any byte may be drawn.
    pub fn cycle(&mut self) -> (r: Result<(), Chip8Error>)
        requires
            old(self)@.wf(),
        ensures
            final(self)@.wf(),
            exists|random: u8| step(old(self)@, random) == (r, final(self)@),
    {
        let address = self.pc;
        let high = self.memory[self.pc as usize % MEM_SIZE] as u16;
        let low = self.memory[(self.pc as usize + 1) % MEM_SIZE] as u16;
        self.opcode = high * 256 + low;
        self.pc = ((self.pc as u32 + 2) % 0x10000) as u16;
        let ghost fetched = self@;
        assert(fetched == old(self)@.fetched());
        let ghost mut random: u8 = 0;
        let opcode = self.opcode;
        let family = opcode / 4096;
        let byte = opcode % 256;
        let nibble = opcode % 16;
        let illegal = Err(Chip8Error::IllegalOpcode { opcode, address });
        let result = if family == 0x0 {
            if byte == 0xE0 {
                self.op_00e0();
                Ok(())
            } else if byte == 0xEE {
                self.op_00ee()
            } else if byte == 0x00 {
                Ok(())
            } else {
                illegal
            }
        } else if family == 0x1 {
            self.op_1nnn();
            Ok(())
        } else if family == 0x2 {
            self.op_2nnn()
        } else if family == 0x3 {
            self.op_3xkk();
            Ok(())
        } else if family == 0x4 {
            self.op_4xkk();
            Ok(())
        } else if family == 0x5 {
            self.op_5xy0();
            Ok(())
        } else if family == 0x6 {
            self.op_6xkk();
            Ok(())
        } else if family == 0x7 {
            self.op_7xkk();
            Ok(())
        } else if family == 0x8 {
            if nibble == 0x0 {
                self.op_8xy0();
                Ok(())
            } else if nibble == 0x1 {
                self.op_8xy1();
                Ok(())
            } else if nibble == 0x2 {
                self.op_8xy2();
                Ok(())
            } else if nibble == 0x3 {
                self.op_8xy3();
                Ok(())
            } else if nibble == 0x4 {
                self.op_8xy4();
                Ok(())
            } else if nibble == 0x5 {
                self.op_8xy5();
                Ok(())
            } else if nibble == 0x6 {
                self.op_8xy6();
                Ok(())
            } else if nibble == 0x7 {
                self.op_8xy7();
                Ok(())
            } else if nibble == 0xE {
                self.op_8xye();
                Ok(())
            } else {
                illegal
            }
        } else if family == 0x9 {
            self.op_9xy0();
            Ok(())
        } else if family == 0xA {
            self.op_annn();
            Ok(())
        } else if family == 0xB {
            self.op_bnnn();
            Ok(())
        } else if family == 0xC {
            self.op_cxkk();
            proof {
                random = self@.vx();
            }
            Ok(())
        } else if family == 0xD {
            self.op_dxyn();
            Ok(())
        } else if family == 0xE {
            if byte == 0x9E {
                self.op_ex9e();
                Ok(())
            } else if byte == 0xA1 {
                self.op_exa1();
                Ok(())
            } else {
                illegal
            }
        } else if byte == 0x07 {
            self.op_fx07();
            Ok(())
        } else if byte == 0x0A {
            self.op_fx0a();
            Ok(())
        } else if byte == 0x15 {
            self.op_fx15();
            Ok(())
        } else if byte == 0x18 {
            self.op_fx18();
            Ok(())
        } else if byte == 0x1E {
            self.op_fx1e();
            Ok(())
        } else if byte == 0x29 {
            self.op_fx29();
            Ok(())
        } else if byte == 0x33 {
            self.op_fx33();
            Ok(())
        } else if byte == 0x55 {
            self.op_fx55();
            Ok(())
        } else if byte == 0x65 {
            self.op_fx65();
            Ok(())
        } else {
            illegal
        };
        match result {
            Ok(()) => {
                assert(execute(fetched, random, address) == Ok::<Machine, Chip8Error>(self@));
                self.tick_timers();
                assert(step(old(self)@, random) == (Ok::<(), Chip8Error>(()), self@));
                Ok(())
            },
            Err(e) => {
                assert(execute(fetched, random, address) == Err::<Machine, Chip8Error>(e));
                assert(step(old(self)@, random) == (Err::<(), Chip8Error>(e), self@));
                Err(e)
            },
        }
    }
}

} // verus!
