use vstd::prelude::*;

verus! {

/// The fatal conditions of the machine. None of them is recovered from
/// internally: each ends the emulation of the ROM that caused it.
#[derive(Debug, Clone, Copy, PartialEq, Eq, Structural)]
pub enum Chip8Error {
    /// The ROM image does not fit between the load address and the end of memory.
    RomTooLarge { len: usize },
    /// The fetched instruction matches no handler of its family.
    IllegalOpcode { opcode: u16, address: u16 },
    /// A call was made while the call stack already held sixteen return addresses.
    StackOverflow,
    /// A return was made while the call stack was empty.
    StackUnderflow,
}

} // verus!
