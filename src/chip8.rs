use vstd::prelude::*;
use crate::error::Chip8Error;
use crate::model::{initial, rom_fits};
pub use crate::processor;
use crate::processor::Processor;

verus! {

/// A machine ready to run one ROM image.
pub struct Core {
    pub processor: Processor,
}

impl Core {
    /// A machine in its start state with `rom` loaded, or `RomTooLarge` when the
    /// image does not fit in memory.
    pub fn new(rom: &[u8]) -> (r: Result<Core, Chip8Error>)
        ensures
            rom_fits(rom@) ==> r is Ok && r->Ok_0.processor@ == initial(rom@),
            !rom_fits(rom@) ==> r == Err::<Core, Chip8Error>(
                Chip8Error::RomTooLarge { len: rom.len() },
            ),
    {
        match Processor::new(rom) {
            Ok(processor) => Ok(Core { processor }),
            Err(e) => Err(e),
        }
    }
}

} // verus!
