//! The simulator's aggregate state: program counter, register file and
//! memory.

use vstd::prelude::*;
use crate::memory::Memory;
use crate::register_file::RegisterFile;

verus! {

/// Reference implementation of an MCU. Contains a PC, register file, and
/// memory.
#[derive(Clone)]
pub struct Mcu {
    pub pc: u32,
    pub mem: Memory,
    pub rf: RegisterFile,
}

impl Mcu {
    pub open spec fn wf(&self) -> bool {
        self.mem.wf() && self.rf.wf()
    }

    /// Construct an MCU with the provided memory size, which must be a
    /// positive multiple of 4. The PC starts at 0 and memory and registers
    /// hold zero.
    pub fn new(size: usize) -> (r: Mcu)
        requires
            size > 0,
            size % 4 == 0,
        ensures
            r.wf(),
            r.pc == 0,
            r.mem@ =~= Seq::new(size as nat, |i: int| 0u8),
            r.rf@ =~= Seq::new(32, |i: int| 0u32),
    {
        Mcu { pc: 0, mem: Memory::new(size), rf: RegisterFile::new() }
    }
}

} // verus!
