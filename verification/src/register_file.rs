//! The 32-entry register file. Slot 0 is wired to zero: reads of it return
//! zero and writes to it are silently discarded.

use vstd::prelude::*;
use crate::error::RiscvError;

verus! {

/// Heap allocated implementation of a register file. Viewed as a sequence of
/// 32 register values whose first entry is always zero.
#[derive(Clone)]
pub struct RegisterFile {
    registers: Vec<u32>,
}

impl View for RegisterFile {
    type V = Seq<u32>;

    closed spec fn view(&self) -> Seq<u32> {
        Seq::new(
            32,
            |i: int|
                if i == 0 {
                    0u32
                } else {
                    self.registers@[i - 1]
                },
        )
    }
}

impl RegisterFile {
    pub closed spec fn wf(&self) -> bool {
        self.registers@.len() == 31
    }

    /// A fresh register file holds zero in every register.
    pub fn new() -> (r: RegisterFile)
        ensures
            r.wf(),
            r@ =~= Seq::new(32, |i: int| 0u32),
    {
        let mut registers: Vec<u32> = Vec::new();
        let mut i: usize = 0;
        while i < 31
            invariant
                i <= 31,
                registers@.len() == i,
                forall|k: int| 0 <= k < i ==> registers@[k] == 0u32,
            decreases 31 - i,
        {
            registers.push(0);
            i = i + 1;
        }
        RegisterFile { registers }
    }

    /// Read register `num`: register 0 reads as zero, registers above 31 do
    /// not exist.
    pub fn read(&self, num: u8) -> (r: Result<u32, RiscvError>)
        requires
            self.wf(),
        ensures
            num <= 31 ==> r == Ok::<u32, RiscvError>(self@[num as int]),
            num > 31 ==> r == Err::<u32, RiscvError>(RiscvError::RegisterOutOfRangeError(num)),
    {
        if num == 0 {
            Ok(0)
        } else if num > 31 {
            Err(RiscvError::RegisterOutOfRangeError(num))
        } else {
            Ok(self.registers[(num - 1) as usize])
        }
    }

    /// Write `data` to register `num`: a write to register 0 succeeds with no
    /// effect, registers above 31 do not exist.
    pub fn write(&mut self, num: u8, data: u32) -> (r: Result<(), RiscvError>)
        requires
            old(self).wf(),
        ensures
            final(self).wf(),
            num <= 31 ==> r == Ok::<(), RiscvError>(()) && final(self)@ =~= spec_rf_write(
                old(self)@,
                num,
                data,
            ),
            num > 31 ==> r == Err::<(), RiscvError>(RiscvError::RegisterOutOfRangeError(num))
                && final(self)@ =~= old(self)@,
    {
        if num > 31 {
            Err(RiscvError::RegisterOutOfRangeError(num))
        } else if num >= 1 {
            self.registers[(num - 1) as usize] = data;
            Ok(())
        } else {
            Ok(())
        }
    }
}

/// The register sequence after a write: unchanged for register 0, updated
/// elsewhere.
pub open spec fn spec_rf_write(rf: Seq<u32>, num: u8, data: u32) -> Seq<u32>
    recommends
        num <= 31,
{
    if num == 0 {
        rf
    } else {
        rf.update(num as int, data)
    }
}

/// Register 0 reads as zero in every well-formed register file, whatever was
/// written to it.
pub proof fn lemma_x0_reads_zero(rf: RegisterFile)
    requires
        rf.wf(),
    ensures
        rf@[0] == 0u32,
{
}

} // verus!
