//! A set of assertions about the state of an MCU: expected register values
//! and expected memory words, each paired with a flag that records whether
//! the machine agreed.

use vstd::prelude::*;
use crate::memory::{spec_le_word, Memory};
use crate::register_file::RegisterFile;

verus! {

/// Expected register and memory contents. Each entry is
/// `(where, expected value, last comparison result)`.
pub struct Assertions {
    pub register_assertions: Vec<(u8, u32, bool)>,
    pub memory_assertions: Vec<(u32, u32, bool)>,
}

impl Assertions {
    /// Every register assertion names an existing register and every memory
    /// assertion a word-aligned address inside the given memory size.
    pub open spec fn valid_for(&self, mem_len: int) -> bool {
        &&& forall|i: int|
            0 <= i < self.register_assertions@.len()
                ==> (#[trigger] self.register_assertions@[i]).0 <= 31
        &&& forall|i: int|
            0 <= i < self.memory_assertions@.len() ==> ((#[trigger] self.memory_assertions@[i]).0
                % 4 == 0 && self.memory_assertions@[i].0 < mem_len)
    }

    /// Compare every expected value with the machine's actual state,
    /// recording each outcome in the entry's flag. Register entries compare
    /// against the register file; memory entries read the word at their
    /// address.
    pub fn assert_all(&mut self, mem: &mut Memory, rf: &mut RegisterFile)
        requires
            old(mem).wf(),
            old(rf).wf(),
            old(self).valid_for(old(mem)@.len() as int),
        ensures
            final(mem)@ == old(mem)@,
            final(rf)@ == old(rf)@,
            final(mem).wf(),
            final(rf).wf(),
            final(self).register_assertions@.len() == old(self).register_assertions@.len(),
            final(self).memory_assertions@.len() == old(self).memory_assertions@.len(),
            forall|i: int|
                0 <= i < old(self).register_assertions@.len() ==> {
                    let prev = old(self).register_assertions@[i];
                    (#[trigger] final(self).register_assertions@[i]) == (
                    prev.0,
                    prev.1,
                    old(rf)@[prev.0 as int] == prev.1,
                    )
                },
            forall|i: int|
                0 <= i < old(self).memory_assertions@.len() ==> {
                    let prev = old(self).memory_assertions@[i];
                    (#[trigger] final(self).memory_assertions@[i]) == (
                    prev.0,
                    prev.1,
                    spec_le_word(old(mem)@, prev.0 as int) == prev.1,
                    )
                },
    {
        let mut i: usize = 0;
        while i < self.register_assertions.len()
            invariant
                rf.wf(),
                rf@ == old(rf)@,
                i <= self.register_assertions@.len(),
                self.register_assertions@.len() == old(self).register_assertions@.len(),
                self.memory_assertions@ == old(self).memory_assertions@,
                forall|k: int|
                    0 <= k < self.register_assertions@.len() ==> (
                    #[trigger] self.register_assertions@[k]).0 == old(
                        self,
                    ).register_assertions@[k].0 && self.register_assertions@[k].1 == old(
                        self,
                    ).register_assertions@[k].1,
                forall|k: int|
                    0 <= k < i ==> (#[trigger] self.register_assertions@[k]).2 == (old(rf)@[old(
                        self,
                    ).register_assertions@[k].0 as int] == old(self).register_assertions@[k].1),
                old(self).valid_for(old(mem)@.len() as int),
            decreases self.register_assertions@.len() - i,
        {
            let (num, expect, _) = self.register_assertions[i];
            let actual = match rf.read(num) {
                Ok(d) => d,
                Err(_) => 0,
            };
            self.register_assertions[i] = (num, expect, actual == expect);
            i = i + 1;
        }
        let mut j: usize = 0;
        while j < self.memory_assertions.len()
            invariant
                mem.wf(),
                mem@ == old(mem)@,
                rf.wf(),
                rf@ == old(rf)@,
                j <= self.memory_assertions@.len(),
                self.register_assertions@.len() == old(self).register_assertions@.len(),
                forall|k: int|
                    0 <= k < self.register_assertions@.len() ==> {
                        let prev = old(self).register_assertions@[k];
                        (#[trigger] self.register_assertions@[k]) == (
                        prev.0,
                        prev.1,
                        old(rf)@[prev.0 as int] == prev.1,
                        )
                    },
                self.memory_assertions@.len() == old(self).memory_assertions@.len(),
                forall|k: int|
                    0 <= k < self.memory_assertions@.len() ==> (
                    #[trigger] self.memory_assertions@[k]).0 == old(self).memory_assertions@[k].0
                        && self.memory_assertions@[k].1 == old(self).memory_assertions@[k].1,
                forall|k: int|
                    0 <= k < j ==> (#[trigger] self.memory_assertions@[k]).2 == (spec_le_word(
                        old(mem)@,
                        old(self).memory_assertions@[k].0 as int,
                    ) == old(self).memory_assertions@[k].1),
                old(self).valid_for(old(mem)@.len() as int),
            decreases self.memory_assertions@.len() - j,
        {
            let (addr, expect, _) = self.memory_assertions[j];
            let actual = match mem.fetch(addr) {
                Ok(d) => d,
                Err(_) => 0,
            };
            self.memory_assertions[j] = (addr, expect, actual == expect);
            j = j + 1;
        }
    }
}

} // verus!
