//! The label table: a mapping from label name (case-sensitive) to the byte
//! address at which the following instruction resides. Later insertions of
//! the same name win, as in a map.

use vstd::prelude::*;
use crate::text::{chars_eq, str_chars};

verus! {

/// A label table, viewed as a map from character sequences to addresses.
pub struct LabelTable {
    names: Vec<Vec<char>>,
    addrs: Vec<u32>,
}

/// The map that a list of `(name, address)` pairs denotes, later pairs
/// winning.
pub open spec fn spec_pairs_map(names: Seq<Seq<char>>, addrs: Seq<u32>) -> Map<Seq<char>, u32>
    decreases names.len(),
{
    if names.len() == 0 {
        Map::empty()
    } else {
        spec_pairs_map(names.drop_last(), addrs.drop_last()).insert(
            names.last(),
            addrs.last(),
        )
    }
}

impl View for LabelTable {
    type V = Map<Seq<char>, u32>;

    closed spec fn view(&self) -> Map<Seq<char>, u32> {
        spec_pairs_map(self.names@.map_values(|n: Vec<char>| n@), self.addrs@)
    }
}

impl LabelTable {
    pub closed spec fn wf(&self) -> bool {
        self.names@.len() == self.addrs@.len()
    }

    /// An empty table.
    pub fn new() -> (r: LabelTable)
        ensures
            r.wf(),
            r@ =~= Map::<Seq<char>, u32>::empty(),
    {
        let r = LabelTable { names: Vec::new(), addrs: Vec::new() };
        proof {
            assert(r.names@.map_values(|n: Vec<char>| n@) =~= Seq::<Seq<char>>::empty());
        }
        r
    }

    pub(crate) fn insert_chars(&mut self, name: Vec<char>, addr: u32)
        requires
            old(self).wf(),
        ensures
            final(self).wf(),
            final(self)@ == old(self)@.insert(name@, addr),
    {
        let ghost prev = self.names@.map_values(|n: Vec<char>| n@);
        self.names.push(name);
        self.addrs.push(addr);
        proof {
            let now = self.names@.map_values(|n: Vec<char>| n@);
            assert(now.drop_last() =~= prev);
            assert(self.addrs@.drop_last() =~= old(self).addrs@);
            assert(now.last() == name@);
        }
    }

    /// Define `name` as `addr`; a later definition of the same name replaces
    /// an earlier one.
    pub fn insert(&mut self, name: &str, addr: u32)
        requires
            old(self).wf(),
        ensures
            final(self).wf(),
            final(self)@ == old(self)@.insert(name@, addr),
    {
        self.insert_chars(str_chars(name), addr);
    }

    pub(crate) fn get_chars(&self, name: &[char]) -> (r: Option<u32>)
        requires
            self.wf(),
        ensures
            self@.contains_key(name@) ==> r == Some(self@[name@]),
            !self@.contains_key(name@) ==> r is None,
    {
        let mut j: usize = self.names.len();
        while j > 0
            invariant
                self.wf(),
                j <= self.names@.len(),
                forall|k: int|
                    j <= k < self.names@.len() ==> (#[trigger] self.names@[k])@ != name@,
            decreases j,
        {
            j = j - 1;
            if chars_eq(self.names[j].as_slice(), name) {
                proof {
                    let mapped = self.names@.map_values(|n: Vec<char>| n@);
                    assert(mapped[j as int] == name@);
                    assert forall|k: int| j < k < mapped.len() implies mapped[k] != name@ by {
                        assert(mapped[k] == (self.names@[k])@);
                    }
                    lemma_pairs_map_found(
                        self.names@.map_values(|n: Vec<char>| n@),
                        self.addrs@,
                        name@,
                        j as int,
                    );
                }
                return Some(self.addrs[j]);
            }
        }
        proof {
            let mapped = self.names@.map_values(|n: Vec<char>| n@);
            assert forall|k: int| 0 <= k < mapped.len() implies mapped[k] != name@ by {
                assert(mapped[k] == (self.names@[k])@);
            }
            lemma_pairs_map_absent(mapped, self.addrs@, name@);
        }
        None
    }

    /// Look the label up; `None` if it was never defined.
    pub fn get(&self, name: &str) -> (r: Option<u32>)
        requires
            self.wf(),
        ensures
            self@.contains_key(name@) ==> r == Some(self@[name@]),
            !self@.contains_key(name@) ==> r is None,
    {
        let cs = str_chars(name);
        self.get_chars(cs.as_slice())
    }
}

/// If entry `j` holds the key and no later entry does, the map holds entry
/// `j`'s address for it.
proof fn lemma_pairs_map_found(names: Seq<Seq<char>>, addrs: Seq<u32>, key: Seq<char>, j: int)
    requires
        names.len() == addrs.len(),
        0 <= j < names.len(),
        names[j] == key,
        forall|k: int| j < k < names.len() ==> names[k] != key,
    ensures
        spec_pairs_map(names, addrs).contains_key(key),
        spec_pairs_map(names, addrs)[key] == addrs[j],
    decreases names.len(),
{
    if j == names.len() - 1 {
    } else {
        lemma_pairs_map_found(names.drop_last(), addrs.drop_last(), key, j);
    }
}

/// If no entry holds the key, the map does not contain it.
proof fn lemma_pairs_map_absent(names: Seq<Seq<char>>, addrs: Seq<u32>, key: Seq<char>)
    requires
        names.len() == addrs.len(),
        forall|k: int| 0 <= k < names.len() ==> names[k] != key,
    ensures
        !spec_pairs_map(names, addrs).contains_key(key),
    decreases names.len(),
{
    if names.len() > 0 {
        lemma_pairs_map_absent(names.drop_last(), addrs.drop_last(), key);
    }
}

} // verus!
