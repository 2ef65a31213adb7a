//! A set of byte strings.

use vstd::prelude::*;

verus! {

/// Whether two byte strings are equal.
pub fn same_bytes(left: &Vec<u8>, right: &Vec<u8>) -> (result: bool)
    ensures
        result == (left@ == right@),
{
    if left.len() != right.len() {
        return false;
    }
    let mut i: usize = 0;
    while i < left.len()
        invariant
            i <= left.len(),
            left.len() == right.len(),
            forall|j: int| 0 <= j < i ==> left@[j] == right@[j],
        decreases left.len() - i,
    {
        if left[i] != right[i] {
            return false;
        }
        i = i + 1;
    }
    assert(left@ =~= right@);
    true
}

/// A finite set of byte strings, held as a list in which none occurs twice.
///
/// Its view is the set of the strings' contents.
#[derive(Debug)]
pub struct ByteSet {
    items: Vec<Vec<u8>>,
}

/// The contents of a list of byte strings.
pub open spec fn contents(items: Seq<Vec<u8>>) -> Seq<Seq<u8>> {
    Seq::new(items.len(), |i: int| items[i]@)
}

impl View for ByteSet {
    type V = Set<Seq<u8>>;

    closed spec fn view(&self) -> Set<Seq<u8>> {
        contents(self.items@).to_set()
    }
}

impl ByteSet {
    /// No string is held twice.
    pub closed spec fn wf(self) -> bool {
        contents(self.items@).no_duplicates()
    }

    /// The empty set.
    pub fn new() -> (result: ByteSet)
        ensures
            result.wf(),
            result@ == Set::<Seq<u8>>::empty(),
    {
        let result = ByteSet { items: Vec::new() };
        assert(result@ =~= Set::<Seq<u8>>::empty());
        result
    }

    /// The number of strings in the set.
    pub fn len(&self) -> (result: usize)
        requires
            self.wf(),
        ensures
            result == self@.len(),
            self@.finite(),
    {
        proof {
            contents(self.items@).unique_seq_to_set();
        }
        self.items.len()
    }

    /// Where the list holds a string, if it does.
    fn position(&self, item: &Vec<u8>) -> (result: Option<usize>)
        ensures
            match result {
                Some(i) => i < self.items@.len() && self.items@[i as int]@ == item@,
                None => !self@.contains(item@),
            },
    {
        let mut i: usize = 0;
        while i < self.items.len()
            invariant
                i <= self.items.len(),
                forall|j: int| 0 <= j < i ==> self.items@[j]@ != item@,
            decreases self.items.len() - i,
        {
            if same_bytes(&self.items[i], item) {
                return Some(i);
            }
            i = i + 1;
        }
        None
    }

    /// Adds a string to the set.
    pub fn insert(&mut self, item: Vec<u8>)
        requires
            old(self).wf(),
        ensures
            final(self).wf(),
            final(self)@ == old(self)@.insert(item@),
    {
        let ghost before = contents(self.items@);
        let found = self.position(&item);
        match found {
            Some(i) => {
                proof {
                    assert(before[i as int] == item@);
                    assert(self@ =~= old(self)@.insert(item@));
                }
            },
            None => {
                self.items.push(item);
                proof {
                    let after = contents(self.items@);
                    assert(after =~= before.push(item@));
                    assert(!before.contains(item@));
                    assert(after.to_set() =~= before.to_set().insert(item@)) by {
                        assert forall|x: Seq<u8>| before.contains(x) implies after.contains(x) by {
                            let k = choose|k: int| 0 <= k < before.len() && before[k] == x;
                            assert(after[k] == x);
                        }
                        assert(after[before.len() as int] == item@);
                    }
                }
            },
        }
    }

    /// Takes a string out of the set, and says whether it was in it.
    pub fn remove(&mut self, item: &Vec<u8>) -> (result: bool)
        requires
            old(self).wf(),
        ensures
            final(self).wf(),
            result == old(self)@.contains(item@),
            final(self)@ == old(self)@.remove(item@),
    {
        let ghost before = contents(self.items@);
        let found = self.position(item);
        match found {
            Some(i) => {
                self.items.swap_remove(i);
                proof {
                    let after = contents(self.items@);
                    let last = before.len() - 1;
                    assert(before[i as int] == item@);
                    assert(after =~= before.update(i as int, before[last]).drop_last());
                    assert forall|x: Seq<u8>| #[trigger]
                        after.contains(x) == (before.contains(x) && x != item@) by {
                        if before.contains(x) && x != item@ {
                            let k = choose|k: int| 0 <= k < before.len() && before[k] == x;
                            if k == last {
                                assert(after[i as int] == x);
                            } else {
                                assert(after[k] == x);
                            }
                        }
                        if after.contains(x) {
                            let k = choose|k: int| 0 <= k < after.len() && after[k] == x;
                            if k == i {
                                assert(before[last] == x);
                            } else {
                                assert(before[k] == x);
                            }
                        }
                    }
                    assert(after.to_set() =~= before.to_set().remove(item@));
                }
                true
            },
            None => {
                proof {
                    assert(self@ =~= old(self)@.remove(item@));
                }
                false
            },
        }
    }
}

} // verus!
