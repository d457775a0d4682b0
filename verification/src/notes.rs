//! One-shot diagnostics: each distinct thing is reported once.
use vstd::prelude::*;

verus! {

/// How many things can be remembered.
pub const MAX_NOTED: usize = 32;

/// The keys that have been reported.
pub struct NoteSet {
    seen: [u64; MAX_NOTED],
    n: usize,
}

impl View for NoteSet {
    type V = Seq<u64>;

    closed spec fn view(&self) -> Seq<u64> {
        self.seen@.take(self.n as int)
    }
}

impl NoteSet {
    /// The table is not overfull.
    pub closed spec fn wf(&self) -> bool {
        self.n <= MAX_NOTED
    }

    /// Nothing has been reported.
    pub fn new() -> (s: Self)
        ensures
            s.wf(),
            s@ == Seq::<u64>::empty(),
    {
        let s = NoteSet { seen: [0; 32], n: 0 };
        assert(s@ =~= Seq::<u64>::empty());
        s
    }

    /// True the first time `key` is offered and never again, as long as the
    /// table has room. Once it is full a new key is reported each time: better a
    /// repeated line than a lost one.
    pub fn first(&mut self, key: u64) -> (r: bool)
        requires
            old(self).wf(),
        ensures
            final(self).wf(),
            r == !old(self)@.contains(key),
            final(self)@ == (if r && old(self)@.len() < MAX_NOTED {
                old(self)@.push(key)
            } else {
                old(self)@
            }),
    {
        let ghost before = self@;
        let mut i: usize = 0;
        while i < self.n
            invariant
                self.wf(),
                i <= self.n,
                self@ == before,
                forall|k: int| 0 <= k < i ==> before[k] != key,
            decreases self.n - i,
        {
            if self.seen[i] == key {
                assert(before[i as int] == key);
                return false;
            }
            i += 1;
        }
        if self.n < MAX_NOTED {
            let at = self.n;
            self.seen[at] = key;
            self.n = self.n + 1;
            assert(self@ =~= before.push(key));
        }
        true
    }
}

/// A key that was reported while there was room is not reported again.
pub proof fn lemma_noted_once(seen: Seq<u64>, key: u64)
    requires
        seen.len() < MAX_NOTED,
    ensures
        seen.push(key).contains(key),
{
    assert(seen.push(key)[seen.len() as int] == key);
}

} // verus!
