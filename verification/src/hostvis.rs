//! The host-visible blob window: which byte ranges of the device's shared
//! memory region are reserved for host resources.
//!
//! Reservations are placed first-fit, lowest offset first, with 64 KiB
//! granularity, so that space given back is used again from the bottom.
use crate::registry::{entries_u64, lists_u64};
use std::collections::BTreeMap;
use vstd::prelude::*;

verus! {

/// Every reservation starts at, and is as long as, a multiple of this.
pub const HOSTVIS_GRAIN: u64 = 65536;

/// How many reservations can be live at once.
pub const MAX_HOSTVIS_SPANS: usize = 256;

/// The length of a reservation that holds `bytes` bytes.
pub open spec fn span_len(bytes: int) -> int {
    (bytes + HOSTVIS_GRAIN - 1) / (HOSTVIS_GRAIN as int) * HOSTVIS_GRAIN
}

/// No byte of `off..off + len` is reserved.
pub open spec fn is_free(spans: Map<u64, u64>, off: int, len: int) -> bool {
    forall|k: u64| #[trigger]
        spans.contains_key(k) ==> off + len <= k || k + spans[k] <= off
}

/// Every reservation lies inside a window of `window_len` bytes.
pub open spec fn inside(spans: Map<u64, u64>, window_len: int) -> bool {
    forall|k: u64| #[trigger] spans.contains_key(k) ==> k + spans[k] <= window_len
}

/// Live reservations: offset to length.
pub struct HostvisWindow {
    spans: BTreeMap<u64, u64>,
}

impl View for HostvisWindow {
    type V = Map<u64, u64>;

    closed spec fn view(&self) -> Map<u64, u64> {
        self.spans@
    }
}

impl HostvisWindow {
    /// Reservations are grain-aligned, not empty, addressable, pairwise
    /// disjoint, and no more than the table holds.
    pub open spec fn wf(&self) -> bool {
        &&& self@.dom().finite()
        &&& self@.dom().len() <= MAX_HOSTVIS_SPANS
        &&& forall|k: u64| #[trigger]
            self@.contains_key(k) ==> {
                &&& k as int % HOSTVIS_GRAIN as int == 0
                &&& self@[k] as int % HOSTVIS_GRAIN as int == 0
                &&& 0 < self@[k]
                &&& k + self@[k] <= u64::MAX
            }
        &&& forall|j: u64, k: u64|
            #![trigger self@.contains_key(j), self@.contains_key(k)]
            self@.contains_key(j) && self@.contains_key(k) && j < k ==> j + self@[j] <= k
    }

    /// A window with nothing reserved.
    pub fn new() -> (w: Self)
        ensures
            w.wf(),
            w@ == Map::<u64, u64>::empty(),
    {
        HostvisWindow { spans: BTreeMap::new() }
    }

    /// How many reservations are live.
    pub fn span_count(&self) -> (n: usize)
        requires
            self.wf(),
        ensures
            n == self@.dom().len(),
    {
        broadcast use vstd::std_specs::btree::group_btree_axioms;

        self.spans.len()
    }

    /// Reserves room for `bytes` bytes in a window of `window_len` bytes at the
    /// lowest offset where it fits. `None` if there is no such offset, if the
    /// table is full, or if nothing is asked for.
    pub fn hostvis_alloc(&mut self, bytes: u64, window_len: u64) -> (r: Option<u64>)
        requires
            old(self).wf(),
        ensures
            final(self).wf(),
            match r {
                Some(off) => {
                    &&& final(self)@ == old(self)@.insert(off, span_len(bytes as int) as u64)
                    &&& !old(self)@.contains_key(off)
                    &&& bytes <= span_len(bytes as int)
                    &&& off + span_len(bytes as int) <= window_len
                    &&& is_free(old(self)@, off as int, span_len(bytes as int))
                    &&& forall|x: int|
                        0 <= x < off ==> !(#[trigger] is_free(
                            old(self)@,
                            x,
                            span_len(bytes as int),
                        ))
                },
                None => final(self)@ == old(self)@,
            },
            r is Some <==> {
                &&& bytes > 0
                &&& old(self)@.dom().len() < MAX_HOSTVIS_SPANS
                &&& exists|x: int|
                    0 <= x <= window_len - span_len(bytes as int) && #[trigger] is_free(
                        old(self)@,
                        x,
                        span_len(bytes as int),
                    )
            },
            inside(old(self)@, window_len as int) ==> inside(final(self)@, window_len as int),
    {
        broadcast use vstd::std_specs::btree::group_btree_axioms;

        let ghost before = self@;
        let ghost want = span_len(bytes as int);
        if bytes == 0 || window_len == 0 {
            return None;
        }
        let padded = match bytes.checked_add(HOSTVIS_GRAIN - 1) {
            Some(v) => v,
            None => {
                assert(want > window_len) by {
                    assert(bytes + HOSTVIS_GRAIN - 1 >= 0x1_0000_0000_0000_0000);
                };
                return None;
            },
        };
        let need: u64 = padded / HOSTVIS_GRAIN * HOSTVIS_GRAIN;
        assert(need == want && need >= bytes && need > 0);
        assert(need as int % HOSTVIS_GRAIN as int == 0);
        if self.spans.len() >= MAX_HOSTVIS_SPANS {
            return None;
        }
        let spans = entries_u64(&self.spans);
        let mut cursor: u64 = 0;
        let mut i: usize = 0;
        while i < spans.len()
            invariant_except_break
                i <= spans.len(),
                self@ == before,
                self.wf(),
                lists_u64(spans@, before),
                need > 0,
                need == want,
                cursor as int % HOSTVIS_GRAIN as int == 0,
                cursor == 0 || exists|k: int|
                    0 <= k < i && cursor == (#[trigger] spans@[k]).0 + spans@[k].1,
                forall|k: int| 0 <= k < i ==> (#[trigger] spans@[k]).0 + spans@[k].1 <= cursor,
                forall|k: int| i <= k < spans.len() ==> cursor <= (#[trigger] spans@[k]).0,
                forall|x: int| 0 <= x < cursor ==> !(#[trigger] is_free(before, x, want)),
            ensures
                self@ == before,
                cursor as int % HOSTVIS_GRAIN as int == 0,
                is_free(before, cursor as int, want),
                forall|x: int| 0 <= x < cursor ==> !(#[trigger] is_free(before, x, want)),
            decreases spans.len() - i,
        {
            let off = spans[i].0;
            let len = spans[i].1;
            assert(before.contains_key(off) && before[off] == len);
            assert(spans@[i as int] == (off, len));
            if off - cursor >= need {
                assert forall|k: u64| #[trigger] before.contains_key(k) implies cursor + want <= k
                    || k + before[k] <= cursor by {
                    let p = choose|p: int| 0 <= p < spans.len() && #[trigger] spans@[p] == (k, before[k]);
                    if p > i {
                        assert(spans@[i as int].0 < spans@[p].0);
                    }
                }
                break;
            }
            assert forall|x: int| 0 <= x < off + len implies !(#[trigger] is_free(before, x, want)) by {
                if x >= cursor {
                    assert(before.contains_key(off));
                    assert(!(x + want <= off) && !(off + before[off] <= x));
                }
            }
            cursor = off + len;
            assert forall|k: int| i + 1 <= k < spans.len() implies cursor <= (#[trigger] spans@[k]).0 by {
                assert(before.contains_key(spans@[k].0));
                assert(spans@[i as int].0 < spans@[k].0);
            }
            i += 1;
            if i == spans.len() {
                assert forall|k: u64| #[trigger] before.contains_key(k) implies cursor + want <= k
                    || k + before[k] <= cursor by {
                    let p = choose|p: int| 0 <= p < spans.len() && #[trigger] spans@[p] == (k, before[k]);
                    assert(spans@[p].0 + spans@[p].1 <= cursor);
                }
            }
        }
        let end = match cursor.checked_add(need) {
            Some(v) => v,
            None => {
                return None;
            },
        };
        if end > window_len {
            return None;
        }
        assert(!before.contains_key(cursor)) by {
            if before.contains_key(cursor) {
                assert(cursor + want <= cursor || cursor + before[cursor] <= cursor);
            }
        }
        let _ = self.spans.insert(cursor, need);
        assert(is_free(before, cursor as int, want));
        Some(cursor)
    }

    /// Gives back the reservation at `off`; an offset that is not reserved is
    /// left alone.
    pub fn hostvis_free(&mut self, off: u64)
        requires
            old(self).wf(),
        ensures
            final(self).wf(),
            final(self)@ == old(self)@.remove(off),
    {
        broadcast use vstd::std_specs::btree::group_btree_axioms;

        let _ = self.spans.remove(&off);
    }
}

/// Giving back what was just reserved leaves the window as it was.
pub proof fn lemma_free_undoes_alloc(before: Map<u64, u64>, off: u64, len: u64)
    requires
        !before.contains_key(off),
    ensures
        before.insert(off, len).remove(off) == before,
{
    assert(before.insert(off, len).remove(off) =~= before);
}

/// Space given back is used again: the next reservation of the same size lands
/// no higher than the range that was freed.
pub proof fn lemma_freed_space_is_reused(spans: Map<u64, u64>, off: u64, x: int)
    requires
        spans.contains_key(off),
        0 < spans[off],
        forall|j: u64, k: u64|
            #![trigger spans.contains_key(j), spans.contains_key(k)]
            spans.contains_key(j) && spans.contains_key(k) && j < k ==> j + spans[j] <= k,
        forall|y: int|
            0 <= y < x ==> !(#[trigger] is_free(spans.remove(off), y, spans[off] as int)),
    ensures
        x <= off,
{
    if off < x {
        assert(is_free(spans.remove(off), off as int, spans[off] as int)) by {
            assert forall|k: u64| #[trigger] spans.remove(off).contains_key(k) implies off
                + spans[off] <= k || k + spans.remove(off)[k] <= off by {
                assert(spans.contains_key(k));
                assert(spans.contains_key(off));
            }
        }
    }
}

} // verus!
