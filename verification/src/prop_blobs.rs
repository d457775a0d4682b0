//! Property blobs: byte strings that later commits refer to by id.
use crate::bo::wrap_next;
use crate::bytes::{read_u32, u32_at};
use crate::DriverError;
use std::collections::BTreeMap;
use vstd::prelude::*;

verus! {

/// The first blob id.
pub const FIRST_BLOB_ID: u32 = 0x1000;

/// The longest blob: 64 KiB.
pub const MAX_PROP_BLOB: u32 = 65536;

/// Past this many clips a full copy is cheaper than the bookkeeping.
pub const MAX_DAMAGE_RECTS: usize = 64;

/// A rectangle, half open: left, top, right, bottom.
#[derive(Debug, Clone, Copy, PartialEq, Eq, Structural)]
pub struct Clip {
    pub x1: i32,
    pub y1: i32,
    pub x2: i32,
    pub y2: i32,
}

/// The blobs there are.
pub struct PropBlobs {
    blobs: BTreeMap<u32, Vec<u8>>,
    next: u32,
}

impl View for PropBlobs {
    type V = Map<u32, Seq<u8>>;

    closed spec fn view(&self) -> Map<u32, Seq<u8>> {
        self.blobs@.map_values(|v: Vec<u8>| v@)
    }
}

/// Clip `i` of a clip list: four 32-bit numbers.
pub open spec fn clip_at(b: Seq<u8>, i: int) -> Clip {
    Clip {
        x1: u32_at(b, 16 * i) as i32,
        y1: u32_at(b, 16 * i + 4) as i32,
        x2: u32_at(b, 16 * i + 8) as i32,
        y2: u32_at(b, 16 * i + 12) as i32,
    }
}

/// The bytes are a list of clips, and not too many.
pub open spec fn is_clip_list(b: Seq<u8>) -> bool {
    0 < b.len() <= MAX_DAMAGE_RECTS * 16 && b.len() % 16 == 0
}

/// The clips of blob `id`; none if the whole surface is to be taken as damaged.
pub open spec fn clips_of(blobs: Map<u32, Seq<u8>>, id: u32) -> Option<Seq<Clip>> {
    if id != 0 && blobs.contains_key(id) && is_clip_list(blobs[id]) {
        Some(Seq::new(blobs[id].len() / 16, |i: int| clip_at(blobs[id], i)))
    } else {
        None
    }
}

impl PropBlobs {
    /// The id of the next blob.
    pub closed spec fn next_id(&self) -> u32 {
        self.next
    }

    /// No blob has an id that is still to be handed out.
    pub open spec fn fresh(&self) -> bool {
        forall|id: u32| #[trigger] self@.contains_key(id) ==> id < self.next_id()
    }

    /// No blobs.
    pub fn new() -> (p: Self)
        ensures
            p@ == Map::<u32, Seq<u8>>::empty(),
            p.next_id() == FIRST_BLOB_ID,
            p.fresh(),
    {
        let p = PropBlobs { blobs: BTreeMap::new(), next: FIRST_BLOB_ID };
        assert(p@ =~= Map::<u32, Seq<u8>>::empty());
        p
    }

    /// Keeps a copy of the bytes of a client under a new id.
    pub fn std_handle_create_blob(&mut self, bytes: Vec<u8>) -> (id: u32)
        ensures
            id == old(self).next_id(),
            final(self)@ == old(self)@.insert(id, bytes@),
            final(self).next_id() == wrap_next(old(self).next_id()),
            old(self).fresh() && old(self).next_id() < u32::MAX ==> final(self).fresh() && !old(
                self,
            )@.contains_key(id),
    {
        broadcast use vstd::std_specs::btree::group_btree_axioms;

        let ghost before = self@;
        let id = self.next;
        self.next = self.next.wrapping_add(1);
        let ghost data = bytes@;
        let _ = self.blobs.insert(id, bytes);
        assert(self@ =~= before.insert(id, data));
        id
    }

    /// Forgets a blob.
    pub fn std_handle_destroy_blob(&mut self, id: u32) -> (r: Result<(), DriverError>)
        ensures
            r == (if old(self)@.contains_key(id) {
                Ok(())
            } else {
                Err(DriverError::NotFound)
            }),
            final(self)@ == old(self)@.remove(id),
            final(self).next_id() == old(self).next_id(),
            old(self).fresh() ==> final(self).fresh(),
    {
        broadcast use vstd::std_specs::btree::group_btree_axioms;

        let ghost before = self@;
        let r = match self.blobs.remove(&id) {
            Some(_) => Ok(()),
            None => Err(DriverError::NotFound),
        };
        assert(self@ =~= before.remove(id));
        r
    }

    /// A copy of a blob.
    pub fn std_handle_get_blob(&self, id: u32) -> (r: Result<Vec<u8>, DriverError>)
        ensures
            match r {
                Ok(b) => self@.contains_key(id) && b@ == self@[id],
                Err(e) => !self@.contains_key(id) && e == DriverError::NotFound,
            },
    {
        broadcast use vstd::std_specs::btree::group_btree_axioms;

        match self.blobs.get(&id) {
            Some(b) => {
                let c = b.clone();
                assert(c@ =~= b@);
                Ok(c)
            },
            None => Err(DriverError::NotFound),
        }
    }

    /// Whether there is a blob `id`.
    pub fn contains(&self, id: u32) -> (r: bool)
        ensures
            r == self@.contains_key(id),
    {
        broadcast use vstd::std_specs::btree::group_btree_axioms;

        self.blobs.contains_key(&id)
    }

    /// Decodes a damage clip list. Never an error: anything that is no clip list
    /// means that the whole surface is damaged.
    pub fn damage_rects(&self, id: u32) -> (r: Option<Vec<Clip>>)
        ensures
            match r {
                Some(clips) => clips_of(self@, id) == Some(clips@),
                None => clips_of(self@, id) is None,
            },
    {
        if id == 0 {
            return None;
        }
        let bytes = match self.std_handle_get_blob(id) {
            Ok(b) => b,
            Err(_) => {
                return None;
            },
        };
        if bytes.len() == 0 || bytes.len() % 16 != 0 || bytes.len() > MAX_DAMAGE_RECTS * 16 {
            return None;
        }
        let n: usize = bytes.len() / 16;
        let mut out: Vec<Clip> = Vec::new();
        let mut i: usize = 0;
        while i < n
            invariant
                i <= n,
                n == bytes.len() / 16,
                bytes.len() <= 1024,
                out.len() == i,
                forall|k: int| 0 <= k < i ==> #[trigger] out@[k] == clip_at(bytes@, k),
            decreases n - i,
        {
            let b = bytes.as_slice();
            out.push(
                Clip {
                    x1: read_u32(b, 16 * i) as i32,
                    y1: read_u32(b, 16 * i + 4) as i32,
                    x2: read_u32(b, 16 * i + 8) as i32,
                    y2: read_u32(b, 16 * i + 12) as i32,
                },
            );
            i += 1;
        }
        assert(out@ =~= Seq::new(self@[id].len() / 16, |i: int| clip_at(self@[id], i)));
        Some(out)
    }
}

/// Whether the bytes of a new blob can be read.
pub fn blob_request_ok(data: u64, length: u32) -> (r: bool)
    ensures
        r == (data != 0 && 0 < length <= MAX_PROP_BLOB),
{
    !(data == 0 || length == 0 || length > MAX_PROP_BLOB)
}

/// The pixels of a clip.
pub open spec fn clip_area(c: Clip) -> int {
    if c.x2 > c.x1 && c.y2 > c.y1 {
        (c.x2 - c.x1) * (c.y2 - c.y1)
    } else {
        0
    }
}

/// The pixels of a clip list, overlaps counted twice.
pub open spec fn area_sum(clips: Seq<Clip>) -> int
    decreases clips.len(),
{
    if clips.len() == 0 {
        0
    } else {
        area_sum(clips.drop_last()) + clip_area(clips.last())
    }
}

/// The pixels of a clip list, at most the largest number there is.
pub fn damage_area(clips: &Vec<Clip>) -> (total: u64)
    ensures
        total == (if area_sum(clips@) <= u64::MAX {
            area_sum(clips@)
        } else {
            u64::MAX as int
        }),
{
    let mut total: u64 = 0;
    let mut i: usize = 0;
    assert(clips@.take(0) =~= Seq::<Clip>::empty());
    while i < clips.len()
        invariant
            i <= clips.len(),
            total == (if area_sum(clips@.take(i as int)) <= u64::MAX {
                area_sum(clips@.take(i as int))
            } else {
                u64::MAX as int
            }),
        decreases clips.len() - i,
    {
        let c = clips[i];
        let w: u64 = if c.x2 > c.x1 {
            (c.x2 as i64 - c.x1 as i64) as u64
        } else {
            0
        };
        let h: u64 = if c.y2 > c.y1 {
            (c.y2 as i64 - c.y1 as i64) as u64
        } else {
            0
        };
        proof {
            assert(clips@.take(i + 1).drop_last() =~= clips@.take(i as int));
            assert(w * h == clip_area(c)) by (nonlinear_arith)
                requires
                    w == (if c.x2 > c.x1 {
                        c.x2 - c.x1
                    } else {
                        0
                    }),
                    h == (if c.y2 > c.y1 {
                        c.y2 - c.y1
                    } else {
                        0
                    }),
                    clip_area(c) == (if c.x2 > c.x1 && c.y2 > c.y1 {
                        (c.x2 - c.x1) * (c.y2 - c.y1)
                    } else {
                        0
                    }),
            ;
            assert(0 <= w * h) by (nonlinear_arith);
        }
        let area: u64 = match w.checked_mul(h) {
            Some(a) => a,
            None => u64::MAX,
        };
        total = total.saturating_add(area);
        i += 1;
    }
    assert(clips@.take(clips.len() as int) =~= clips@);
    total
}

/// A blob reads back as the bytes it was made of.
pub proof fn lemma_blob_reads_back(blobs: Map<u32, Seq<u8>>, id: u32, bytes: Seq<u8>)
    ensures
        blobs.insert(id, bytes).contains_key(id),
        blobs.insert(id, bytes)[id] == bytes,
        forall|other: u32|
            other != id && blobs.contains_key(other) ==> #[trigger] blobs.insert(id, bytes)[other]
                == blobs[other],
{
}

} // verus!
