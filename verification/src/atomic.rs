//! Atomic commits: a list of property writes that is checked as a whole and
//! applied as a whole.
use crate::flip_events::DRM_MODE_PAGE_FLIP_EVENT;
use crate::kms_props::{
    DRM_CONNECTOR_ID, DRM_CRTC_ID, DRM_CURSOR_PLANE_ID, DRM_PLANE_ID, PROP_ACTIVE,
    PROP_CONN_CRTC_ID, PROP_CRTC_H, PROP_CRTC_W, PROP_CRTC_X, PROP_CRTC_Y, PROP_FB_DAMAGE_CLIPS,
    PROP_FB_ID, PROP_MODE_ID, PROP_PLANE_CRTC_ID, PROP_SRC_H, PROP_SRC_W, PROP_SRC_X, PROP_SRC_Y,
    PROP_TYPE,
};
use crate::prop_blobs::{clips_of, Clip, PropBlobs};
use crate::DriverError;
use vstd::prelude::*;

verus! {

pub const DRM_MODE_ATOMIC_TEST_ONLY: u32 = 0x0100;

pub const DRM_MODE_ATOMIC_ALLOW_MODESET: u32 = 0x0400;

/// The most objects a commit can name.
pub const MAX_ATOMIC_OBJS: u32 = 64;

/// The most properties a commit can write.
pub const MAX_ATOMIC_PROPS: u64 = 1024;

/// What a commit asks of one plane. A field is `None` if the commit did not
/// mention the property: unchanged, not zero.
#[derive(Debug, Clone, Copy, PartialEq, Eq, Structural)]
pub struct AtomicPlaneReq {
    pub crtc_id: Option<u32>,
    pub fb_id: Option<u32>,
    pub src_x: Option<u32>,
    pub src_y: Option<u32>,
    pub src_w: Option<u32>,
    pub src_h: Option<u32>,
    pub crtc_x: Option<i32>,
    pub crtc_y: Option<i32>,
    pub crtc_w: Option<u32>,
    pub crtc_h: Option<u32>,
    pub damage_blob: Option<u32>,
}

impl AtomicPlaneReq {
    /// Nothing is asked.
    pub open spec fn none() -> Self {
        AtomicPlaneReq {
            crtc_id: None,
            fb_id: None,
            src_x: None,
            src_y: None,
            src_w: None,
            src_h: None,
            crtc_x: None,
            crtc_y: None,
            crtc_w: None,
            crtc_h: None,
            damage_blob: None,
        }
    }

    /// Nothing is asked.
    pub fn new() -> (r: Self)
        ensures
            r == AtomicPlaneReq::none(),
    {
        AtomicPlaneReq {
            crtc_id: None,
            fb_id: None,
            src_x: None,
            src_y: None,
            src_w: None,
            src_h: None,
            crtc_x: None,
            crtc_y: None,
            crtc_w: None,
            crtc_h: None,
            damage_blob: None,
        }
    }

    /// The request with property `pid` written; none if a plane has no such
    /// property. The source rectangle is in 16.16 fixed point; the type of a
    /// plane cannot be written, and a write to it is passed over.
    pub open spec fn with(self, pid: u32, val: u64) -> Option<AtomicPlaneReq> {
        if pid == PROP_TYPE {
            Some(self)
        } else if pid == PROP_PLANE_CRTC_ID {
            Some(AtomicPlaneReq { crtc_id: Some(val as u32), ..self })
        } else if pid == PROP_FB_ID {
            Some(AtomicPlaneReq { fb_id: Some(val as u32), ..self })
        } else if pid == PROP_SRC_X {
            Some(AtomicPlaneReq { src_x: Some((val / 65536) as u32), ..self })
        } else if pid == PROP_SRC_Y {
            Some(AtomicPlaneReq { src_y: Some((val / 65536) as u32), ..self })
        } else if pid == PROP_SRC_W {
            Some(AtomicPlaneReq { src_w: Some((val / 65536) as u32), ..self })
        } else if pid == PROP_SRC_H {
            Some(AtomicPlaneReq { src_h: Some((val / 65536) as u32), ..self })
        } else if pid == PROP_CRTC_X {
            Some(AtomicPlaneReq { crtc_x: Some(val as i32), ..self })
        } else if pid == PROP_CRTC_Y {
            Some(AtomicPlaneReq { crtc_y: Some(val as i32), ..self })
        } else if pid == PROP_CRTC_W {
            Some(AtomicPlaneReq { crtc_w: Some(val as u32), ..self })
        } else if pid == PROP_CRTC_H {
            Some(AtomicPlaneReq { crtc_h: Some(val as u32), ..self })
        } else if pid == PROP_FB_DAMAGE_CLIPS {
            Some(AtomicPlaneReq { damage_blob: Some(val as u32), ..self })
        } else {
            None
        }
    }

    /// Writes property `pid`; false if a plane has no such property.
    fn write(&mut self, pid: u32, val: u64) -> (ok: bool)
        ensures
            ok == old(self).with(pid, val) is Some,
            ok ==> old(self).with(pid, val) == Some(*final(self)),
            !ok ==> *final(self) == *old(self),
    {
        match pid {
            PROP_TYPE => {},
            PROP_PLANE_CRTC_ID => {
                self.crtc_id = Some(val as u32);
            },
            PROP_FB_ID => {
                self.fb_id = Some(val as u32);
            },
            PROP_SRC_X => {
                self.src_x = Some((val / 65536) as u32);
            },
            PROP_SRC_Y => {
                self.src_y = Some((val / 65536) as u32);
            },
            PROP_SRC_W => {
                self.src_w = Some((val / 65536) as u32);
            },
            PROP_SRC_H => {
                self.src_h = Some((val / 65536) as u32);
            },
            PROP_CRTC_X => {
                self.crtc_x = Some(val as i32);
            },
            PROP_CRTC_Y => {
                self.crtc_y = Some(val as i32);
            },
            PROP_CRTC_W => {
                self.crtc_w = Some(val as u32);
            },
            PROP_CRTC_H => {
                self.crtc_h = Some(val as u32);
            },
            PROP_FB_DAMAGE_CLIPS => {
                self.damage_blob = Some(val as u32);
            },
            _ => {
                return false;
            },
        }
        true
    }
}

/// What a commit asks of every object.
#[derive(Debug, Clone, Copy, PartialEq, Eq, Structural)]
pub struct AtomicRequest {
    pub primary: AtomicPlaneReq,
    pub cursor: AtomicPlaneReq,
    /// The crtc is to be switched on or off.
    pub active: Option<u64>,
    /// The blob of the mode to set.
    pub mode: Option<u64>,
    /// The crtc of the connector.
    pub conn_crtc: Option<u64>,
}

impl AtomicRequest {
    /// Nothing is asked.
    pub open spec fn none() -> Self {
        AtomicRequest {
            primary: AtomicPlaneReq::none(),
            cursor: AtomicPlaneReq::none(),
            active: None,
            mode: None,
            conn_crtc: None,
        }
    }

    /// The request with property `pid` of object `obj` written; none if the
    /// object has no such property. Crtc and connector share an id: the
    /// property tells which is meant.
    pub open spec fn with(self, obj: u32, pid: u32, val: u64) -> Option<AtomicRequest> {
        if pid == PROP_ACTIVE {
            if obj == DRM_CRTC_ID {
                Some(AtomicRequest { active: Some(val), ..self })
            } else {
                None
            }
        } else if pid == PROP_MODE_ID {
            if obj == DRM_CRTC_ID {
                Some(AtomicRequest { mode: Some(val), ..self })
            } else {
                None
            }
        } else if pid == PROP_CONN_CRTC_ID {
            if obj == DRM_CONNECTOR_ID {
                Some(AtomicRequest { conn_crtc: Some(val), ..self })
            } else {
                None
            }
        } else if obj == DRM_PLANE_ID {
            match self.primary.with(pid, val) {
                Some(p) => Some(AtomicRequest { primary: p, ..self }),
                None => None,
            }
        } else if obj == DRM_CURSOR_PLANE_ID {
            match self.cursor.with(pid, val) {
                Some(p) => Some(AtomicRequest { cursor: p, ..self }),
                None => None,
            }
        } else {
            None
        }
    }

    /// Writes property `pid` of object `obj`; false if it has no such property.
    fn write(&mut self, obj: u32, pid: u32, val: u64) -> (ok: bool)
        ensures
            ok == old(self).with(obj, pid, val) is Some,
            ok ==> old(self).with(obj, pid, val) == Some(*final(self)),
    {
        if pid == PROP_ACTIVE {
            if obj != DRM_CRTC_ID {
                return false;
            }
            self.active = Some(val);
        } else if pid == PROP_MODE_ID {
            if obj != DRM_CRTC_ID {
                return false;
            }
            self.mode = Some(val);
        } else if pid == PROP_CONN_CRTC_ID {
            if obj != DRM_CONNECTOR_ID {
                return false;
            }
            self.conn_crtc = Some(val);
        } else if obj == DRM_PLANE_ID {
            let mut p = self.primary;
            if !p.write(pid, val) {
                return false;
            }
            self.primary = p;
        } else if obj == DRM_CURSOR_PLANE_ID {
            let mut p = self.cursor;
            if !p.write(pid, val) {
                return false;
            }
            self.cursor = p;
        } else {
            return false;
        }
        true
    }
}

/// How many properties the first `n` objects of a commit write together.
pub open spec fn count_sum(counts: Seq<u32>, n: int) -> int
    decreases n,
{
    if n <= 0 {
        0
    } else {
        count_sum(counts, n - 1) + counts[n - 1]
    }
}

/// Object `i` of a commit with its first `k` properties written on top of
/// `req`: its properties start behind those of the objects before it.
pub open spec fn fold_object(
    req: Option<AtomicRequest>,
    obj: u32,
    pids: Seq<u32>,
    vals: Seq<u64>,
    start: int,
    k: int,
) -> Option<AtomicRequest>
    decreases k,
{
    if k <= 0 {
        req
    } else {
        match fold_object(req, obj, pids, vals, start, k - 1) {
            Some(r) => r.with(obj, pids[start + k - 1], vals[start + k - 1]),
            None => None,
        }
    }
}

/// What the first `n` objects of a commit ask for together; none if one of them
/// has no such property.
pub open spec fn fold(
    objs: Seq<u32>,
    counts: Seq<u32>,
    pids: Seq<u32>,
    vals: Seq<u64>,
    n: int,
) -> Option<AtomicRequest>
    decreases n,
{
    if n <= 0 {
        Some(AtomicRequest::none())
    } else {
        fold_object(
            fold(objs, counts, pids, vals, n - 1),
            objs[n - 1],
            pids,
            vals,
            count_sum(counts, n - 1),
            counts[n - 1] as int,
        )
    }
}

/// An object that cannot be written stays so.
proof fn lemma_fold_object_none(obj: u32, pids: Seq<u32>, vals: Seq<u64>, start: int, k: int)
    ensures
        fold_object(None, obj, pids, vals, start, k) is None,
    decreases k,
{
    if k > 0 {
        lemma_fold_object_none(obj, pids, vals, start, k - 1);
    }
}

/// Once a write within an object fails, the object fails.
proof fn lemma_fold_object_stuck(
    req: Option<AtomicRequest>,
    obj: u32,
    pids: Seq<u32>,
    vals: Seq<u64>,
    start: int,
    j: int,
    k: int,
)
    requires
        0 <= j <= k,
        fold_object(req, obj, pids, vals, start, j) is None,
    ensures
        fold_object(req, obj, pids, vals, start, k) is None,
    decreases k,
{
    if j < k {
        lemma_fold_object_stuck(req, obj, pids, vals, start, j, k - 1);
    }
}

/// Once an object fails, the commit fails.
proof fn lemma_fold_stuck(
    objs: Seq<u32>,
    counts: Seq<u32>,
    pids: Seq<u32>,
    vals: Seq<u64>,
    i: int,
    n: int,
)
    requires
        0 <= i <= n,
        fold(objs, counts, pids, vals, i) is None,
    ensures
        fold(objs, counts, pids, vals, n) is None,
    decreases n,
{
    if i < n {
        lemma_fold_stuck(objs, counts, pids, vals, i, n - 1);
        lemma_fold_object_none(
            objs[n - 1],
            pids,
            vals,
            count_sum(counts, n - 1),
            counts[n - 1] as int,
        );
    }
}

/// The sums of the counts grow.
proof fn lemma_count_sum_grows(counts: Seq<u32>, i: int, n: int)
    requires
        0 <= i <= n,
    ensures
        0 <= count_sum(counts, i) <= count_sum(counts, n),
    decreases n,
{
    if i < n {
        lemma_count_sum_grows(counts, i, n - 1);
    } else if 0 < n {
        lemma_count_sum_grows(counts, n - 1, n - 1);
    }
}

/// Folds the flat list of properties into one request.
pub fn fold_request(objs: &Vec<u32>, counts: &Vec<u32>, pids: &Vec<u32>, vals: &Vec<u64>) -> (r:
    Option<AtomicRequest>)
    requires
        objs.len() == counts.len(),
        pids.len() == vals.len(),
        count_sum(counts@, counts.len() as int) == pids.len(),
    ensures
        r == fold(objs@, counts@, pids@, vals@, objs.len() as int),
{
    let mut req = AtomicRequest {
        primary: AtomicPlaneReq::new(),
        cursor: AtomicPlaneReq::new(),
        active: None,
        mode: None,
        conn_crtc: None,
    };
    let mut k: usize = 0;
    let mut i: usize = 0;
    while i < objs.len()
        invariant
            i <= objs.len(),
            objs.len() == counts.len(),
            pids.len() == vals.len(),
            count_sum(counts@, counts.len() as int) == pids.len(),
            k == count_sum(counts@, i as int),
            fold(objs@, counts@, pids@, vals@, i as int) == Some(req),
        decreases objs.len() - i,
    {
        let obj = objs[i];
        let n = counts[i];
        let mut j: u32 = 0;
        let ghost start = k as int;
        let ghost before = Some(req);
        proof {
            lemma_count_sum_grows(counts@, i + 1, counts.len() as int);
        }
        while j < n
            invariant
                i < objs.len(),
                objs.len() == counts.len(),
                pids.len() == vals.len(),
                obj == objs@[i as int],
                n == counts@[i as int],
                j <= n,
                k == start + j,
                start == count_sum(counts@, i as int),
                start + n <= pids.len(),
                before == fold(objs@, counts@, pids@, vals@, i as int),
                fold_object(before, obj, pids@, vals@, start, j as int) == Some(req),
            decreases n - j,
        {
            if !req.write(obj, pids[k], vals[k]) {
                proof {
                    assert(fold_object(before, obj, pids@, vals@, start, j + 1) is None);
                    lemma_fold_object_stuck(before, obj, pids@, vals@, start, j + 1, n as int);
                    lemma_fold_stuck(objs@, counts@, pids@, vals@, i + 1, objs.len() as int);
                }
                return None;
            }
            k += 1;
            j += 1;
        }
        i += 1;
    }
    Some(req)
}

/// How a commit request starts.
#[derive(Debug, Clone, Copy, PartialEq, Eq, Structural)]
pub enum AtomicHead {
    /// It names no object: nothing to do.
    Empty,
    /// It cannot be read.
    Malformed,
    /// The object and count arrays are to be read.
    Read,
}

/// Looks at the head of a commit request.
pub fn atomic_head(count_objs: u32, objs_ptr: u64, counts_ptr: u64) -> (r: AtomicHead)
    ensures
        r == (if count_objs == 0 {
            AtomicHead::Empty
        } else if count_objs > MAX_ATOMIC_OBJS || objs_ptr == 0 || counts_ptr == 0 {
            AtomicHead::Malformed
        } else {
            AtomicHead::Read
        }),
{
    if count_objs == 0 {
        AtomicHead::Empty
    } else if count_objs > MAX_ATOMIC_OBJS || objs_ptr == 0 || counts_ptr == 0 {
        AtomicHead::Malformed
    } else {
        AtomicHead::Read
    }
}

/// How many properties a commit writes in all, if their arrays can be read.
pub fn atomic_total(counts: &Vec<u32>, props_ptr: u64, vals_ptr: u64) -> (r: Result<
    u64,
    DriverError,
>)
    ensures
        ({
            let total = count_sum(counts@, counts.len() as int);
            r == (if total > MAX_ATOMIC_PROPS || (total > 0 && (props_ptr == 0 || vals_ptr == 0)) {
                Err(DriverError::InvalidParameter)
            } else {
                Ok(total as u64)
            })
        }),
{
    let mut total: u64 = 0;
    let mut i: usize = 0;
    while i < counts.len()
        invariant
            i <= counts.len(),
            total == (if count_sum(counts@, i as int) <= u64::MAX {
                count_sum(counts@, i as int)
            } else {
                u64::MAX as int
            }),
            count_sum(counts@, i as int) >= 0,
        decreases counts.len() - i,
    {
        total = total.saturating_add(counts[i] as u64);
        i += 1;
    }
    if total > MAX_ATOMIC_PROPS {
        return Err(DriverError::InvalidParameter);
    }
    if total > 0 && (props_ptr == 0 || vals_ptr == 0) {
        return Err(DriverError::InvalidParameter);
    }
    Ok(total)
}

/// The committed state of the display pipe.
#[derive(Debug, Clone, Copy, PartialEq, Eq, Structural)]
pub struct PipeState {
    /// Whether the crtc is on.
    pub crtc_active: u32,
    /// The blob of its mode.
    pub crtc_mode_blob: u32,
    /// The crtc of the connector.
    pub conn_crtc: u32,
    /// The framebuffer that was last presented on the primary plane.
    pub last_primary_fb: u32,
    /// The damage clips it was presented with.
    pub last_primary_damage: u32,
    /// The framebuffer whose pixels the host cursor holds.
    pub last_cursor_fb: u32,
}

/// The request changes what is displayed where.
pub open spec fn changes_modeset(s: PipeState, r: AtomicRequest) -> bool {
    ||| r.active matches Some(v) && v != s.crtc_active
    ||| r.mode matches Some(v) && v != s.crtc_mode_blob
    ||| r.conn_crtc matches Some(v) && v != s.conn_crtc
}

/// The request can be committed: it changes the mode only if it may, and the
/// mode it names exists.
pub open spec fn commit_ok(
    s: PipeState,
    blobs: Map<u32, Seq<u8>>,
    flags: u32,
    r: AtomicRequest,
) -> bool {
    &&& changes_modeset(s, r) ==> flags & DRM_MODE_ATOMIC_ALLOW_MODESET != 0
    &&& r.mode matches Some(v) ==> (v != 0 ==> blobs.contains_key(v as u32))
}

/// The pipe with the mode of the request set.
pub open spec fn set_mode(s: PipeState, r: AtomicRequest) -> PipeState {
    PipeState {
        crtc_active: match r.active {
            Some(v) => v as u32,
            None => s.crtc_active,
        },
        crtc_mode_blob: match r.mode {
            Some(v) => v as u32,
            None => s.crtc_mode_blob,
        },
        conn_crtc: match r.conn_crtc {
            Some(v) => v as u32,
            None => s.conn_crtc,
        },
        ..s
    }
}

/// What is to be done for the primary plane.
#[derive(Debug)]
pub enum Present {
    /// The commit does not name a framebuffer for it.
    Nothing,
    /// The commit repeats the last one: there is nothing new to show.
    Unchanged,
    /// These parts of the framebuffer changed.
    Damaged(u32, Vec<Clip>),
    /// The whole framebuffer is to be shown.
    Full(u32),
}

/// The damage clips that a request names, 0 for none.
pub open spec fn damage_of(r: AtomicRequest) -> u32 {
    match r.primary.damage_blob {
        Some(b) => b,
        None => 0,
    }
}

/// `p` is what the request asks of the primary plane. A change of mode repaints
/// everything; a framebuffer that comes again with the same clip list has
/// nothing new in it.
pub open spec fn is_present(
    s: PipeState,
    blobs: Map<u32, Seq<u8>>,
    r: AtomicRequest,
    p: Present,
) -> bool {
    match r.primary.fb_id {
        None => p is Nothing,
        Some(fb) => {
            let full = changes_modeset(s, r) || r.mode is Some;
            let blob = damage_of(r);
            if fb == 0 {
                p is Nothing
            } else if !full && blob != 0 && fb == s.last_primary_fb && blob
                == s.last_primary_damage {
                p is Unchanged
            } else if !full && clips_of(blobs, blob) is Some {
                p matches Present::Damaged(f, clips) && f == fb && clips_of(blobs, blob) == Some(
                    clips@,
                )
            } else {
                p == Present::Full(fb)
            }
        },
    }
}

/// What a commit that passed every check asks for.
#[derive(Debug)]
pub struct AtomicPlan {
    /// The commit was only to be checked.
    pub test_only: bool,
    pub present: Present,
    pub request: AtomicRequest,
    /// A completion event is owed.
    pub event: bool,
}

/// Checks a commit and, unless it is only to be checked, sets its mode. What is
/// left to do is in the plan. A commit that is refused, or only checked, changes
/// nothing.
pub fn std_handle_atomic(
    pipe: &mut PipeState,
    blobs: &PropBlobs,
    flags: u32,
    objs: &Vec<u32>,
    counts: &Vec<u32>,
    pids: &Vec<u32>,
    vals: &Vec<u64>,
) -> (r: Result<AtomicPlan, DriverError>)
    requires
        objs.len() == counts.len(),
        pids.len() == vals.len(),
        count_sum(counts@, counts.len() as int) == pids.len(),
    ensures
        ({
            let request = fold(objs@, counts@, pids@, vals@, objs.len() as int);
            let test = flags & DRM_MODE_ATOMIC_TEST_ONLY != 0;
            match r {
                Ok(plan) => {
                    &&& request == Some(plan.request)
                    &&& commit_ok(*old(pipe), blobs@, flags, plan.request)
                    &&& plan.test_only == test
                    &&& *final(pipe) == (if test {
                        *old(pipe)
                    } else {
                        set_mode(*old(pipe), plan.request)
                    })
                    &&& if test {
                        plan.present is Nothing && !plan.event
                    } else {
                        is_present(*old(pipe), blobs@, plan.request, plan.present) && plan.event
                            == (flags & DRM_MODE_PAGE_FLIP_EVENT != 0)
                    }
                },
                Err(e) => {
                    &&& e == DriverError::InvalidParameter
                    &&& *final(pipe) == *old(pipe)
                    &&& request matches Some(q) ==> !commit_ok(*old(pipe), blobs@, flags, q)
                },
            }
        }),
{
    let req = match fold_request(objs, counts, pids, vals) {
        Some(q) => q,
        None => {
            return Err(DriverError::InvalidParameter);
        },
    };
    let allow_modeset = flags & DRM_MODE_ATOMIC_ALLOW_MODESET != 0;
    let test_only = flags & DRM_MODE_ATOMIC_TEST_ONLY != 0;
    let new_active = match req.active {
        Some(v) => v != pipe.crtc_active as u64,
        None => false,
    };
    let new_mode = match req.mode {
        Some(v) => v != pipe.crtc_mode_blob as u64,
        None => false,
    };
    let new_conn = match req.conn_crtc {
        Some(v) => v != pipe.conn_crtc as u64,
        None => false,
    };
    let modeset = new_active || new_mode || new_conn;
    if modeset && !allow_modeset {
        return Err(DriverError::InvalidParameter);
    }
    if let Some(mode) = req.mode {
        if mode != 0 && !blobs.contains(mode as u32) {
            return Err(DriverError::InvalidParameter);
        }
    }
    if test_only {
        return Ok(
            AtomicPlan { test_only, present: Present::Nothing, request: req, event: false },
        );
    }
    let present = match req.primary.fb_id {
        Some(fb_id) => {
            if fb_id == 0 {
                Present::Nothing
            } else {
                let blob: u32 = match req.primary.damage_blob {
                    Some(b) => b,
                    None => 0,
                };
                let full_repaint = modeset || req.mode.is_some();
                if !full_repaint && blob != 0 && fb_id == pipe.last_primary_fb && blob
                    == pipe.last_primary_damage {
                    Present::Unchanged
                } else if full_repaint {
                    Present::Full(fb_id)
                } else {
                    match blobs.damage_rects(blob) {
                        Some(clips) => Present::Damaged(fb_id, clips),
                        None => Present::Full(fb_id),
                    }
                }
            }
        },
        None => Present::Nothing,
    };
    if let Some(v) = req.active {
        pipe.crtc_active = v as u32;
    }
    if let Some(v) = req.mode {
        pipe.crtc_mode_blob = v as u32;
    }
    if let Some(v) = req.conn_crtc {
        pipe.conn_crtc = v as u32;
    }
    Ok(
        AtomicPlan {
            test_only,
            present,
            request: req,
            event: flags & DRM_MODE_PAGE_FLIP_EVENT != 0,
        },
    )
}

/// The pipe once the primary plane of a request was dealt with.
pub open spec fn after_present(s: PipeState, test_only: bool, r: AtomicRequest) -> PipeState {
    match r.primary.fb_id {
        Some(fb) => if fb != 0 && !test_only {
            PipeState { last_primary_fb: fb, last_primary_damage: damage_of(r), ..s }
        } else {
            s
        },
        None => s,
    }
}

/// The primary plane was dealt with: remembers what it shows.
pub fn atomic_presented(pipe: &mut PipeState, plan: &AtomicPlan)
    ensures
        *final(pipe) == after_present(*old(pipe), plan.test_only, plan.request),
{
    if plan.test_only {
        return;
    }
    if let Some(fb) = plan.request.primary.fb_id {
        if fb != 0 {
            pipe.last_primary_fb = fb;
            pipe.last_primary_damage = match plan.request.primary.damage_blob {
                Some(b) => b,
                None => 0,
            };
        }
    }
}

/// What is to be done for the cursor plane.
#[derive(Debug, Clone, Copy, PartialEq, Eq, Structural)]
pub enum CursorAction {
    Nothing,
    Hide,
    /// The pixels of this framebuffer are to be uploaded and shown here.
    Upload(u32, u32, u32),
    /// The cursor moves here; its pixels stay.
    Move(u32, u32),
}

/// Not below zero.
pub open spec fn clamp0(v: Option<i32>) -> u32 {
    match v {
        Some(v) => if v > 0 {
            v as u32
        } else {
            0
        },
        None => 0,
    }
}

/// A coordinate that is not below zero; absent means zero.
fn coordinate(v: Option<i32>) -> (r: u32)
    ensures
        r == clamp0(v),
{
    match v {
        Some(v) => if v > 0 {
            v as u32
        } else {
            0
        },
        None => 0,
    }
}

/// What a request asks of the cursor plane.
pub open spec fn cursor_action(s: PipeState, req: AtomicPlaneReq) -> CursorAction {
    let x = clamp0(req.crtc_x);
    let y = clamp0(req.crtc_y);
    if req.crtc_id == Some(0u32) || req.fb_id == Some(0u32) {
        CursorAction::Hide
    } else if req.fb_id matches Some(fb) && fb != s.last_cursor_fb {
        CursorAction::Upload(req.fb_id->Some_0, x, y)
    } else if req.crtc_x is Some || req.crtc_y is Some {
        CursorAction::Move(x, y)
    } else {
        CursorAction::Nothing
    }
}

/// The pipe once the cursor plane of a request was dealt with: a cursor that is taken
/// away leaves no pixels on the host.
pub open spec fn after_cursor(s: PipeState, req: AtomicPlaneReq) -> PipeState {
    if req.crtc_id == Some(0u32) || req.fb_id == Some(0u32) {
        PipeState { last_cursor_fb: 0, ..s }
    } else {
        s
    }
}

/// The pipe once the host took the pixels of a cursor framebuffer, or did not.
pub open spec fn after_upload(s: PipeState, fb_id: u32, taken: bool) -> PipeState {
    if taken {
        PipeState { last_cursor_fb: fb_id, ..s }
    } else {
        s
    }
}

/// How many bytes of a framebuffer are uploaded as cursor.
pub open spec fn upload_bytes(phys: u64, width: u32, height: u32) -> Option<u64> {
    if phys == 0 {
        None
    } else if width * height * 4 <= CURSOR_BYTES {
        Some((width * height * 4) as u64)
    } else {
        Some(CURSOR_BYTES)
    }
}

/// Applies the cursor plane's share of a commit. Pixels move only if the commit
/// names another framebuffer; a commit that only places the cursor moves it.
pub fn commit_cursor_plane(pipe: &mut PipeState, req: &AtomicPlaneReq) -> (r: CursorAction)
    ensures
        ({
            &&& r == cursor_action(*old(pipe), *req)
            &&& *final(pipe) == after_cursor(*old(pipe), *req)
        }),
{
    let no_crtc = match req.crtc_id {
        Some(c) => c == 0,
        None => false,
    };
    let no_fb = match req.fb_id {
        Some(f) => f == 0,
        None => false,
    };
    if no_crtc || no_fb {
        pipe.last_cursor_fb = 0;
        return CursorAction::Hide;
    }
    let x = coordinate(req.crtc_x);
    let y = coordinate(req.crtc_y);
    if let Some(fb) = req.fb_id {
        if fb != pipe.last_cursor_fb {
            return CursorAction::Upload(fb, x, y);
        }
    }
    if req.crtc_x.is_some() || req.crtc_y.is_some() {
        return CursorAction::Move(x, y);
    }
    CursorAction::Nothing
}

/// The most bytes of a cursor image: 64 by 64 pixels.
pub const CURSOR_BYTES: u64 = 16384;

/// How many bytes of a framebuffer are uploaded as cursor; none if it has no
/// pages behind it.
pub fn cursor_upload_bytes(phys: u64, width: u32, height: u32) -> (r: Option<u64>)
    ensures
        r == upload_bytes(phys, width, height),
{
    if phys == 0 {
        return None;
    }
    assert(width * height <= 0xffff_ffff * 0xffff_ffff) by (nonlinear_arith)
        requires
            width <= 0xffff_ffff,
            height <= 0xffff_ffff,
    ;
    let pixels: u64 = width as u64 * height as u64;
    if pixels <= CURSOR_BYTES / 4 {
        Some(pixels * 4)
    } else {
        Some(CURSOR_BYTES)
    }
}

/// The host took the pixels of a cursor framebuffer, or did not.
pub fn cursor_uploaded(pipe: &mut PipeState, fb_id: u32, taken: bool)
    ensures
        *final(pipe) == after_upload(*old(pipe), fb_id, taken),
{
    if taken {
        pipe.last_cursor_fb = fb_id;
    }
}

/// Committing the same mode again needs no permission: once a mode is set, a
/// request that repeats it changes nothing.
pub proof fn lemma_same_mode_is_no_modeset(s: PipeState, r: AtomicRequest)
    requires
        r.active matches Some(v) ==> v <= u32::MAX,
        r.mode matches Some(v) ==> v <= u32::MAX,
        r.conn_crtc matches Some(v) ==> v <= u32::MAX,
    ensures
        !changes_modeset(set_mode(s, r), r),
{
}

} // verus!
