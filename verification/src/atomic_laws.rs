//! What a commit asks for, told from the list of its property writes.
use crate::atomic::{
    after_cursor, after_present, after_upload, upload_bytes,
    changes_modeset, commit_ok, count_sum, cursor_action, fold, fold_object, is_present, set_mode,
    AtomicPlaneReq, AtomicRequest, CursorAction, PipeState, Present,
};
use crate::kms_props::{name_of, props_of, value_of};
use crate::prop_blobs::clips_of;
use vstd::prelude::*;

verus! {

/// A plane's properties by number go by these names.
pub proof fn lemma_plane_properties_have_their_names()
    ensures
        name_of(40) == "type"@,
        name_of(41) == "CRTC_ID"@,
        name_of(42) == "FB_ID"@,
        name_of(43) == "SRC_X"@,
        name_of(44) == "SRC_Y"@,
        name_of(45) == "SRC_W"@,
        name_of(46) == "SRC_H"@,
        name_of(47) == "CRTC_X"@,
        name_of(48) == "CRTC_Y"@,
        name_of(49) == "CRTC_W"@,
        name_of(50) == "CRTC_H"@,
        name_of(51) == "FB_DAMAGE_CLIPS"@,
        name_of(60) == "ACTIVE"@,
        name_of(61) == "MODE_ID"@,
        name_of(70) == "CRTC_ID"@,
{
}

/// A number that may be absent.
pub open spec fn number<T>(v: Option<T>, n: spec_fn(T) -> int) -> Option<int> {
    match v {
        Some(v) => Some(n(v)),
        None => None,
    }
}

/// What a request asks of a plane's property, by the property's number.
pub open spec fn asked_of_plane(p: AtomicPlaneReq, pid: u32) -> Option<int> {
    let word = |v: u32| v as int;
    let place = |v: i32| v as int;
    if pid == 41 {
        number(p.crtc_id, word)
    } else if pid == 42 {
        number(p.fb_id, word)
    } else if pid == 43 {
        number(p.src_x, word)
    } else if pid == 44 {
        number(p.src_y, word)
    } else if pid == 45 {
        number(p.src_w, word)
    } else if pid == 46 {
        number(p.src_h, word)
    } else if pid == 47 {
        number(p.crtc_x, place)
    } else if pid == 48 {
        number(p.crtc_y, place)
    } else if pid == 49 {
        number(p.crtc_w, word)
    } else if pid == 50 {
        number(p.crtc_h, word)
    } else {
        number(p.damage_blob, word)
    }
}

/// What a request asks of a property of an object: the primary plane is object 30,
/// the cursor plane 31, and 1 is the crtc and the connector.
#[verifier::opaque]
pub open spec fn asked(r: AtomicRequest, obj: u32, pid: u32) -> Option<int> {
    let long = |v: u64| v as int;
    if obj == 30 {
        asked_of_plane(r.primary, pid)
    } else if obj == 31 {
        asked_of_plane(r.cursor, pid)
    } else if pid == 60 {
        number(r.active, long)
    } else if pid == 61 {
        number(r.mode, long)
    } else {
        number(r.conn_crtc, long)
    }
}

/// Property `pid` of object `obj` holds a value.
pub open spec fn holds_value(obj: u32, pid: u32) -> bool {
    ||| (obj == 30 || obj == 31) && 41 <= pid <= 51
    ||| obj == 1 && (pid == 60 || pid == 61 || pid == 70)
}

/// Property `pid` of object `obj` can be named by a commit: the type of a plane can
/// be, though it holds no value that a commit changes.
pub open spec fn known(obj: u32, pid: u32) -> bool {
    holds_value(obj, pid) || ((obj == 30 || obj == 31) && pid == 40)
}

/// What the word `val` says when it is written to property `pid`: places on the
/// screen are signed words, the source rectangle has sixteen bits of fraction, the
/// rest of a plane's properties are words, and crtc and connector take it whole.
#[verifier::opaque]
pub open spec fn meaning(pid: u32, val: u64) -> int {
    let low = val as int % 0x1_0000_0000;
    if pid == 47 || pid == 48 {
        if low < 0x8000_0000 {
            low
        } else {
            low - 0x1_0000_0000
        }
    } else if 43 <= pid <= 46 {
        val as int / 65536 % 0x1_0000_0000
    } else if pid <= 51 {
        low
    } else {
        val as int
    }
}

/// Write number `k` of a commit belongs to the `i`th object it names, and writes
/// property `pid` of object `obj`.
pub open spec fn writes(
    objs: Seq<u32>,
    counts: Seq<u32>,
    pids: Seq<u32>,
    i: int,
    k: int,
    obj: u32,
    pid: u32,
) -> bool {
    &&& 0 <= i < objs.len()
    &&& count_sum(counts, i) <= k < count_sum(counts, i + 1)
    &&& objs[i] == obj
    &&& pids[k] == pid
}

/// How words are cut to size.
proof fn lemma_words(val: u64)
    ensures
        val as u32 == val as int % 0x1_0000_0000,
        (val / 65536) as u32 == val as int / 65536 % 0x1_0000_0000,
        val as i32 == (if val as int % 0x1_0000_0000 < 0x8000_0000 {
            val as int % 0x1_0000_0000
        } else {
            val as int % 0x1_0000_0000 - 0x1_0000_0000
        }),
{
    let high = val / 65536;
    assert(val as u32 == val % 0x1_0000_0000 && high as u32 == high % 0x1_0000_0000) by (bit_vector);
    assert((val % 0x1_0000_0000 < 0x8000_0000 ==> val as i32 == val % 0x1_0000_0000) && (val
        % 0x1_0000_0000 >= 0x8000_0000 ==> val as i32 == val % 0x1_0000_0000 - 0x1_0000_0000))
        by (bit_vector);
}

/// One write changes what it names, and nothing else.
proof fn lemma_one_write(r: AtomicRequest, o: u32, p: u32, val: u64, obj: u32, pid: u32)
    requires
        holds_value(obj, pid),
    ensures
        r.with(o, p, val) is Some <==> known(o, p),
        r.with(o, p, val) matches Some(q) ==> asked(q, obj, pid) == (if o == obj && p == pid {
            Some(meaning(pid, val))
        } else {
            asked(r, obj, pid)
        }),
{
    reveal(asked);
    reveal(meaning);
    lemma_words(val);
}

/// An object can be written exactly if it has every property that is written to it.
proof fn lemma_object_taken(
    before: AtomicRequest,
    o: u32,
    pids: Seq<u32>,
    vals: Seq<u64>,
    start: int,
    n: int,
)
    requires
        0 <= n,
    ensures
        fold_object(Some(before), o, pids, vals, start, n) is Some <==> forall|k: int|
            start <= k < start + n ==> known(o, #[trigger] pids[k]),
    decreases n,
{
    if n > 0 {
        lemma_object_taken(before, o, pids, vals, start, n - 1);
        let last = start + n - 1;
        match fold_object(Some(before), o, pids, vals, start, n - 1) {
            Some(r) => {
                lemma_one_write(r, o, pids[last], vals[last], 1, 60);
            },
            None => {
                let bad = choose|k: int|
                    start <= k < start + n - 1 && !known(o, #[trigger] pids[k]);
                assert(!known(o, pids[bad]));
            },
        }
    }
}

/// The writes of one object leave a property that is not among them.
proof fn lemma_object_keeps(
    before: AtomicRequest,
    o: u32,
    pids: Seq<u32>,
    vals: Seq<u64>,
    start: int,
    n: int,
    obj: u32,
    pid: u32,
)
    requires
        0 <= n,
        holds_value(obj, pid),
        fold_object(Some(before), o, pids, vals, start, n) is Some,
        forall|k: int| start <= k < start + n ==> !(o == obj && #[trigger] pids[k] == pid),
    ensures
        asked(fold_object(Some(before), o, pids, vals, start, n)->Some_0, obj, pid) == asked(
            before,
            obj,
            pid,
        ),
    decreases n,
{
    if n > 0 {
        let last = start + n - 1;
        let r = fold_object(Some(before), o, pids, vals, start, n - 1)->Some_0;
        lemma_object_keeps(before, o, pids, vals, start, n - 1, obj, pid);
        lemma_one_write(r, o, pids[last], vals[last], obj, pid);
    }
}

/// The last of the writes of one object to a property counts.
proof fn lemma_object_last(
    before: AtomicRequest,
    pids: Seq<u32>,
    vals: Seq<u64>,
    start: int,
    n: int,
    obj: u32,
    pid: u32,
    k: int,
)
    requires
        start <= k < start + n,
        holds_value(obj, pid),
        fold_object(Some(before), obj, pids, vals, start, n) is Some,
        pids[k] == pid,
        forall|j: int| k < j < start + n ==> #[trigger] pids[j] != pid,
    ensures
        asked(fold_object(Some(before), obj, pids, vals, start, n)->Some_0, obj, pid) == Some(
            meaning(pid, vals[k]),
        ),
    decreases n,
{
    let last = start + n - 1;
    let r = fold_object(Some(before), obj, pids, vals, start, n - 1)->Some_0;
    lemma_one_write(r, obj, pids[last], vals[last], obj, pid);
    if k < last {
        lemma_object_last(before, pids, vals, start, n - 1, obj, pid, k);
    }
}

/// Of a property that the first `n` objects do not write nothing is asked.
proof fn lemma_unwritten(
    objs: Seq<u32>,
    counts: Seq<u32>,
    pids: Seq<u32>,
    vals: Seq<u64>,
    n: int,
    obj: u32,
    pid: u32,
)
    requires
        0 <= n <= objs.len(),
        holds_value(obj, pid),
        fold(objs, counts, pids, vals, n) is Some,
        forall|i: int, k: int| i < n ==> !#[trigger] writes(objs, counts, pids, i, k, obj, pid),
    ensures
        asked(fold(objs, counts, pids, vals, n)->Some_0, obj, pid) is None,
    decreases n,
{
    if n == 0 {
        reveal(asked);
    } else {
        let start = count_sum(counts, n - 1);
        let c = counts[n - 1] as int;
        let o = objs[n - 1];
        lemma_refused(o, pids, vals, start, c);
        lemma_unwritten(objs, counts, pids, vals, n - 1, obj, pid);
        assert(count_sum(counts, n) == start + c);
        assert forall|k: int| start <= k < start + c implies !(o == obj && #[trigger] pids[k]
            == pid) by {
            assert(!writes(objs, counts, pids, n - 1, k, obj, pid));
        }
        let before = fold(objs, counts, pids, vals, n - 1)->Some_0;
        lemma_object_keeps(before, o, pids, vals, start, c, obj, pid);
    }
}

/// The last of the writes of the first `n` objects to a property counts.
proof fn lemma_last(
    objs: Seq<u32>,
    counts: Seq<u32>,
    pids: Seq<u32>,
    vals: Seq<u64>,
    n: int,
    obj: u32,
    pid: u32,
    i: int,
    k: int,
)
    requires
        0 <= i < n <= objs.len(),
        holds_value(obj, pid),
        fold(objs, counts, pids, vals, n) is Some,
        writes(objs, counts, pids, i, k, obj, pid),
        forall|h: int, j: int|
            h < n && k < j ==> !#[trigger] writes(objs, counts, pids, h, j, obj, pid),
    ensures
        asked(fold(objs, counts, pids, vals, n)->Some_0, obj, pid) == Some(meaning(pid, vals[k])),
    decreases n,
{
    let start = count_sum(counts, n - 1);
    let c = counts[n - 1] as int;
    let o = objs[n - 1];
    let before = fold(objs, counts, pids, vals, n - 1)->Some_0;
    lemma_refused(o, pids, vals, start, c);
    assert(count_sum(counts, n) == start + c);
    assert forall|j: int| start <= j < start + c && k < j implies !(o == obj && #[trigger] pids[j]
        == pid) by {
        assert(!writes(objs, counts, pids, n - 1, j, obj, pid));
    }
    if i == n - 1 {
        lemma_object_last(before, pids, vals, start, c, obj, pid, k);
    } else {
        lemma_sums_grow(counts, i + 1, n - 1);
        lemma_last(objs, counts, pids, vals, n - 1, obj, pid, i, k);
        lemma_object_keeps(before, o, pids, vals, start, c, obj, pid);
    }
}

/// A later object's writes stand behind those of an earlier one.
proof fn lemma_sums_grow(counts: Seq<u32>, i: int, n: int)
    requires
        0 <= i <= n,
    ensures
        count_sum(counts, i) <= count_sum(counts, n),
    decreases n,
{
    if i < n {
        lemma_sums_grow(counts, i, n - 1);
    }
}

/// A commit that has been refused stays refused.
proof fn lemma_refused(o: u32, pids: Seq<u32>, vals: Seq<u64>, start: int, k: int)
    ensures
        fold_object(None, o, pids, vals, start, k) is None,
    decreases k,
{
    if k > 0 {
        lemma_refused(o, pids, vals, start, k - 1);
    }
}

/// The last write to a property counts: in the order in which a commit lists them,
/// whatever it writes elsewhere and however it groups the writes by object.
pub proof fn lemma_the_last_write_counts(
    objs: Seq<u32>,
    counts: Seq<u32>,
    pids: Seq<u32>,
    vals: Seq<u64>,
    obj: u32,
    pid: u32,
    i: int,
    k: int,
)
    requires
        holds_value(obj, pid),
        fold(objs, counts, pids, vals, objs.len() as int) is Some,
        writes(objs, counts, pids, i, k, obj, pid),
        forall|h: int, j: int| k < j ==> !#[trigger] writes(objs, counts, pids, h, j, obj, pid),
    ensures
        asked(fold(objs, counts, pids, vals, objs.len() as int)->Some_0, obj, pid) == Some(
            meaning(pid, vals[k]),
        ),
{
    lemma_last(objs, counts, pids, vals, objs.len() as int, obj, pid, i, k);
}

/// Of a property that a commit does not write it asks nothing.
pub proof fn lemma_what_is_not_written_is_not_asked(
    objs: Seq<u32>,
    counts: Seq<u32>,
    pids: Seq<u32>,
    vals: Seq<u64>,
    obj: u32,
    pid: u32,
)
    requires
        holds_value(obj, pid),
        fold(objs, counts, pids, vals, objs.len() as int) is Some,
        forall|i: int, k: int| !#[trigger] writes(objs, counts, pids, i, k, obj, pid),
    ensures
        asked(fold(objs, counts, pids, vals, objs.len() as int)->Some_0, obj, pid) is None,
{
    lemma_unwritten(objs, counts, pids, vals, objs.len() as int, obj, pid);
}

/// A commit can be read exactly if every object it names has every property that is
/// written to it.
pub proof fn lemma_only_known_properties_are_taken(
    objs: Seq<u32>,
    counts: Seq<u32>,
    pids: Seq<u32>,
    vals: Seq<u64>,
    n: int,
)
    requires
        0 <= n <= objs.len(),
    ensures
        fold(objs, counts, pids, vals, n) is Some <==> forall|i: int, k: int|
            0 <= i < n && count_sum(counts, i) <= k < count_sum(counts, i + 1) ==> known(
                #[trigger] objs[i],
                #[trigger] pids[k],
            ),
    decreases n,
{
    if n > 0 {
        lemma_only_known_properties_are_taken(objs, counts, pids, vals, n - 1);
        let start = count_sum(counts, n - 1);
        let c = counts[n - 1] as int;
        let o = objs[n - 1];
        assert(count_sum(counts, n) == start + c);
        match fold(objs, counts, pids, vals, n - 1) {
            Some(before) => {
                lemma_object_taken(before, o, pids, vals, start, c);
                if fold(objs, counts, pids, vals, n) is None {
                    let bad = choose|k: int|
                        start <= k < start + c && !known(o, #[trigger] pids[k]);
                    assert(!known(objs[n - 1], pids[bad]));
                }
            },
            None => {
                lemma_refused(o, pids, vals, start, c);
                let (i, k) = choose|i: int, k: int|
                    0 <= i < n - 1 && count_sum(counts, i) <= k < count_sum(counts, i + 1)
                        && !known(#[trigger] objs[i], #[trigger] pids[k]);
                assert(!known(objs[i], pids[k]));
            },
        }
    }
}

/// Every property that an object reports can be named by a commit. A plane tells its
/// kind by its type: 1 for the primary one, 2 for the cursor.
pub proof fn lemma_reported_properties_can_be_written(obj: u32, kind: u32, i: int)
    requires
        0 <= i < props_of(obj, kind).len(),
    ensures
        known(obj, props_of(obj, kind)[i]),
        value_of(30, 40) == 1,
        value_of(31, 40) == 2,
{
}

/// Where a coordinate is shown: not left of or above the screen.
pub open spec fn at_least_zero(v: int) -> int {
    if v < 0 {
        0
    } else {
        v
    }
}

/// A property to which the writes of one object never write zero is not asked to be zero.
proof fn lemma_object_never_zero(
    before: AtomicRequest,
    o: u32,
    pids: Seq<u32>,
    vals: Seq<u64>,
    start: int,
    n: int,
    obj: u32,
    pid: u32,
)
    requires
        0 <= n,
        holds_value(obj, pid),
        fold_object(Some(before), o, pids, vals, start, n) is Some,
        asked(before, obj, pid) != Some(0int),
        forall|k: int|
            start <= k < start + n && o == obj && #[trigger] pids[k] == pid ==> meaning(
                pid,
                vals[k],
            ) != 0,
    ensures
        asked(fold_object(Some(before), o, pids, vals, start, n)->Some_0, obj, pid) != Some(0int),
    decreases n,
{
    if n > 0 {
        let last = start + n - 1;
        let r = fold_object(Some(before), o, pids, vals, start, n - 1)->Some_0;
        lemma_object_never_zero(before, o, pids, vals, start, n - 1, obj, pid);
        lemma_one_write(r, o, pids[last], vals[last], obj, pid);
    }
}

/// A property to which zero is never written is not asked to be zero.
proof fn lemma_never_zero(
    objs: Seq<u32>,
    counts: Seq<u32>,
    pids: Seq<u32>,
    vals: Seq<u64>,
    n: int,
    obj: u32,
    pid: u32,
)
    requires
        0 <= n <= objs.len(),
        holds_value(obj, pid),
        fold(objs, counts, pids, vals, n) is Some,
        forall|i: int, k: int| #[trigger]
            writes(objs, counts, pids, i, k, obj, pid) ==> meaning(pid, vals[k]) != 0,
    ensures
        asked(fold(objs, counts, pids, vals, n)->Some_0, obj, pid) != Some(0int),
    decreases n,
{
    if n == 0 {
        reveal(asked);
    } else {
        let start = count_sum(counts, n - 1);
        let c = counts[n - 1] as int;
        let o = objs[n - 1];
        lemma_refused(o, pids, vals, start, c);
        lemma_never_zero(objs, counts, pids, vals, n - 1, obj, pid);
        assert(count_sum(counts, n) == start + c);
        assert forall|k: int|
            start <= k < start + c && o == obj && #[trigger] pids[k] == pid implies meaning(
            pid,
            vals[k],
        ) != 0 by {
            assert(writes(objs, counts, pids, n - 1, k, obj, pid));
        }
        let before = fold(objs, counts, pids, vals, n - 1)->Some_0;
        lemma_object_never_zero(before, o, pids, vals, start, c, obj, pid);
    }
}

/// A commit that shows a framebuffer on the cursor plane, does not take its crtc away,
/// and places it at (`a`, `b`) has the cursor shown there, in whichever order it is said:
/// the pixels are
/// uploaded if they are not on the host yet, and stay if they are.
pub proof fn lemma_the_cursor_goes_where_it_is_put(
    s: PipeState,
    objs: Seq<u32>,
    counts: Seq<u32>,
    pids: Seq<u32>,
    vals: Seq<u64>,
    at_x: (int, int),
    at_y: (int, int),
    at_fb: (int, int),
)
    requires
        fold(objs, counts, pids, vals, objs.len() as int) is Some,
        writes(objs, counts, pids, at_x.0, at_x.1, 31, 47),
        writes(objs, counts, pids, at_y.0, at_y.1, 31, 48),
        writes(objs, counts, pids, at_fb.0, at_fb.1, 31, 42),
        forall|h: int, j: int|
            at_x.1 < j ==> !#[trigger] writes(objs, counts, pids, h, j, 31, 47),
        forall|h: int, j: int|
            at_y.1 < j ==> !#[trigger] writes(objs, counts, pids, h, j, 31, 48),
        forall|h: int, j: int|
            at_fb.1 < j ==> !#[trigger] writes(objs, counts, pids, h, j, 31, 42),
        forall|h: int, j: int| #[trigger]
            writes(objs, counts, pids, h, j, 31, 41) ==> meaning(41, vals[j]) != 0,
        vals[at_x.1] <= i32::MAX,
        vals[at_y.1] <= i32::MAX,
        0 < vals[at_fb.1] <= u32::MAX,
    ensures
        ({
            let r = fold(objs, counts, pids, vals, objs.len() as int)->Some_0;
            let (a, b, fb) = (vals[at_x.1], vals[at_y.1], vals[at_fb.1]);
            match cursor_action(s, r.cursor) {
                CursorAction::Upload(f, x, y) => f == fb && x == a && y == b && fb
                    != s.last_cursor_fb,
                CursorAction::Move(x, y) => x == a && y == b && fb == s.last_cursor_fb,
                _ => false,
            }
        }),
{
    reveal(asked);
    reveal(meaning);
    lemma_the_last_write_counts(objs, counts, pids, vals, 31, 47, at_x.0, at_x.1);
    lemma_the_last_write_counts(objs, counts, pids, vals, 31, 48, at_y.0, at_y.1);
    lemma_the_last_write_counts(objs, counts, pids, vals, 31, 42, at_fb.0, at_fb.1);
    lemma_never_zero(objs, counts, pids, vals, objs.len() as int, 31, 41);
}

/// What becomes of the cursor, told by cases: it is hidden exactly if its crtc or
/// its framebuffer is taken away; pixels travel exactly if another framebuffer is
/// named; otherwise it moves exactly if a coordinate is given. A coordinate that is
/// missing, or off the screen to the left or above, counts as zero.
pub proof fn lemma_the_cursor_plane_by_cases(s: PipeState, r: AtomicPlaneReq)
    ensures
        ({
            let hidden = r.crtc_id == Some(0u32) || r.fb_id == Some(0u32);
            let other = r.fb_id is Some && r.fb_id != Some(s.last_cursor_fb);
            let placed = r.crtc_x is Some || r.crtc_y is Some;
            let a = cursor_action(s, r);
            &&& a is Hide <==> hidden
            &&& a is Upload <==> !hidden && other
            &&& a is Move <==> !hidden && !other && placed
            &&& a matches CursorAction::Upload(fb, x, y) ==> {
                &&& r.fb_id == Some(fb)
                &&& r.crtc_x matches Some(v) ==> x == at_least_zero(v as int)
                &&& r.crtc_y matches Some(v) ==> y == at_least_zero(v as int)
                &&& r.crtc_x is None ==> x == 0
                &&& r.crtc_y is None ==> y == 0
            }
            &&& a matches CursorAction::Move(x, y) ==> {
                &&& r.crtc_x matches Some(v) ==> x == at_least_zero(v as int)
                &&& r.crtc_y matches Some(v) ==> y == at_least_zero(v as int)
                &&& r.crtc_x is None ==> x == 0
                &&& r.crtc_y is None ==> y == 0
            }
        }),
{
}

/// Without the permission to change the mode (bit 10 of the flags) a commit that is
/// taken leaves crtc, mode and connector as they were.
pub proof fn lemma_no_mode_changes_without_permission(
    s: PipeState,
    blobs: Map<u32, Seq<u8>>,
    flags: u32,
    r: AtomicRequest,
)
    requires
        commit_ok(s, blobs, flags, r),
        flags & 0x400 == 0,
    ensures
        set_mode(s, r) == s,
{
}

/// With the permission, a commit that names no mode, mode 0 or a mode that is stored
/// is taken, and one that names a mode that is not stored is not.
pub proof fn lemma_a_mode_has_to_be_stored(
    s: PipeState,
    blobs: Map<u32, Seq<u8>>,
    flags: u32,
    r: AtomicRequest,
)
    requires
        flags & 0x400 != 0,
        r.mode matches Some(v) ==> v <= u32::MAX,
    ensures
        commit_ok(s, blobs, flags, r) <==> (r.mode is None || r.mode == Some(0u64) || exists|m: u32|
            r.mode == Some(m as u64) && #[trigger] blobs.contains_key(m)),
{
    if let Some(v) = r.mode {
        assert(v as u32 as u64 == v);
        if blobs.contains_key(v as u32) {
            assert(r.mode == Some((v as u32) as u64) && blobs.contains_key(v as u32));
        }
    }
}

/// What a commit sets is what reads back, and what it does not mention stays.
pub proof fn lemma_the_mode_that_is_set_reads_back(s: PipeState, r: AtomicRequest)
    requires
        r.active matches Some(v) ==> v <= u32::MAX,
        r.mode matches Some(v) ==> v <= u32::MAX,
        r.conn_crtc matches Some(v) ==> v <= u32::MAX,
    ensures
        ({
            let t = set_mode(s, r);
            &&& r.active matches Some(v) ==> t.crtc_active == v
            &&& r.mode matches Some(v) ==> t.crtc_mode_blob == v
            &&& r.conn_crtc matches Some(v) ==> t.conn_crtc == v
            &&& r.active is None ==> t.crtc_active == s.crtc_active
            &&& r.mode is None ==> t.crtc_mode_blob == s.crtc_mode_blob
            &&& r.conn_crtc is None ==> t.conn_crtc == s.conn_crtc
            &&& t.last_primary_fb == s.last_primary_fb
            &&& t.last_primary_damage == s.last_primary_damage
            &&& t.last_cursor_fb == s.last_cursor_fb
        }),
{
}

/// A framebuffer that is not yet on the screen is shown, and no other one; a commit
/// that names a mode, or none of whose parts are marked as changed, shows all of it.
/// Where parts are marked, those are shown. Only a commit that repeats the framebuffer
/// and the marks of the last one shows nothing new.
pub proof fn lemma_a_new_framebuffer_is_shown(
    s: PipeState,
    blobs: Map<u32, Seq<u8>>,
    r: AtomicRequest,
    p: Present,
)
    requires
        is_present(s, blobs, r, p),
    ensures
        p is Nothing <==> (r.primary.fb_id is None || r.primary.fb_id == Some(0u32)),
        p is Unchanged ==> {
            &&& r.primary.fb_id == Some(s.last_primary_fb)
            &&& r.primary.damage_blob == Some(s.last_primary_damage)
            &&& s.last_primary_damage != 0
            &&& r.mode is None
            &&& set_mode(s, r) == s
        },
        p matches Present::Full(fb) ==> r.primary.fb_id == Some(fb),
        p matches Present::Damaged(fb, _) ==> {
            &&& r.primary.fb_id == Some(fb)
            &&& r.mode is None
            &&& set_mode(s, r) == s
        },
        r.mode is None && set_mode(s, r) == s && !changes_modeset(s, r) && s.last_primary_fb != 0
            && s.last_primary_damage != 0 && r.primary.fb_id == Some(s.last_primary_fb)
            && r.primary.damage_blob == Some(s.last_primary_damage) ==> p is Unchanged,
        p matches Present::Damaged(_, clips) ==> (r.primary.damage_blob matches Some(id) && clips_of(
            blobs,
            id,
        ) == Some(clips@)),
        p !is Nothing && p !is Unchanged && r.mode is None && !changes_modeset(s, r) && (
        r.primary.damage_blob matches Some(id) && clips_of(blobs, id) is Some) ==> p is Damaged,
        p !is Nothing && r.mode is Some ==> p is Full,
        p !is Nothing && changes_modeset(s, r) ==> p is Full,
        p !is Nothing && r.primary.damage_blob is None ==> p is Full,
{
}

/// What was presented is remembered: the same framebuffer with the same marks has
/// nothing new in it, and one without marks, or another one, is shown.
pub proof fn lemma_the_same_frame_is_shown_once(
    s: PipeState,
    blobs: Map<u32, Seq<u8>>,
    r: AtomicRequest,
    q: AtomicRequest,
    p: Present,
)
    requires
        r.primary.fb_id matches Some(fb) && fb != 0,
        q.primary.fb_id matches Some(fb) && fb != 0,
        q.active is None && q.mode is None && q.conn_crtc is None,
        is_present(after_present(s, false, r), blobs, q, p),
    ensures
        q.primary.fb_id == r.primary.fb_id && q.primary.damage_blob == r.primary.damage_blob && (
        r.primary.damage_blob matches Some(id) && id != 0) ==> p is Unchanged,
        q.primary.fb_id != r.primary.fb_id ==> p is Full || p is Damaged,
        q.primary.damage_blob != r.primary.damage_blob ==> p is Full || p is Damaged,
        after_present(s, true, r) == s,
        after_present(s, false, r).last_cursor_fb == s.last_cursor_fb,
{
}

/// A cursor's pixels travel once: when they were taken, the same framebuffer is only
/// moved; when they were not, they are sent again; and after the cursor was taken away
/// they are sent anew.
pub proof fn lemma_cursor_pixels_travel_once(s: PipeState, r: AtomicPlaneReq, fb: u32)
    requires
        r.fb_id == Some(fb),
        fb != 0,
        r.crtc_id != Some(0u32),
        r.crtc_x is Some,
    ensures
        cursor_action(after_upload(s, fb, true), r) is Move,
        fb != s.last_cursor_fb ==> cursor_action(after_upload(s, fb, false), r) is Upload,
        after_cursor(after_upload(s, fb, true), r).last_cursor_fb == fb,
        forall|gone: AtomicPlaneReq|
            gone.fb_id == Some(0u32) || gone.crtc_id == Some(0u32) ==> cursor_action(
                #[trigger] after_cursor(after_upload(s, fb, true), gone),
                r,
            ) is Upload,
{
}

/// A cursor of up to 64 by 64 pixels is uploaded whole, at four bytes a pixel, and of a
/// larger one as many bytes as that; one without memory is not.
pub proof fn lemma_a_cursor_is_uploaded_whole(phys: u64, width: u32, height: u32)
    ensures
        upload_bytes(phys, width, height) is None <==> phys == 0,
        phys != 0 && width <= 64 && height <= 64 ==> upload_bytes(phys, width, height)->Some_0 == 4
            * width * height,
        phys != 0 && width >= 64 && height >= 64 ==> upload_bytes(phys, width, height)->Some_0 == 64
            * 64 * 4,
{
    assert(width <= 64 && height <= 64 ==> width * height <= 4096) by (nonlinear_arith);
    assert(width >= 64 && height >= 64 ==> width * height >= 4096) by (nonlinear_arith);
    assert(4 * width * height == width * height * 4) by (nonlinear_arith);
}

} // verus!
