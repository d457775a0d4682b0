//! What is read back from replies and from the tables behind them.
use crate::bytes::{le32, lemma_read_of_write32, u32_at};
use crate::drm::objects::{DrmConnector, DrmCrtc, DrmObjectId};
use crate::drm_driver::{connector_bytes, crtc_bytes, id_bytes, mode_bytes, modes_bytes};
use crate::flip_events::{event_bytes, lemma_stream_is_whole_events, stream_bytes, VblankEvent};
use crate::hostvis::span_len;
use crate::mailbox_laws::value;
use crate::pages::pages_for;
use crate::rpi_mailbox::{is_next, FbRequest, FbStep, MboxError};
use vstd::prelude::*;

verus! {

/// The ids of a list read back one behind the other.
pub proof fn lemma_listed_ids_read_back(ids: Seq<DrmObjectId>, k: int, i: int)
    requires
        0 <= i < k <= ids.len(),
    ensures
        id_bytes(ids, k).len() == 4 * k,
        u32_at(id_bytes(ids, k), 4 * i) == ids[i].0,
    decreases k,
{
    let before = id_bytes(ids, k - 1);
    let all = id_bytes(ids, k);
    let none = Seq::<u8>::empty();
    if k > 1 {
        lemma_listed_ids_read_back(
            ids,
            k - 1,
            if i < k - 1 {
                i
            } else {
                0
            },
        );
    }
    assert(before.len() == 4 * (k - 1));
    if i < k - 1 {
        assert forall|j: int| 0 <= j < before.len() implies all[j] == before[j] by {}
    } else {
        assert(all =~= before + le32(ids[k - 1].0) + none);
        lemma_read_of_write32(ids[k - 1].0, before, none);
    }
}

/// Four numbers at the start of a reply.
proof fn lemma_four_numbers(a: u32, b: u32, c: u32, d: u32, rest: Seq<u8>)
    ensures
        ({
            let all = le32(a) + le32(b) + le32(c) + le32(d) + rest;
            &&& u32_at(all, 0) == a
            &&& u32_at(all, 4) == b
            &&& u32_at(all, 8) == c
            &&& u32_at(all, 12) == d
            &&& forall|j: int| 0 <= j < rest.len() ==> #[trigger] rest[j] == all[16 + j]
        }),
{
    let none = Seq::<u8>::empty();
    let all = le32(a) + le32(b) + le32(c) + le32(d) + rest;
    assert(all =~= none + le32(a) + (le32(b) + le32(c) + le32(d) + rest));
    lemma_read_of_write32(a, none, le32(b) + le32(c) + le32(d) + rest);
    assert(all =~= le32(a) + le32(b) + (le32(c) + le32(d) + rest));
    lemma_read_of_write32(b, le32(a), le32(c) + le32(d) + rest);
    assert(all =~= (le32(a) + le32(b)) + le32(c) + (le32(d) + rest));
    lemma_read_of_write32(c, le32(a) + le32(b), le32(d) + rest);
    assert(all =~= (le32(a) + le32(b) + le32(c)) + le32(d) + rest);
    lemma_read_of_write32(d, le32(a) + le32(b) + le32(c), rest);
}

/// Five numbers at the start of a reply.
proof fn lemma_five_numbers(a: u32, b: u32, c: u32, d: u32, e: u32, rest: Seq<u8>)
    ensures
        ({
            let all = le32(a) + le32(b) + le32(c) + le32(d) + le32(e) + rest;
            &&& u32_at(all, 0) == a
            &&& u32_at(all, 4) == b
            &&& u32_at(all, 8) == c
            &&& u32_at(all, 12) == d
            &&& u32_at(all, 16) == e
            &&& all.skip(20) == rest
        }),
{
    let head = le32(a) + le32(b) + le32(c) + le32(d);
    let all = head + le32(e) + rest;
    assert(all =~= head + (le32(e) + rest));
    lemma_four_numbers(a, b, c, d, le32(e) + rest);
    lemma_read_of_write32(e, head, rest);
    assert(head.len() == 16);
    assert(all.skip(20) =~= rest);
}

/// A crtc reads back from its reply: its id, its place, its gamma size, and whether a
/// mode follows.
pub proof fn lemma_a_crtc_reads_back(c: DrmCrtc)
    ensures
        ({
            let b = crtc_bytes(c);
            &&& u32_at(b, 0) == c.id.0
            &&& u32_at(b, 4) == c.x as u32
            &&& u32_at(b, 8) == c.y as u32
            &&& u32_at(b, 12) == c.gamma_size
            &&& b[16] == (if c.mode is Some {
                1u8
            } else {
                0u8
            })
            &&& c.mode matches Some(m) ==> b.skip(17) == mode_bytes(m)
            &&& c.mode is None ==> b.len() == 17
        }),
{
    let rest = match c.mode {
        Some(m) => seq![1u8] + mode_bytes(m),
        None => seq![0u8],
    };
    lemma_four_numbers(c.id.0, c.x as u32, c.y as u32, c.gamma_size, rest);
    assert(rest[0] == crtc_bytes(c)[16]);
    if let Some(m) = c.mode {
        assert(crtc_bytes(c).skip(17) =~= mode_bytes(m));
    }
}

/// A connector reads back from its reply: its id, its kind and number, its status, how
/// many modes it has, and the modes.
pub proof fn lemma_a_connector_reads_back(c: DrmConnector)
    ensures
        ({
            let b = connector_bytes(c);
            &&& u32_at(b, 0) == c.id.0
            &&& u32_at(b, 4) == c.connector_type.number()
            &&& u32_at(b, 8) == c.connector_type_id
            &&& u32_at(b, 12) == c.status.number()
            &&& u32_at(b, 16) == c.modes@.len() as u32
            &&& b.skip(20) == modes_bytes(c.modes@, c.modes@.len() as int)
        }),
{
    lemma_five_numbers(
        c.id.0,
        c.connector_type.number(),
        c.connector_type_id,
        c.status.number(),
        c.modes@.len() as u32,
        modes_bytes(c.modes@, c.modes@.len() as int),
    );
}

/// Event `i` of a stream stands behind those before it.
pub proof fn lemma_a_stream_has_its_events_in_order(es: Seq<VblankEvent>, i: int)
    requires
        0 <= i < es.len(),
    ensures
        stream_bytes(es).len() == 32 * es.len(),
        stream_bytes(es).subrange(32 * i, 32 * i + 32) == event_bytes(es[i]),
    decreases es.len(),
{
    let less = es.drop_last();
    lemma_stream_is_whole_events(es);
    lemma_stream_is_whole_events(less);
    assert(event_bytes(es.last()).len() == 32);
    let all = stream_bytes(es);
    if i < less.len() {
        lemma_a_stream_has_its_events_in_order(less, i);
        assert(less[i] == es[i]);
        assert(all.subrange(32 * i, 32 * i + 32) =~= stream_bytes(less).subrange(
            32 * i,
            32 * i + 32,
        ));
    } else {
        assert(all.subrange(32 * i, 32 * i + 32) =~= event_bytes(es[i]));
    }
}

/// A reservation is the least number of whole grains of 64 KiB that holds its bytes.
pub proof fn lemma_a_reservation_holds_its_bytes(bytes: int)
    requires
        0 <= bytes,
    ensures
        span_len(bytes) % 65536 == 0,
        bytes <= span_len(bytes) < bytes + 65536,
{
}

/// The pages of some bytes are the fewest that hold them.
pub proof fn lemma_pages_hold_their_bytes(bytes: int)
    requires
        0 <= bytes,
    ensures
        4096 * pages_for(bytes) - 4096 < bytes <= 4096 * pages_for(bytes),
{
}

/// After the probe a framebuffer of the display's own size is asked for, where it has
/// one, and of the wanted size otherwise; it is to have twice the rows.
pub proof fn lemma_the_display_gets_its_own_size(
    step: FbStep,
    reply: Vec<u32>,
    want_w: u32,
    want_h: u32,
)
    requires
        is_next(step, FbRequest::Probing, Ok::<Vec<u32>, MboxError>(reply), want_w, want_h),
    ensures
        ({
            let p = crate::rpi_mailbox::probe_of(reply@);
            let own = p.width != 0 && p.height != 0;
            step matches FbStep::Send(_, m) && {
                &&& value(m@, 0x4_8003, 0) == (if own {
                    p.width
                } else {
                    want_w
                })
                &&& value(m@, 0x4_8003, 1) == (if own {
                    p.height
                } else {
                    want_h
                })
                &&& value(m@, 0x4_8004, 0) == value(m@, 0x4_8003, 0)
                &&& value(m@, 0x4_8003, 1) <= u32::MAX / 2 ==> value(m@, 0x4_8004, 1) == 2 * value(
                    m@,
                    0x4_8003,
                    1,
                )
            }
        }),
{
    let p = crate::rpi_mailbox::probe_of(reply@);
    let own = p.width != 0 && p.height != 0;
    let w = if own {
        p.width
    } else {
        want_w
    };
    let h = if own {
        p.height
    } else {
        want_h
    };
    crate::mailbox_laws::lemma_what_a_request_asks_for(w, h, crate::rpi_mailbox::doubled(h));
    crate::mailbox_laws::lemma_twice_the_rows(h);
}

/// A buffer that was not given is given back, and then asked for again with the rows
/// that are shown alone.
pub proof fn lemma_a_tall_buffer_is_given_up(
    step: FbStep,
    again: FbStep,
    e: MboxError,
    reply: Result<Vec<u32>, MboxError>,
    w: u32,
    h: u32,
    vc: (u64, u64),
    want_w: u32,
    want_h: u32,
)
    requires
        is_next(step, FbRequest::Tall { w, h, vc }, Err::<Vec<u32>, MboxError>(e), want_w, want_h),
        is_next(again, FbRequest::Releasing { w, h, vc }, reply, want_w, want_h),
    ensures
        step matches FbStep::Send(FbRequest::Releasing { .. }, m) && crate::mailbox_laws::has_tag(
            m@,
            0x4_8001,
        ),
        again matches FbStep::Send(FbRequest::Plain { .. }, m) && {
            &&& (value(m@, 0x4_8003, 0), value(m@, 0x4_8003, 1)) == (w, h)
            &&& (value(m@, 0x4_8004, 0), value(m@, 0x4_8004, 1)) == (w, h)
        },
{
    crate::mailbox_laws::lemma_what_the_other_messages_ask_for();
    crate::mailbox_laws::lemma_what_a_request_asks_for(w, h, h);
}

} // verus!
