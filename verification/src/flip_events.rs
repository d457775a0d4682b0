//! Page-flip completion events.
//!
//! A completion is not readable at once: it waits in the pending queue, and the
//! clock tick makes at most one readable per tick. That gives a compositor a
//! steady cadence and keeps an idle one from spinning.
use crate::bytes::{le32, le64, push_u32, push_u64};
use std::collections::VecDeque;
use vstd::prelude::*;

verus! {

/// Frame-pipeline statistics on the serial line.
pub const DRM_STATS: bool = false;

pub const DRM_MODE_PAGE_FLIP_EVENT: u32 = 0x01;

pub const DRM_EVENT_FLIP_COMPLETE: u32 = 0x02;

/// Bytes of an event as it is read.
pub const EVENT_BYTES: usize = 32;

/// A completion event.
#[derive(Debug, Clone, Copy, PartialEq, Eq, Structural)]
pub struct VblankEvent {
    /// What the client passed with the flip.
    pub user_data: u64,
    pub tv_sec: u32,
    pub tv_usec: u32,
    pub sequence: u32,
    pub crtc_id: u32,
}

/// An event as it is read.
pub open spec fn event_bytes(e: VblankEvent) -> Seq<u8> {
    le32(DRM_EVENT_FLIP_COMPLETE) + le32(32) + le64(e.user_data) + le32(e.tv_sec) + le32(e.tv_usec)
        + le32(e.sequence) + le32(e.crtc_id)
}

/// Events as they are read, one behind the other.
pub open spec fn stream_bytes(es: Seq<VblankEvent>) -> Seq<u8>
    decreases es.len(),
{
    if es.len() == 0 {
        Seq::empty()
    } else {
        stream_bytes(es.drop_last()) + event_bytes(es.last())
    }
}

/// The event of a flip at tick `now` (there are 100 in a second).
pub open spec fn event_at(now: u64, sequence: u32, crtc_id: u32, user_data: u64) -> VblankEvent {
    VblankEvent {
        user_data,
        tv_sec: (now / 100) as u32,
        tv_usec: (now % 100 * 10000) as u32,
        sequence,
        crtc_id,
    }
}

/// The queues of the card.
pub struct FlipQueue {
    pending: VecDeque<VblankEvent>,
    ready: VecDeque<VblankEvent>,
    sequence: u32,
    last_tick: u64,
    delivered: u64,
    last_stat_tick: u64,
}

/// The queues as a value.
#[verifier::ext_equal]
pub struct FlipState {
    /// Not readable yet.
    pub pending: Seq<VblankEvent>,
    /// Readable.
    pub ready: Seq<VblankEvent>,
    /// The sequence number of the next event.
    pub sequence: u32,
    /// The tick of the last delivery.
    pub last_tick: u64,
    /// How many were made readable.
    pub delivered: u64,
    /// The tick of the last statistics line.
    pub last_stat_tick: u64,
}

impl FlipState {
    /// All events that were queued and not read, oldest first.
    pub open spec fn unread(self) -> Seq<VblankEvent> {
        self.ready + self.pending
    }

    /// An event becomes readable at tick `now`.
    pub open spec fn delivers(self, now: u64) -> bool {
        now != self.last_tick && self.pending.len() > 0
    }

    /// The queues after a tick.
    pub open spec fn ticked(self, now: u64) -> FlipState {
        if self.delivers(now) {
            FlipState {
                pending: self.pending.drop_first(),
                ready: self.ready.push(self.pending[0]),
                last_tick: now,
                delivered: self.delivered.wrapping_add(1),
                ..self
            }
        } else {
            self
        }
    }
}

impl View for FlipQueue {
    type V = FlipState;

    closed spec fn view(&self) -> FlipState {
        FlipState {
            pending: self.pending@,
            ready: self.ready@,
            sequence: self.sequence,
            last_tick: self.last_tick,
            delivered: self.delivered,
            last_stat_tick: self.last_stat_tick,
        }
    }
}

/// Appends an event as it is read.
fn push_event(out: &mut Vec<u8>, e: VblankEvent)
    ensures
        final(out)@ == old(out)@ + event_bytes(e),
{
    let ghost before = out@;
    push_u32(out, DRM_EVENT_FLIP_COMPLETE);
    push_u32(out, 32);
    push_u64(out, e.user_data);
    push_u32(out, e.tv_sec);
    push_u32(out, e.tv_usec);
    push_u32(out, e.sequence);
    push_u32(out, e.crtc_id);
    assert(out@ =~= before + event_bytes(e));
}

impl FlipQueue {
    /// Nothing queued.
    pub fn new() -> (q: Self)
        ensures
            q@ == (FlipState {
                pending: Seq::empty(),
                ready: Seq::empty(),
                sequence: 0,
                last_tick: 0,
                delivered: 0,
                last_stat_tick: 0,
            }),
    {
        FlipQueue {
            pending: VecDeque::new(),
            ready: VecDeque::new(),
            sequence: 0,
            last_tick: 0,
            delivered: 0,
            last_stat_tick: 0,
        }
    }

    /// Queues the completion of a flip at tick `now`.
    pub fn queue_flip_event(&mut self, crtc_id: u32, user_data: u64, now: u64)
        ensures
            final(self)@ == (FlipState {
                pending: old(self)@.pending.push(
                    event_at(now, old(self)@.sequence, crtc_id, user_data),
                ),
                sequence: old(self)@.sequence.wrapping_add(1),
                ..old(self)@
            }),
    {
        let sequence = self.sequence;
        self.sequence = self.sequence.wrapping_add(1);
        self.pending.push_back(
            VblankEvent {
                user_data,
                tv_sec: (now / 100) as u32,
                tv_usec: (now % 100 * 10000) as u32,
                sequence,
                crtc_id,
            },
        );
    }

    /// The clock ticked: the oldest pending event becomes readable, unless one
    /// did at this very tick. True if pollers are to be woken.
    pub fn drm_tick(&mut self, now: u64) -> (wake: bool)
        ensures
            wake == old(self)@.delivers(now),
            final(self)@ == old(self)@.ticked(now),
    {
        let ghost before = self@;
        if now.wrapping_sub(self.last_tick) < 1 {
            return false;
        }
        match self.pending.pop_front() {
            Some(e) => {
                self.ready.push_back(e);
                self.last_tick = now;
                self.delivered = self.delivered.wrapping_add(1);
                assert(self@.pending =~= before.pending.drop_first());
                true
            },
            None => {
                assert(self@ =~= before);
                false
            },
        }
    }

    /// Whether a statistics line is due at tick `now`; if so it counts as
    /// written.
    pub fn stats_due(&mut self, now: u64) -> (due: bool)
        ensures
            due == (DRM_STATS && now.wrapping_sub(old(self)@.last_stat_tick) >= 200),
            final(self)@ == (if due {
                FlipState { last_stat_tick: now, ..old(self)@ }
            } else {
                old(self)@
            }),
    {
        if DRM_STATS && now.wrapping_sub(self.last_stat_tick) >= 200 {
            self.last_stat_tick = now;
            return true;
        }
        false
    }

    /// Takes whole events out of the queue, as many as `out` has room for, and
    /// writes them to its start. Gives the bytes written.
    pub fn drm_read_events(&mut self, out: &mut [u8]) -> (written: usize)
        ensures
            ({
                let room = old(out)@.len() / 32;
                let n = if old(self)@.ready.len() <= room {
                    old(self)@.ready.len()
                } else {
                    room
                };
                &&& written == n * 32
                &&& final(self)@ == (FlipState {
                    ready: old(self)@.ready.skip(n as int),
                    ..old(self)@
                })
                &&& final(out)@ == stream_bytes(old(self)@.ready.take(n as int)) + old(out)@.skip(
                    written as int,
                )
            }),
    {
        let ghost before = self@;
        let ghost blank = out@;
        let len: usize = out.len();
        let mut bytes: Vec<u8> = Vec::new();
        let ghost mut n: nat = 0;
        assert(before.ready.take(0) =~= Seq::<VblankEvent>::empty());
        assert(before.ready.skip(0) =~= before.ready);
        while len - bytes.len() >= 32
            invariant_except_break
                bytes.len() <= len,
            invariant
                n <= before.ready.len(),
                bytes.len() == n * 32,
                bytes.len() <= len,
                bytes@ == stream_bytes(before.ready.take(n as int)),
                self@ == (FlipState { ready: before.ready.skip(n as int), ..before }),
            ensures
                len - bytes.len() < 32 || n == before.ready.len(),
            decreases len - bytes.len(),
        {
            match self.ready.pop_front() {
                Some(e) => {
                    push_event(&mut bytes, e);
                    proof {
                        assert(e == before.ready[n as int]);
                        assert(before.ready.take(n as int + 1).drop_last() =~= before.ready.take(
                            n as int,
                        ));
                        assert(self@.ready =~= before.ready.skip(n as int + 1));
                        n = n + 1;
                    }
                },
                None => {
                    assert(before.ready.skip(n as int).len() == 0);
                    assert(self@.ready =~= before.ready.skip(n as int));
                    break;
                },
            }
        }
        let written = bytes.len();
        let mut i: usize = 0;
        while i < written
            invariant
                i <= written,
                written == bytes.len(),
                written <= len,
                out@.len() == len,
                blank.len() == len,
                out@ == bytes@.take(i as int) + blank.skip(i as int),
            decreases written - i,
        {
            out[i] = bytes[i];
            i += 1;
            assert(out@ =~= bytes@.take(i as int) + blank.skip(i as int));
        }
        assert(bytes@.take(written as int) =~= bytes@);
        written
    }

    /// Whether an event is readable.
    pub fn drm_has_events(&self) -> (r: bool)
        ensures
            r == (self@.ready.len() > 0),
    {
        self.ready.len() > 0
    }

    /// A number that moves each time an event becomes readable.
    pub fn drm_event_seq(&self) -> (r: u64)
        ensures
            r == self@.delivered,
    {
        self.delivered
    }
}

/// A tick loses no event and changes no order.
pub proof fn lemma_tick_keeps_order(s: FlipState)
    requires
        s.pending.len() > 0,
    ensures
        s.ready.push(s.pending[0]) + s.pending.drop_first() == s.unread(),
{
    assert(s.ready.push(s.pending[0]) + s.pending.drop_first() =~= s.unread());
}

/// A tick makes the oldest waiting event readable, behind those that already are, and
/// no second one at the same time; it loses none, changes no order, and moves the
/// number that pollers watch exactly if it made one readable.
pub proof fn lemma_one_event_a_tick(s: FlipState, now: u64)
    ensures
        ({
            let t = s.ticked(now);
            let one = now != s.last_tick && s.pending.len() > 0;
            &&& t.unread() == s.unread()
            &&& t.ready.len() == s.ready.len() + (if one {
                1int
            } else {
                0int
            })
            &&& t.ticked(now) == t
            &&& t.delivered != s.delivered <==> one
            &&& t.sequence == s.sequence
        }),
{
    if s.delivers(now) {
        lemma_tick_keeps_order(s);
    }
}

/// A new event goes behind all that are unread.
pub proof fn lemma_queue_goes_last(s: FlipState, e: VblankEvent)
    ensures
        s.ready + s.pending.push(e) == s.unread().push(e),
{
    assert(s.ready + s.pending.push(e) =~= s.unread().push(e));
}

/// Reading takes the oldest events, and together with what stays they are what
/// was there.
pub proof fn lemma_read_takes_the_oldest(s: FlipState, n: int)
    requires
        0 <= n <= s.ready.len(),
    ensures
        s.ready.take(n) + (s.ready.skip(n) + s.pending) == s.unread(),
{
    assert(s.ready.take(n) + (s.ready.skip(n) + s.pending) =~= s.unread());
}

/// Every event is read whole: a stream is as long as its events.
pub proof fn lemma_stream_is_whole_events(es: Seq<VblankEvent>)
    ensures
        stream_bytes(es).len() == es.len() * EVENT_BYTES,
    decreases es.len(),
{
    if es.len() > 0 {
        lemma_stream_is_whole_events(es.drop_last());
        assert(event_bytes(es.last()).len() == 32);
    }
}

} // verus!
