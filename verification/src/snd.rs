//! The VirtIO sound card: its queues, its streams, and what it is told.
use vstd::prelude::*;
use crate::DriverError;
use crate::bytes::{le32, push_u32, read_u16, read_u32, u16_at, u32_at};
use crate::message::{padded, Message};
use crate::pci::{ConfigSpace, pci_read_config_32_any, pci_read_config_8, word_of};

verus! {

pub const VIRTIO_SND_VENDOR_ID: u16 = 0x1AF4;

pub const VIRTIO_SND_DEVICE_ID: u16 = 0x1059;

/// The queues of the card.
pub const VIRTIO_SND_VQ_CONTROL: u16 = 0;

pub const VIRTIO_SND_VQ_EVENT: u16 = 1;

pub const VIRTIO_SND_VQ_TX: u16 = 2;

pub const VIRTIO_SND_VQ_RX: u16 = 3;

/// The control commands.
pub const VIRTIO_SND_R_JACK_INFO: u32 = 0x0001;

pub const VIRTIO_SND_R_PCM_INFO: u32 = 0x0100;

pub const VIRTIO_SND_R_PCM_SET_PARAMS: u32 = 0x0101;

pub const VIRTIO_SND_R_PCM_PREPARE: u32 = 0x0102;

pub const VIRTIO_SND_R_PCM_RELEASE: u32 = 0x0103;

pub const VIRTIO_SND_R_PCM_START: u32 = 0x0104;

pub const VIRTIO_SND_R_PCM_STOP: u32 = 0x0105;

pub const VIRTIO_SND_S_OK: u32 = 0x8000;

pub const VIRTIO_SND_PCM_FMT_S16: u8 = 5;

/// The codes of rates.
pub const VIRTIO_SND_PCM_RATE_44100: u8 = 6;

pub const VIRTIO_SND_PCM_RATE_48000: u8 = 7;

pub const QUEUE_SIZE: u16 = 256;

/// How many bytes one buffer takes.
pub const CHUNK: usize = 512;

/// How many buffers may be queued at once.
pub const TX_MAX_INFLIGHT: u16 = 256;

/// Up to how many buffers the queue is filled with silence.
pub const TX_TOPUP_BUFS: u16 = 32;

/// How often a control command looks for its answer.
pub const CTRL_LOOKS: u32 = 5_000_000;

/// The status of a control command that was not answered.
pub const CTRL_TIMED_OUT: u32 = 0xFFFF_FFFF;

/// How far `a` is ahead of `b`, for counters that wrap.
pub open spec fn ahead(a: u16, b: u16) -> int {
    if a >= b { a - b } else { a + 65536 - b }
}

/// A counter that wraps, one further.
pub open spec fn after(a: u16) -> u16 {
    if a == 65535 { 0 } else { (a + 1) as u16 }
}

fn distance(a: u16, b: u16) -> (d: u16)
    ensures
        d == ahead(a, b),
{
    if a >= b { a - b } else { 65535 - b + a + 1 }
}

fn step(a: u16) -> (r: u16)
    ensures
        r == after(a),
{
    if a == 65535 { 0 } else { a + 1 }
}

/// The driver's side of a queue. Each request takes a chain of as many
/// descriptors as any other, and the descriptors go round in a ring.
#[derive(Debug, Clone, Copy, PartialEq, Eq, Structural)]
pub struct VirtQueue {
    pub id: u16,
    pub notify_off: u16,
    /// How many descriptors a request takes.
    pub chain: u16,
    pub last_avail_idx: u16,
    pub last_used_idx: u16,
    pub free_head: u16,
    pub num_free: u16,
}

impl VirtQueue {
    /// How many requests are with the device.
    pub open spec fn level(self) -> int {
        ahead(self.last_avail_idx, self.last_used_idx)
    }

    /// The descriptors with the device and the free ones make up the ring, and
    /// the free ones start where the last request ended. If the device has
    /// reported more than it was given, it owes requests: the counters have
    /// passed each other, and more descriptors count as free than there are.
    pub open spec fn inv(self) -> bool {
        &&& self.chain == 2 || self.chain == 3
        &&& self.num_free + self.chain * self.level() == 256 || self.num_free + self.chain
            * self.level() == 256 + self.chain * 65536
        &&& self.free_head == self.chain * self.last_avail_idx % 256
    }

    /// The device has reported no more than it was given.
    pub open spec fn sane(self) -> bool {
        self.num_free <= 256
    }

    /// The report can be taken in: the count of free descriptors holds what it
    /// gives back.
    pub open spec fn takes(self, used: u16) -> bool {
        self.num_free + self.chain * ahead(used, self.last_used_idx) <= u16::MAX
    }

    /// The queue with all requests up to `used` taken back.
    pub open spec fn reclaimed(self, used: u16) -> VirtQueue {
        VirtQueue {
            last_used_idx: used,
            num_free: (self.num_free + self.chain * ahead(used, self.last_used_idx)) as u16,
            ..self
        }
    }

    /// The queue with one more request.
    pub open spec fn submitted(self) -> VirtQueue {
        VirtQueue {
            last_avail_idx: after(self.last_avail_idx),
            free_head: ((self.free_head + self.chain) % 256) as u16,
            num_free: (self.num_free - self.chain) as u16,
            ..self
        }
    }

    /// An empty queue.
    pub fn new(id: u16, notify_off: u16, chain: u16) -> (q: VirtQueue)
        requires
            chain == 2 || chain == 3,
        ensures
            q.inv(),
            q == (VirtQueue {
                id,
                notify_off,
                chain,
                last_avail_idx: 0,
                last_used_idx: 0,
                free_head: 0,
                num_free: 256,
            }),
    {
        VirtQueue {
            id,
            notify_off,
            chain,
            last_avail_idx: 0,
            last_used_idx: 0,
            free_head: 0,
            num_free: QUEUE_SIZE,
        }
    }

    /// Takes back all requests up to `used`. A report that cannot be taken in is
    /// passed over.
    pub fn reclaim(&mut self, used: u16) -> (taken: bool)
        requires
            old(self).inv(),
        ensures
            final(self).inv(),
            taken == old(self).takes(used),
            taken ==> *final(self) == old(self).reclaimed(used),
            !taken ==> *final(self) == *old(self),
    {
        let ghost before = *self;
        let n: u16 = distance(used, self.last_used_idx);
        proof {
            lemma_chain(before.chain as int, n as int);
            lemma_chain(before.chain as int, before.level());
        }
        let back: u32 = self.chain as u32 * n as u32;
        let free: u32 = self.num_free as u32 + back;
        if free > 65535 {
            return false;
        }
        self.num_free = free as u16;
        self.last_used_idx = used;
        proof {
            lemma_chain(before.chain as int, self.level());
        }
        true
    }

    /// Hands one more request to the device. Says which place of the ring of
    /// requests it takes, and which descriptor comes first.
    pub fn submit(&mut self) -> (r: (u16, u16))
        requires
            old(self).inv(),
            old(self).num_free >= old(self).chain,
        ensures
            final(self).inv(),
            *final(self) == old(self).submitted(),
            r.0 == old(self).last_avail_idx % 256,
            r.1 == old(self).free_head,
    {
        proof {
            lemma_submitted_fits(*self);
        }
        let slot: u16 = self.last_avail_idx % QUEUE_SIZE;
        let head = self.free_head;
        self.last_avail_idx = step(self.last_avail_idx);
        self.free_head = (head + self.chain) % QUEUE_SIZE;
        self.num_free = self.num_free - self.chain;
        (slot, head)
    }
}

/// A request takes two descriptors or three.
proof fn lemma_chain(chain: int, n: int)
    requires
        chain == 2 || chain == 3,
    ensures
        chain == 2 ==> chain * n == 2 * n,
        chain == 3 ==> chain * n == 3 * n,
{
}

proof fn lemma_next_head(chain: int, idx: u16)
    requires
        chain == 2 || chain == 3,
    ensures
        (chain * idx % 256 + chain) % 256 == chain * after(idx) % 256,
{
    let i = idx as int;
    if chain == 2 {
        assert(chain * i == 2 * i && chain * after(idx) == 2 * after(idx));
        assert((2 * i % 256 + 2) % 256 == (2 * i + 2) % 256);
    } else {
        assert(chain * i == 3 * i && chain * after(idx) == 3 * after(idx));
        assert((3 * i % 256 + 3) % 256 == (3 * i + 3) % 256);
    }
}

proof fn lemma_submitted_fits(q: VirtQueue)
    requires
        q.inv(),
        q.num_free >= q.chain,
    ensures
        q.submitted().inv(),
{
    lemma_next_head(q.chain as int, q.last_avail_idx);
    lemma_chain(q.chain as int, q.level());
    lemma_chain(q.chain as int, q.submitted().level());
}

/// Descriptor `d` of the request with number `k`.
pub open spec fn descriptor(q: VirtQueue, k: int, d: int) -> int {
    (q.chain * k + d) % 256
}

/// No two requests that are with the device share a descriptor or a place in the
/// ring, as long as it has reported no more than it was given. Requests are counted from the oldest that is still there.
pub proof fn lemma_requests_do_not_overlap(q: VirtQueue, a: int, b: int, d: int, e: int)
    requires
        q.inv(),
        q.sane(),
        0 <= a < b < q.level(),
        0 <= d < q.chain,
        0 <= e < q.chain,
    ensures
        descriptor(q, q.last_used_idx + a, d) != descriptor(q, q.last_used_idx + b, e),
        (q.last_used_idx + a) % 256 != (q.last_used_idx + b) % 256,
{
    let u = q.last_used_idx as int;
    lemma_chain(q.chain as int, q.level());
    lemma_chain(q.chain as int, u + a);
    lemma_chain(q.chain as int, u + b);
    lemma_apart(q.chain * (u + a) + d, q.chain * (u + b) + e);
    lemma_apart(u + a, u + b);
}

/// Numbers that differ by less than 256 are different places of the ring.
proof fn lemma_apart(x: int, y: int)
    requires
        0 < y - x < 256,
    ensures
        x % 256 != y % 256,
{
}

/// What to write into one descriptor besides its address.
#[derive(Debug, Clone, Copy, PartialEq, Eq, Structural)]
pub struct DescriptorFill {
    pub index: u16,
    pub len: u32,
    /// 1: another follows. 2: the device writes.
    pub flags: u16,
}

/// Where the three parts of a queue lie.
#[derive(Debug, Clone, Copy, PartialEq, Eq, Structural)]
pub struct QueueLayout {
    pub desc: u64,
    pub avail: u64,
    pub used: u64,
}

/// The number rounded up to a multiple of `align`.
pub open spec fn aligned(x: int, align: int) -> int {
    (x + align - 1) / align * align
}

/// The parts of a queue in the two pages at `phys`.
pub fn queue_layout(phys: u64) -> (l: QueueLayout)
    requires
        phys % 4096 == 0,
        phys + 8192 <= u64::MAX,
    ensures
        l.desc == phys,
        l.avail == phys + 16 * 256,
        l.used == aligned(phys + 16 * 256 + 6 + 2 * 256, 4),
{
    QueueLayout { desc: phys, avail: phys + 4096, used: (phys + 4096 + 6 + 512 + 3) / 4 * 4 }
}

/// The parts of a queue follow one another within the two pages: sixteen bytes
/// for each descriptor, two for each place of the first ring and eight for each
/// of the second, and six more for each ring.
pub proof fn lemma_queue_parts_fit(phys: int)
    requires
        phys % 4096 == 0,
    ensures
        phys + 16 * 256 + 6 + 2 * 256 <= aligned(phys + 16 * 256 + 6 + 2 * 256, 4),
        aligned(phys + 16 * 256 + 6 + 2 * 256, 4) + 6 + 8 * 256 <= phys + 8192,
{
}

/// A buffer for the device to play.
#[derive(Debug)]
pub struct TxBuffer {
    /// The place of the ring that it takes, and of its data.
    pub slot: u16,
    /// The stream's header, the data, and the status that the device writes.
    pub fills: [DescriptorFill; 3],
    /// The new count of requests.
    pub avail_idx: u16,
    pub data: Vec<u8>,
}

/// A control command for the device to take.
#[derive(Debug)]
pub struct CtrlRequest {
    pub slot: u16,
    /// The command, and the status that the device writes.
    pub fills: [DescriptorFill; 2],
    pub avail_idx: u16,
    pub command: Vec<u8>,
}

/// What a look for the answer to a control command says.
#[derive(Debug, Clone, Copy, PartialEq, Eq, Structural)]
pub enum CtrlWait {
    Again,
    Answered,
    TimedOut,
}

/// The sound card.
#[derive(Debug, Clone, Copy, PartialEq, Eq, Structural)]
pub struct VirtioSnd {
    pub common_cfg: u64,
    pub notify_cfg: u64,
    pub notify_off_multiplier: u32,
    pub ctrl: Option<VirtQueue>,
    pub event: Option<VirtQueue>,
    pub tx: Option<VirtQueue>,
    pub rx: Option<VirtQueue>,
    pub initialized: bool,
    pub stream_active: bool,
    pub stream_started: bool,
    pub tx_count: u32,
    pub last_freq: u32,
    pub last_channels: u8,
}

/// The device's number for a sample rate; 44100 Hz for one it does not know.
pub open spec fn rate_code(freq: u32) -> u8 {
    if freq == 11025 {
        2
    } else if freq == 22050 {
        4
    } else if freq == 48000 {
        VIRTIO_SND_PCM_RATE_48000
    } else {
        VIRTIO_SND_PCM_RATE_44100
    }
}

/// A command that names a stream.
pub open spec fn stream_command(code: u32, stream_id: u32) -> Seq<u8> {
    le32(code) + le32(stream_id)
}

/// The command that sets a stream's parameters.
pub open spec fn params_command(stream_id: u32, freq: u32, channels: u8) -> Seq<u8> {
    stream_command(VIRTIO_SND_R_PCM_SET_PARAMS, stream_id) + le32(65536) + le32(4096) + le32(0)
        + seq![channels, VIRTIO_SND_PCM_FMT_S16, rate_code(freq), 0u8]
}

/// The commands that set up a stream: it is torn down first, whatever state it is
/// in.
pub open spec fn setup_commands(stream_id: u32, freq: u32, channels: u8) -> Seq<Seq<u8>> {
    seq![
        stream_command(VIRTIO_SND_R_PCM_STOP, stream_id),
        stream_command(VIRTIO_SND_R_PCM_RELEASE, stream_id),
        params_command(stream_id, freq, channels),
        stream_command(VIRTIO_SND_R_PCM_PREPARE, stream_id),
        stream_command(VIRTIO_SND_R_PCM_START, stream_id),
    ]
}

/// The bytes of a list of commands.
pub open spec fn spelled(v: Seq<Vec<u8>>) -> Seq<Seq<u8>> {
    v.map_values(|c: Vec<u8>| c@)
}

fn stream_bytes(code: u32, stream_id: u32) -> (b: Vec<u8>)
    ensures
        b@ == stream_command(code, stream_id),
{
    let mut b: Vec<u8> = Vec::new();
    push_u32(&mut b, code);
    push_u32(&mut b, stream_id);
    assert(b@ =~= stream_command(code, stream_id));
    b
}

fn params_bytes(stream_id: u32, freq: u32, channels: u8) -> (b: Vec<u8>)
    ensures
        b@ == params_command(stream_id, freq, channels),
{
    let rate: u8 = match freq {
        11025 => 2,
        22050 => 4,
        48000 => VIRTIO_SND_PCM_RATE_48000,
        _ => VIRTIO_SND_PCM_RATE_44100,
    };
    let mut b = stream_bytes(VIRTIO_SND_R_PCM_SET_PARAMS, stream_id);
    push_u32(&mut b, 65536);
    push_u32(&mut b, 4096);
    push_u32(&mut b, 0);
    b.push(channels);
    b.push(VIRTIO_SND_PCM_FMT_S16);
    b.push(rate);
    b.push(0);
    assert(b@ =~= params_command(stream_id, freq, channels));
    b
}

/// The first bytes of `data`, as many as fit a buffer.
pub open spec fn chunk_of(data: Seq<u8>) -> Seq<u8> {
    if data.len() <= CHUNK {
        data
    } else {
        data.take(CHUNK as int)
    }
}

/// A descriptor of the ring, some places after `head`.
pub open spec fn fill(head: u16, d: int, len: int, flags: u16) -> DescriptorFill {
    DescriptorFill { index: ((head + d) % 256) as u16, len: len as u32, flags }
}

impl VirtioSnd {
    /// What holds of the card at all times.
    pub open spec fn inv(self) -> bool {
        &&& self.initialized ==> self.ctrl is Some && self.event is Some && self.tx is Some
            && self.rx is Some
        &&& self.ctrl is Some ==> self.ctrl->0.inv() && self.ctrl->0.chain == 2
        &&& self.tx is Some ==> self.tx->0.inv() && self.tx->0.chain == 3
    }

    pub fn new() -> (s: VirtioSnd)
        ensures
            s == (VirtioSnd {
                common_cfg: 0,
                notify_cfg: 0,
                notify_off_multiplier: 0,
                ctrl: None,
                event: None,
                tx: None,
                rx: None,
                initialized: false,
                stream_active: false,
                stream_started: false,
                tx_count: 0,
                last_freq: 44100,
                last_channels: 2,
            }),
            s.inv(),
    {
        VirtioSnd {
            common_cfg: 0,
            notify_cfg: 0,
            notify_off_multiplier: 0,
            ctrl: None,
            event: None,
            tx: None,
            rx: None,
            initialized: false,
            stream_active: false,
            stream_started: false,
            tx_count: 0,
            last_freq: 44100,
            last_channels: 2,
        }
    }

    /// The commands that set up a stream, to be sent in order. What comes of the
    /// last three goes to `stream_configured`.
    pub fn reconfigure_stream(&mut self, stream_id: u32, freq: u32, channels: u8) -> (c: Vec<
        Vec<u8>,
    >)
        ensures
            spelled(c@) == setup_commands(stream_id, freq, channels),
            *final(self) == (VirtioSnd { last_freq: freq, last_channels: channels, ..*old(self) }),
    {
        self.last_freq = freq;
        self.last_channels = channels;
        let c = vec![
            stream_bytes(VIRTIO_SND_R_PCM_STOP, stream_id),
            stream_bytes(VIRTIO_SND_R_PCM_RELEASE, stream_id),
            params_bytes(stream_id, freq, channels),
            stream_bytes(VIRTIO_SND_R_PCM_PREPARE, stream_id),
            stream_bytes(VIRTIO_SND_R_PCM_START, stream_id),
        ];
        assert(spelled(c@) =~= setup_commands(stream_id, freq, channels));
        c
    }

    /// Takes in the statuses of the commands that set up a stream. The stream
    /// runs if all went well.
    pub fn stream_configured(&mut self, set_params: u32, prepare: u32, start: u32)
        ensures
            ({
                let up = set_params == VIRTIO_SND_S_OK && prepare == VIRTIO_SND_S_OK && start
                    == VIRTIO_SND_S_OK;
                *final(self) == (VirtioSnd {
                    stream_active: up,
                    stream_started: up,
                    tx_count: 0,
                    ..*old(self)
                })
            }),
    {
        let up = set_params == VIRTIO_SND_S_OK && prepare == VIRTIO_SND_S_OK && start
            == VIRTIO_SND_S_OK;
        self.stream_active = up;
        self.stream_started = up;
        self.tx_count = 0;
    }

    /// The commands that bring a stream back that the device has stopped playing:
    /// those that set it up as it was last set up.
    pub fn recover_stream(&mut self) -> (c: Vec<Vec<u8>>)
        ensures
            spelled(c@) == setup_commands(0, old(self).last_freq, old(self).last_channels),
            *final(self) == *old(self),
    {
        self.reconfigure_stream(0, self.last_freq, self.last_channels)
    }

    /// The device's count of played buffers, given what it reports.
    pub fn tx_used_idx(&self, used: u16) -> (r: u16)
        ensures
            r == (if self.tx is Some { used } else { 0u16 }),
    {
        match self.tx {
            Some(_) => used,
            None => 0,
        }
    }

    /// How many buffers wait to be played.
    pub open spec fn backlog(self, used: u16) -> int {
        if self.tx is Some {
            ahead(self.tx->0.last_avail_idx, used)
        } else {
            0
        }
    }

    /// How many buffers wait to be played, given what the device reports.
    pub fn tx_level(&self, used: u16) -> (n: u16)
        ensures
            n == self.backlog(used),
    {
        match self.tx {
            Some(q) => distance(q.last_avail_idx, used),
            None => 0,
        }
    }

    /// There is room for one more buffer.
    pub open spec fn has_room(self, used: u16) -> bool {
        let q = self.tx->0.reclaimed(used);
        self.initialized && self.tx->0.takes(used) && q.num_free >= 3 && q.level()
            < TX_MAX_INFLIGHT
    }

    /// The card once played buffers were taken back, and one was queued if there
    /// was room.
    pub open spec fn queued(self, used: u16) -> VirtioSnd {
        let q = self.tx->0.reclaimed(used);
        if !self.initialized || !self.tx->0.takes(used) {
            self
        } else if self.has_room(used) {
            VirtioSnd {
                tx: Some(q.submitted()),
                tx_count: if self.tx_count == u32::MAX { 0 } else { (self.tx_count + 1) as u32 },
                ..self
            }
        } else {
            VirtioSnd { tx: Some(q), ..self }
        }
    }

    /// The buffer is the one that queues the first bytes of `data`.
    pub open spec fn is_buffer(self, b: TxBuffer, used: u16, data: Seq<u8>) -> bool {
        let q = self.tx->0;
        let chunk = chunk_of(data);
        &&& b.slot == q.last_avail_idx % 256
        &&& b.avail_idx == after(q.last_avail_idx)
        &&& b.data@ == chunk
        &&& b.fills@ == seq![
            fill(q.free_head, 0, 4, 1),
            fill(q.free_head, 1, chunk.len() as int, 1),
            fill(q.free_head, 2, 8, 2),
        ]
    }

    /// Queues the first bytes of `data`, if there is room, given what the device
    /// reports. Does not wait. A device that has reported more than it was given
    /// gets nothing more.
    pub fn send_pcm_data(&mut self, used: u16, data: &[u8]) -> (b: Option<TxBuffer>)
        requires
            old(self).inv(),
        ensures
            final(self).inv(),
            *final(self) == old(self).queued(used),
            b is Some <==> old(self).has_room(used),
            b is Some ==> old(self).is_buffer(b->0, used, data@),
    {
        if !self.initialized {
            return None;
        }
        let mut q = match self.tx {
            Some(q) => q,
            None => return None,
        };
        if !q.reclaim(used) {
            return None;
        }
        if q.num_free < 3 || distance(q.last_avail_idx, q.last_used_idx) >= TX_MAX_INFLIGHT {
            self.tx = Some(q);
            return None;
        }
        let len: usize = if data.len() <= CHUNK { data.len() } else { CHUNK };
        let mut chunk: Vec<u8> = Vec::new();
        let mut i: usize = 0;
        while i < len
            invariant
                i <= len <= data@.len(),
                chunk@ == data@.take(i as int),
            decreases len - i,
        {
            chunk.push(data[i]);
            i += 1;
            assert(chunk@ =~= data@.take(i as int));
        }
        assert(chunk@ =~= chunk_of(data@));
        let (slot, head) = q.submit();
        let fills = [
            DescriptorFill { index: head % QUEUE_SIZE, len: 4, flags: 1 },
            DescriptorFill { index: (head + 1) % QUEUE_SIZE, len: len as u32, flags: 1 },
            DescriptorFill { index: (head + 2) % QUEUE_SIZE, len: 8, flags: 2 },
        ];
        assert(fills@ =~= seq![
            fill(head, 0, 4, 1),
            fill(head, 1, len as int, 1),
            fill(head, 2, 8, 2),
        ]);
        self.tx = Some(q);
        self.tx_count = if self.tx_count == u32::MAX { 0 } else { self.tx_count + 1 };
        Some(TxBuffer { slot, fills, avail_idx: q.last_avail_idx, data: chunk })
    }

    /// Silence is wanted: the stream runs and its queue is low.
    pub open spec fn wants_silence(self, used: u16) -> bool {
        self.initialized && self.stream_active && self.backlog(used) < TX_TOPUP_BUFS
    }

    /// Queues one buffer of silence if the queue is low, and there is room. To be
    /// called until it queues none.
    pub fn top_up_silence(&mut self, used: u16) -> (b: Option<TxBuffer>)
        requires
            old(self).inv(),
        ensures
            final(self).inv(),
            !old(self).wants_silence(used) ==> *final(self) == *old(self),
            old(self).wants_silence(used) ==> *final(self) == old(self).queued(used),
            b is Some <==> old(self).wants_silence(used) && old(self).has_room(used),
            b is Some ==> old(self).is_buffer(b->0, used, Seq::new(512, |i: int| 0u8)),
    {
        if !self.initialized || !self.stream_active || self.tx_level(used) >= TX_TOPUP_BUFS {
            return None;
        }
        let silence = [0u8; 512];
        let ghost quiet = Seq::new(512, |i: int| 0u8);
        assert(silence@ =~= quiet);
        self.send_pcm_data(used, silence.as_slice())
    }
}

/// Where silence is wanted there is room for it, and it brings the queue one
/// buffer nearer to its mark. So a queue that is topped up never runs empty for
/// want of room, as long as the device's reports can be taken in.
pub proof fn lemma_silence_has_room(s: VirtioSnd, used: u16)
    requires
        s.inv(),
        s.tx->0.takes(used),
        s.wants_silence(used),
    ensures
        s.has_room(used),
        s.queued(used).backlog(used) == s.backlog(used) + 1,
{
    let q = s.tx->0;
    let r = q.reclaimed(used);
    let n = ahead(used, q.last_used_idx);
    lemma_chain(3, q.level());
    lemma_chain(3, n);
}

/// A device that has reported more buffers played than it was given gets nothing
/// more to play.
pub proof fn lemma_overrun_gets_nothing(s: VirtioSnd, used: u16)
    requires
        s.inv(),
        s.tx is Some,
        s.tx->0.takes(used),
        !s.tx->0.reclaimed(used).sane(),
    ensures
        !s.has_room(used),
        !s.wants_silence(used),
{
    let q = s.tx->0;
    lemma_chain(3, q.level());
    lemma_chain(3, ahead(used, q.last_used_idx));
}

impl VirtioSnd {
    /// A control command can be sent.
    pub open spec fn can_command(self) -> bool {
        self.ctrl is Some && self.ctrl->0.num_free >= 2
    }

    /// Hands a control command to the device.
    pub fn send_control_cmd(&mut self, command: Vec<u8>) -> (r: CtrlRequest)
        requires
            old(self).inv(),
            old(self).can_command(),
            command@.len() <= 128,
        ensures
            final(self).inv(),
            *final(self) == (VirtioSnd {
                ctrl: Some(old(self).ctrl->0.submitted()),
                ..*old(self)
            }),
            r.slot == old(self).ctrl->0.last_avail_idx % 256,
            r.avail_idx == after(old(self).ctrl->0.last_avail_idx),
            r.command@ == command@,
            r.fills@ == seq![
                fill(old(self).ctrl->0.free_head, 0, command@.len() as int, 1),
                fill(old(self).ctrl->0.free_head, 1, 4, 2),
            ],
    {
        let mut q = self.ctrl.unwrap();
        let (slot, head) = q.submit();
        self.ctrl = Some(q);
        let fills = [
            DescriptorFill { index: head % QUEUE_SIZE, len: command.len() as u32, flags: 1 },
            DescriptorFill { index: (head + 1) % QUEUE_SIZE, len: 4, flags: 2 },
        ];
        assert(fills@ =~= seq![fill(head, 0, command@.len() as int, 1), fill(head, 1, 4, 2)]);
        CtrlRequest { slot, fills, avail_idx: q.last_avail_idx, command }
    }

    /// What a look says, after `looks` looks.
    pub open spec fn awaited(self, used: u16, looks: u32) -> CtrlWait {
        if looks >= CTRL_LOOKS {
            CtrlWait::TimedOut
        } else if used == self.ctrl->0.last_used_idx || !self.ctrl->0.takes(used) {
            CtrlWait::Again
        } else {
            CtrlWait::Answered
        }
    }

    /// One look for the answer to a control command, given what the device
    /// reports. A report that cannot be taken in is no answer.
    /// An answer is taken back from the queue; its status is then what
    /// the device wrote. That of a command that timed out is `CTRL_TIMED_OUT`.
    pub fn control_step(&mut self, used: u16, looks: u32) -> (w: CtrlWait)
        requires
            old(self).inv(),
            old(self).ctrl is Some,
        ensures
            final(self).inv(),
            w == old(self).awaited(used, looks),
            w != CtrlWait::Answered ==> *final(self) == *old(self),
            w == CtrlWait::Answered ==> *final(self) == (VirtioSnd {
                ctrl: Some(old(self).ctrl->0.reclaimed(used)),
                ..*old(self)
            }),
    {
        if looks >= CTRL_LOOKS {
            return CtrlWait::TimedOut;
        }
        let mut q = self.ctrl.unwrap();
        if used == q.last_used_idx {
            return CtrlWait::Again;
        }
        if !q.reclaim(used) {
            return CtrlWait::Again;
        }
        self.ctrl = Some(q);
        CtrlWait::Answered
    }

    /// Where a write tells the device to look at a queue.
    pub fn notify_address(&self, notify_off: u16) -> (addr: u64)
        requires
            self.notify_cfg + notify_off * self.notify_off_multiplier <= u64::MAX,
        ensures
            addr == self.notify_cfg + notify_off * self.notify_off_multiplier,
    {
        assert(notify_off * self.notify_off_multiplier >= 0) by (nonlinear_arith)
            requires
                notify_off >= 0,
                self.notify_off_multiplier >= 0,
        ;
        self.notify_cfg + notify_off as u64 * self.notify_off_multiplier as u64
    }
}

/// One of the card's register blocks.
#[derive(Debug, Clone, Copy, PartialEq, Eq, Structural)]
pub struct Block {
    /// 1: the common registers. 2: the ones that tell of a queue.
    pub typ: u8,
    /// The memory to map.
    pub phys: u64,
    pub map_size: u64,
    /// Where in it the block starts.
    pub offset: u32,
    /// How far apart the registers of two queues are; 0 in other blocks.
    pub multiplier: u32,
}

/// The address that a base register holds, together with the next one if it is a
/// wide one.
pub open spec fn bar_address(space: ConfigSpace, bars: Seq<u32>, i: int) -> int {
    let low = bars[i];
    low / 16 * 16 + (if low / 2 % 4 == 2 && i < 5 {
        space.words@[5 + i] * 0x1_0000_0000
    } else {
        0
    })
}

/// The register block that the capability at `ptr` describes, if it is one that
/// does so and that fits into the space. Only the registers that tell of a queue
/// have a multiplier, behind the rest.
pub open spec fn block_at(space: ConfigSpace, bars: Seq<u32>, ptr: u8) -> Option<Block> {
    let four = |o: int|
        word_of(space.at(ptr + o), space.at(ptr + o + 1), space.at(ptr + o + 2), space.at(ptr + o + 3));
    let bar = space.at(ptr + 4);
    let typ = space.at(ptr + 3);
    if space.at(ptr as int) != 9 || ptr > 240 || bar >= 6 || (typ == 2 && ptr > 236) {
        None
    } else if bar_address(space, bars, bar as int) == 0 {
        None
    } else {
        let whole = (four(8) + four(12) + 4095) / 4096 * 4096;
        Some(
            Block {
                typ,
                phys: bar_address(space, bars, bar as int) as u64,
                map_size: if whole > 0x10000 { whole as u64 } else { 0x10000 },
                offset: four(8),
                multiplier: if typ == 2 {
                    four(16)
                } else {
                    0
                },
            },
        )
    }
}

/// The register blocks along the list of capabilities, at most `left` of them.
pub open spec fn blocks_from(space: ConfigSpace, bars: Seq<u32>, ptr: u8, left: nat) -> Seq<Block>
    decreases left,
{
    if ptr == 0 || left == 0 {
        Seq::empty()
    } else {
        let here = match block_at(space, bars, ptr) {
            Some(b) => seq![b],
            None => Seq::empty(),
        };
        if ptr == 255 {
            here
        } else {
            here + blocks_from(space, bars, space.at(ptr + 1), (left - 1) as nat)
        }
    }
}

fn read_block_at(space: &ConfigSpace, bars: &[u32; 6], ptr: u8) -> (b: Option<Block>)
    ensures
        b == block_at(*space, bars@, ptr),
{
    if pci_read_config_8(space, ptr) != 9 || ptr > 240 {
        return None;
    }
    let bar: u8 = pci_read_config_8(space, ptr + 4);
    let typ: u8 = pci_read_config_8(space, ptr + 3);
    if bar >= 6 || (typ == 2 && ptr > 236) {
        return None;
    }
    let low: u32 = bars[bar as usize];
    let high: u32 = if low / 2 % 4 == 2 && bar < 5 { space.words[5 + bar as usize] } else { 0 };
    let phys: u64 = (low / 16 * 16) as u64 + high as u64 * 0x1_0000_0000;
    if phys == 0 {
        return None;
    }
    let offset: u32 = pci_read_config_32_any(space, ptr + 8);
    let len: u32 = pci_read_config_32_any(space, ptr + 12);
    let whole: u64 = (offset as u64 + len as u64 + 4095) / 4096 * 4096;
    Some(
        Block {
            typ,
            phys,
            map_size: if whole > 0x10000 { whole } else { 0x10000 },
            offset,
            multiplier: if typ == 2 {
                pci_read_config_32_any(space, ptr + 16)
            } else {
                0
            },
        },
    )
}

/// The register blocks that a card's configuration space describes, in order.
pub fn parse_caps(space: &ConfigSpace, bars: &[u32; 6]) -> (blocks: Vec<Block>)
    ensures
        blocks@ == blocks_from(*space, bars@, space.at(0x34), 256),
{
    let mut blocks: Vec<Block> = Vec::new();
    let mut ptr: u8 = pci_read_config_8(space, 0x34);
    let mut left: u16 = 256;
    let ghost all = blocks_from(*space, bars@, space.at(0x34), 256);
    assert(all =~= blocks@ + all);
    while ptr != 0 && left > 0
        invariant
            all == blocks@ + blocks_from(*space, bars@, ptr, left as nat),
        decreases left,
    {
        let ghost before = blocks@;
        let ghost rest = if ptr == 255 {
            Seq::empty()
        } else {
            blocks_from(*space, bars@, space.at(ptr + 1), (left - 1) as nat)
        };
        match read_block_at(space, bars, ptr) {
            Some(b) => {
                blocks.push(b);
                assert(before + (seq![b] + rest) =~= blocks@ + rest);
            },
            None => {
                assert(before + (Seq::<Block>::empty() + rest) =~= blocks@ + rest);
            },
        }
        assert(all =~= blocks@ + rest);
        if ptr == 255 {
            ptr = 0;
        } else {
            ptr = pci_read_config_8(space, ptr + 1);
        }
        left = left - 1;
        assert(ptr == 0 || left == 0 ==> blocks_from(*space, bars@, ptr, left as nat)
            =~= Seq::empty());
    }
    assert(all =~= blocks@);
    blocks
}

impl VirtioSnd {
    /// The card with a register block at its place in memory.
    pub open spec fn placed(self, b: Block, base: u64) -> VirtioSnd {
        let at = (base + b.offset) as u64;
        if b.typ == 1 {
            VirtioSnd { common_cfg: at, ..self }
        } else if b.typ == 2 {
            VirtioSnd { notify_cfg: at, notify_off_multiplier: b.multiplier, ..self }
        } else {
            self
        }
    }

    /// Takes in where a register block was mapped.
    pub fn place_block(&mut self, b: &Block, base: u64)
        requires
            base + b.offset <= u64::MAX,
        ensures
            *final(self) == old(self).placed(*b, base),
    {
        let at: u64 = base + b.offset as u64;
        if b.typ == 1 {
            self.common_cfg = at;
        } else if b.typ == 2 {
            self.notify_cfg = at;
            self.notify_off_multiplier = b.multiplier;
        }
    }

    /// The card can be set up: its common registers were found.
    pub fn registers_found(&self) -> (r: Result<(), DriverError>)
        ensures
            r == (if self.common_cfg == 0 {
                Err::<(), DriverError>(DriverError::NotFound)
            } else {
                Ok(())
            }),
    {
        if self.common_cfg == 0 {
            Err(DriverError::NotFound)
        } else {
            Ok(())
        }
    }

    /// The card with queue `qid` set up.
    pub open spec fn with_queue(self, qid: u16, notify_off: u16) -> VirtioSnd {
        let q = |chain: u16|
            Some(
                VirtQueue {
                    id: qid,
                    notify_off,
                    chain,
                    last_avail_idx: 0,
                    last_used_idx: 0,
                    free_head: 0,
                    num_free: 256,
                },
            );
        if qid == VIRTIO_SND_VQ_CONTROL {
            VirtioSnd { ctrl: q(2), ..self }
        } else if qid == VIRTIO_SND_VQ_EVENT {
            VirtioSnd { event: q(2), ..self }
        } else if qid == VIRTIO_SND_VQ_TX {
            VirtioSnd { tx: q(3), ..self }
        } else {
            VirtioSnd { rx: q(3), ..self }
        }
    }

    /// Sets up queue `qid`, given the size that the card offers for it and where
    /// it wants to be told of it.
    pub fn init_vq(&mut self, qid: u16, size: u16, notify_off: u16) -> (r: Result<
        (),
        DriverError,
    >)
        requires
            old(self).inv(),
            qid <= VIRTIO_SND_VQ_RX,
        ensures
            final(self).inv(),
            size == 0 ==> r == Err::<(), DriverError>(DriverError::Unsupported) && *final(self)
                == *old(self),
            size != 0 ==> r is Ok && *final(self) == old(self).with_queue(qid, notify_off),
    {
        if size == 0 {
            return Err(DriverError::Unsupported);
        }
        if qid == VIRTIO_SND_VQ_CONTROL {
            self.ctrl = Some(VirtQueue::new(qid, notify_off, 2));
        } else if qid == VIRTIO_SND_VQ_EVENT {
            self.event = Some(VirtQueue::new(qid, notify_off, 2));
        } else if qid == VIRTIO_SND_VQ_TX {
            self.tx = Some(VirtQueue::new(qid, notify_off, 3));
        } else {
            self.rx = Some(VirtQueue::new(qid, notify_off, 3));
        }
        Ok(())
    }

    /// The card is ready once all its queues are.
    pub fn init_done(&mut self)
        requires
            old(self).inv(),
            old(self).ctrl is Some && old(self).event is Some,
            old(self).tx is Some && old(self).rx is Some,
        ensures
            final(self).inv(),
            *final(self) == (VirtioSnd { initialized: true, ..*old(self) }),
    {
        self.initialized = true;
    }
}

/// Of the second word of features, only the first is taken: the current version.
pub fn accepted_features(offered: u32) -> (taken: u32)
    ensures
        taken == offered % 2,
{
    offered % 2
}

/// Whether the card agrees with the features, by its status.
pub fn features_agreed(status: u8) -> (r: Result<(), DriverError>)
    ensures
        r == (if status / 8 % 2 == 0 {
            Err::<(), DriverError>(DriverError::Unsupported)
        } else {
            Ok(())
        }),
{
    if status / 8 % 2 == 0 {
        Err(DriverError::Unsupported)
    } else {
        Ok(())
    }
}

/// What a message asks of the device.
#[derive(Debug)]
pub enum SndRequest {
    Nothing,
    /// Send these commands.
    Configure(Vec<Vec<u8>>),
    /// Play this buffer.
    Play(TxBuffer),
}

/// How many bytes of sound a message says it holds.
pub open spec fn sound_len(msg: Message) -> u16 {
    u16_at(msg.data@, 0)
}

impl VirtioSnd {
    /// Answers a message, given what the device reports: with what to ask of the
    /// device, and with the reply.
    pub fn handle(&mut self, used: u16, msg: &Message) -> (r: (SndRequest, Message))
        requires
            old(self).inv(),
            msg.tag == 0x200 ==> sound_len(*msg) <= 54,
        ensures
            final(self).inv(),
            r.1.data@ == padded(Seq::empty()),
            r.1.tag == (if msg.tag == 0x1000 { 0x1001u64 } else { 0 }),
            match msg.tag {
                0x100 => {
                    let freq = u32_at(msg.data@, 0);
                    let channels = msg.data@[4];
                    &&& r.0 matches SndRequest::Configure(c)
                    &&& spelled(c@) == setup_commands(0, freq, channels)
                    &&& *final(self) == (VirtioSnd {
                        last_freq: freq,
                        last_channels: channels,
                        ..*old(self)
                    })
                },
                0x200 => {
                    let n = sound_len(*msg) as int;
                    let goes = n > 0 && old(self).has_room(used);
                    &&& goes ==> (r.0 matches SndRequest::Play(b) && old(self).is_buffer(
                        b,
                        used,
                        msg.data@.subrange(2, 2 + n),
                    ))
                    &&& !goes ==> r.0 is Nothing
                    &&& *final(self) == (if n > 0 { old(self).queued(used) } else { *old(self) })
                },
                _ => r.0 is Nothing && *final(self) == *old(self),
            },
    {
        let mut reply = Message::empty();
        if msg.tag == 0x100 {
            let freq: u32 = read_u32(msg.data.as_slice(), 0);
            let c = self.reconfigure_stream(0, freq, msg.data[4]);
            return (SndRequest::Configure(c), reply);
        }
        if msg.tag == 0x200 {
            let n: usize = read_u16(msg.data.as_slice(), 0) as usize;
            if n == 0 {
                return (SndRequest::Nothing, reply);
            }
            let sound = vstd::slice::slice_subrange(msg.data.as_slice(), 2, 2 + n);
            return match self.send_pcm_data(used, sound) {
                Some(b) => (SndRequest::Play(b), reply),
                None => (SndRequest::Nothing, reply),
            };
        }
        if msg.tag == 0x1000 {
            reply.tag = 0x1001;
        }
        (SndRequest::Nothing, reply)
    }
}

} // verus!
