//! The property mailbox of the VideoCore firmware: messages, replies, and the
//! steps by which it is asked for a framebuffer.
use vstd::prelude::*;

verus! {

/// The boards with a property mailbox.
#[derive(Debug, Clone, Copy, PartialEq, Eq, Structural)]
pub enum Board {
    Rpi5,
    Raspi4b,
}

/// Words of the message buffer.
pub const BUF_WORDS: usize = 64;

/// A mailbox that takes no more, and one that holds nothing.
pub const MBOX_FULL: u32 = 0x8000_0000;

pub const MBOX_EMPTY: u32 = 0x4000_0000;

/// The channel of property messages.
pub const CHAN_PROPERTY: u32 = 8;

/// Where the firmware sees the first byte of memory, and how much of memory it
/// sees there.
pub const BUS_ALIAS: u64 = 0xC000_0000;

pub const BUS_LIMIT: u64 = 0x4000_0000;

/// Tags.
pub const TAG_GET_FIRMWARE_REV: u32 = 0x0000_0001;

pub const TAG_GET_BOARD_REV: u32 = 0x0001_0002;

pub const TAG_GET_ARM_MEMORY: u32 = 0x0001_0005;

pub const TAG_GET_VC_MEMORY: u32 = 0x0001_0006;

pub const TAG_GET_PHYSICAL_WH: u32 = 0x0004_0003;

pub const TAG_ALLOCATE_BUFFER: u32 = 0x0004_0001;

pub const TAG_GET_PITCH: u32 = 0x0004_0008;

pub const TAG_RELEASE_BUFFER: u32 = 0x0004_8001;

pub const TAG_SET_PHYSICAL_WH: u32 = 0x0004_8003;

pub const TAG_SET_VIRTUAL_WH: u32 = 0x0004_8004;

pub const TAG_SET_DEPTH: u32 = 0x0004_8005;

pub const TAG_SET_PIXEL_ORDER: u32 = 0x0004_8006;

pub const TAG_SET_VIRTUAL_OFFSET: u32 = 0x0004_8009;

pub const REQ_CODE: u32 = 0;

pub const RESP_SUCCESS: u32 = 0x8000_0000;

/// Blue in the lowest byte.
pub const PIXEL_ORDER_BGR: u32 = 0;

/// Alignment of the framebuffer.
pub const FB_ALIGN: u32 = 4096;

/// Why there is no framebuffer.
#[derive(Debug, Clone, Copy, PartialEq, Eq, Structural)]
pub enum MboxError {
    /// The mailbox did not take the message, or did not reply.
    Timeout,
    /// The reply's code says that it failed.
    BadCode(u32),
    /// A tag came back with a value that cannot be used.
    TagFailed(u32),
    /// The firmware cannot reach the message buffer.
    BufOutOfRange(u64),
    /// No display, or the firmware did not allocate.
    NoDisplay,
    /// The message is longer than the buffer.
    TooLong,
}

/// A framebuffer that the firmware allocated.
#[derive(Debug, Clone, Copy, PartialEq, Eq, Structural)]
pub struct FbAlloc {
    pub phys: u64,
    /// The address as the firmware gave it.
    pub bus: u64,
    /// Bytes allocated.
    pub size: u64,
    pub width: u32,
    pub height: u32,
    /// Rows of the buffer, the visible ones among them.
    pub virt_height: u32,
    /// Bytes per row.
    pub pitch: u32,
    pub depth: u32,
}

impl FbAlloc {
    /// The visible rows are in the buffer, the buffer is in what was allocated,
    /// and a row holds its pixels.
    pub open spec fn fits(self) -> bool {
        &&& 0 < self.height <= self.virt_height
        &&& 0 < self.width
        &&& self.width * 4 <= self.pitch
        &&& self.pitch * self.virt_height <= self.size
        &&& self.depth == 32
    }

    /// The bytes that nothing else may use: the whole buffer.
    pub fn reserve_len(&self) -> (len: u64)
        ensures
            len == (if self.size > self.pitch * self.virt_height {
                self.size as int
            } else {
                self.pitch * self.virt_height
            }),
    {
        assert(0 <= self.pitch * self.virt_height <= 0xffff_ffff * 0xffff_ffff)
            by (nonlinear_arith)
            requires
                self.pitch <= 0xffff_ffff,
                self.virt_height <= 0xffff_ffff,
        ;
        let geom: u64 = self.pitch as u64 * self.virt_height as u64;
        if self.size > geom {
            self.size
        } else {
            geom
        }
    }
}

/// Where the mailbox is.
pub fn mbox_base(board: Board) -> (base: u64)
    ensures
        base == (match board {
            Board::Rpi5 => 0x10_7C01_3880u64,
            Board::Raspi4b => 0xFE00_B880,
        }),
{
    match board {
        Board::Rpi5 => 0x10_7C01_3880,
        Board::Raspi4b => 0xFE00_B880,
    }
}

/// Where the message buffer is on a board that has it at a fixed place.
pub const MBOX_BUF_PHYS: u64 = 0x0010_0000;

/// The page that has to be kept free for the message buffer: none on a board
/// that has it in the kernel's image.
pub fn scratch_reservation(board: Board) -> (range: Option<(u64, u64)>)
    ensures
        range == (match board {
            Board::Rpi5 => None,
            Board::Raspi4b => Some((MBOX_BUF_PHYS, (MBOX_BUF_PHYS + 4096) as u64)),
        }),
{
    match board {
        Board::Rpi5 => None,
        Board::Raspi4b => Some((MBOX_BUF_PHYS, MBOX_BUF_PHYS + 4096)),
    }
}

/// The word that tells the firmware of a message: where it is on the firmware's
/// bus, with the channel in the low four bits. The message has to fit the
/// buffer, and the buffer has to be within reach and aligned.
pub fn doorbell(words: usize, buf_phys: u64) -> (r: Result<u32, MboxError>)
    ensures
        r == (if words > BUF_WORDS {
            Err(MboxError::TooLong)
        } else if buf_phys + BUF_WORDS * 4 > BUS_LIMIT || buf_phys % 16 != 0 {
            Err(MboxError::BufOutOfRange(buf_phys))
        } else {
            Ok((buf_phys + BUS_ALIAS + CHAN_PROPERTY) as u32)
        }),
{
    if words > BUF_WORDS {
        return Err(MboxError::TooLong);
    }
    if buf_phys > BUS_LIMIT - (BUF_WORDS as u64) * 4 || buf_phys % 16 != 0 {
        return Err(MboxError::BufOutOfRange(buf_phys));
    }
    Ok((buf_phys + BUS_ALIAS + CHAN_PROPERTY as u64) as u32)
}

/// The firmware can tell the channel from the address.
pub proof fn lemma_doorbell_splits(buf_phys: u64)
    requires
        buf_phys + BUF_WORDS * 4 <= BUS_LIMIT,
        buf_phys % 16 == 0,
    ensures
        ({
            let word = (buf_phys + BUS_ALIAS + CHAN_PROPERTY) as u32;
            &&& word % 16 == CHAN_PROPERTY
            &&& word - word % 16 == buf_phys + BUS_ALIAS
        }),
{
}

/// Timer ticks in about two seconds.
pub fn timeout_ticks(frequency: u64) -> (ticks: u64)
    requires
        frequency <= u64::MAX / 2,
    ensures
        ticks == (if frequency == 0 {
            200_000_000
        } else {
            frequency * 2
        }),
{
    if frequency == 0 {
        200_000_000
    } else {
        frequency * 2
    }
}

/// Whether a deadline has passed, on a timer that wraps around.
pub open spec fn passed(now: u64, deadline: u64) -> bool {
    (now - deadline) % 0x1_0000_0000_0000_0000 < 0x8000_0000_0000_0000
}

pub fn deadline_passed(now: u64, deadline: u64) -> (r: bool)
    ensures
        r == passed(now, deadline),
{
    let ahead = now.wrapping_sub(deadline);
    ahead < 0x8000_0000_0000_0000
}

/// A deadline within half the timer's range ahead has not passed, and has
/// passed once it is reached, whether or not the timer wraps in between.
pub proof fn lemma_deadline(start: u64, ticks: u64, elapsed: u64)
    requires
        0 < ticks <= 0x8000_0000_0000_0000,
        elapsed < 0x8000_0000_0000_0000,
    ensures
        ({
            let wrap = 0x1_0000_0000_0000_0000int;
            let deadline = ((start + ticks) % wrap) as u64;
            let now = ((start + elapsed) % wrap) as u64;
            passed(now, deadline) <==> elapsed >= ticks
        }),
{
    let wrap = 0x1_0000_0000_0000_0000int;
    let deadline = ((start + ticks) % wrap) as u64;
    let now = ((start + elapsed) % wrap) as u64;
    let d = elapsed - ticks;
    let k = now - deadline;
    assert(k == d || k == d + wrap || k == d - wrap);
    if elapsed >= ticks {
        assert(k % wrap == d);
    } else {
        assert(k % wrap == d + wrap);
    }
}

/// What to do next while waiting for a reply.
#[derive(Debug, Clone, Copy, PartialEq, Eq, Structural)]
pub enum Drain {
    /// The time is up.
    TimedOut,
    /// Nothing there yet.
    Wait,
    /// A word can be read.
    Read,
}

/// What to do next, given the time and the mailbox's status. One deadline holds
/// for the whole wait, however many words of other channels come by.
pub fn drain_step(now: u64, deadline: u64, status: u32) -> (d: Drain)
    ensures
        d == (if passed(now, deadline) {
            Drain::TimedOut
        } else if status & MBOX_EMPTY != 0 {
            Drain::Wait
        } else {
            Drain::Read
        }),
{
    if deadline_passed(now, deadline) {
        Drain::TimedOut
    } else if status & MBOX_EMPTY != 0 {
        Drain::Wait
    } else {
        Drain::Read
    }
}

/// Whether a word that was read is ours.
pub fn is_our_reply(word: u32) -> (r: bool)
    ensures
        r == (word % 16 == CHAN_PROPERTY),
{
    word % 16 == CHAN_PROPERTY
}

/// Whether a reply says that the message was processed.
pub fn check_reply(reply: &Vec<u32>) -> (r: Result<(), MboxError>)
    requires
        reply@.len() > 1,
    ensures
        r == (if reply@[1] == RESP_SUCCESS {
            Ok(())
        } else {
            Err(MboxError::BadCode(reply@[1]))
        }),
{
    if reply[1] != RESP_SUCCESS {
        Err(MboxError::BadCode(reply[1]))
    } else {
        Ok(())
    }
}

/// From word `at` on, a message is tags one after the other (each a number, the
/// bytes of its values, a request code and the values), and a zero at the very
/// end.
pub open spec fn tags_from(m: Seq<u32>, at: int) -> bool
    decreases (if at < m.len() { m.len() - at } else { 0 }),
{
    if at < 0 || at >= m.len() {
        false
    } else if m[at] == 0 {
        at == m.len() - 1
    } else {
        &&& at + 2 < m.len()
        &&& m[at + 1] % 4 == 0
        &&& m[at + 2] == REQ_CODE
        &&& tags_from(m, at + 3 + m[at + 1] / 4)
    }
}

/// A message: its length in bytes, a request code, and tags.
pub open spec fn well_formed(m: Seq<u32>) -> bool {
    &&& m.len() <= BUF_WORDS
    &&& m[0] == m.len() * 4
    &&& m[1] == REQ_CODE
    &&& tags_from(m, 2)
}

/// Asks for revisions, memory and the size of the display.
pub open spec fn probe_message() -> Seq<u32> {
    seq![
        104,
        REQ_CODE,
        TAG_GET_FIRMWARE_REV,
        4,
        REQ_CODE,
        0,
        TAG_GET_BOARD_REV,
        4,
        REQ_CODE,
        0,
        TAG_GET_ARM_MEMORY,
        8,
        REQ_CODE,
        0,
        0,
        TAG_GET_VC_MEMORY,
        8,
        REQ_CODE,
        0,
        0,
        TAG_GET_PHYSICAL_WH,
        8,
        REQ_CODE,
        0,
        0,
        0,
    ]
}

/// Asks for a framebuffer of the given size and rows.
pub open spec fn attempt_message(w: u32, h: u32, virt_h: u32) -> Seq<u32> {
    seq![
        140,
        REQ_CODE,
        TAG_SET_PHYSICAL_WH,
        8,
        REQ_CODE,
        w,
        h,
        TAG_SET_VIRTUAL_WH,
        8,
        REQ_CODE,
        w,
        virt_h,
        TAG_SET_VIRTUAL_OFFSET,
        8,
        REQ_CODE,
        0,
        0,
        TAG_SET_DEPTH,
        4,
        REQ_CODE,
        32,
        TAG_SET_PIXEL_ORDER,
        4,
        REQ_CODE,
        PIXEL_ORDER_BGR,
        TAG_ALLOCATE_BUFFER,
        8,
        REQ_CODE,
        FB_ALIGN,
        0,
        TAG_GET_PITCH,
        4,
        REQ_CODE,
        0,
        0,
    ]
}

/// Gives a framebuffer back.
pub open spec fn release_message() -> Seq<u32> {
    seq![24, REQ_CODE, TAG_RELEASE_BUFFER, 0, REQ_CODE, 0]
}

/// The messages are well-formed, whatever sizes they ask for.
pub proof fn lemma_messages_are_well_formed(w: u32, h: u32, virt_h: u32)
    ensures
        well_formed(probe_message()),
        well_formed(attempt_message(w, h, virt_h)),
        well_formed(release_message()),
{
    reveal_with_fuel(tags_from, 9);
}

pub fn build_probe() -> (m: Vec<u32>)
    ensures
        m@ == probe_message(),
{
    let m = vec![
        104, REQ_CODE, TAG_GET_FIRMWARE_REV, 4, REQ_CODE, 0, TAG_GET_BOARD_REV, 4, REQ_CODE, 0,
        TAG_GET_ARM_MEMORY, 8, REQ_CODE, 0, 0, TAG_GET_VC_MEMORY, 8, REQ_CODE, 0, 0,
        TAG_GET_PHYSICAL_WH, 8, REQ_CODE, 0, 0, 0,
    ];
    assert(m@ =~= probe_message());
    m
}

pub fn build_attempt(w: u32, h: u32, virt_h: u32) -> (m: Vec<u32>)
    ensures
        m@ == attempt_message(w, h, virt_h),
{
    let m = vec![
        140, REQ_CODE, TAG_SET_PHYSICAL_WH, 8, REQ_CODE, w, h, TAG_SET_VIRTUAL_WH, 8, REQ_CODE, w,
        virt_h, TAG_SET_VIRTUAL_OFFSET, 8, REQ_CODE, 0, 0, TAG_SET_DEPTH, 4, REQ_CODE, 32,
        TAG_SET_PIXEL_ORDER, 4, REQ_CODE, PIXEL_ORDER_BGR, TAG_ALLOCATE_BUFFER, 8, REQ_CODE,
        FB_ALIGN, 0, TAG_GET_PITCH, 4, REQ_CODE, 0, 0,
    ];
    assert(m@ =~= attempt_message(w, h, virt_h));
    m
}

pub fn build_release() -> (m: Vec<u32>)
    ensures
        m@ == release_message(),
{
    let m = vec![24, REQ_CODE, TAG_RELEASE_BUFFER, 0, REQ_CODE, 0];
    assert(m@ =~= release_message());
    m
}

/// What the firmware says of itself and the display.
#[derive(Debug, Clone, Copy, PartialEq, Eq, Structural)]
pub struct DisplayProbe {
    pub firmware_rev: u32,
    pub board_rev: u32,
    pub arm_base: u32,
    pub arm_size: u32,
    pub vc_base: u64,
    pub vc_size: u64,
    /// Size of the display; zeros where there is none.
    pub width: u32,
    pub height: u32,
}

/// Reads the reply to a probe.
pub open spec fn probe_of(r: Seq<u32>) -> DisplayProbe {
    DisplayProbe {
        firmware_rev: r[5],
        board_rev: r[9],
        arm_base: r[13],
        arm_size: r[14],
        vc_base: r[18] as u64,
        vc_size: r[19] as u64,
        width: r[23],
        height: r[24],
    }
}

/// Reads the reply to a probe: the size of the display, and the firmware's
/// memory.
pub fn probe(r: &Vec<u32>) -> (p: DisplayProbe)
    requires
        r@.len() >= 25,
    ensures
        p == probe_of(r@),
{
    DisplayProbe {
        firmware_rev: r[5],
        board_rev: r[9],
        arm_base: r[13],
        arm_size: r[14],
        vc_base: r[18] as u64,
        vc_size: r[19] as u64,
        width: r[23],
        height: r[24],
    }
}

/// An address lies in the firmware's own memory.
pub open spec fn in_vc(addr: int, vc_base: int, vc_size: int) -> bool {
    vc_base <= addr < vc_base + vc_size
}

/// The address in memory of an address on the firmware's bus: the low thirty
/// bits, unless only the address as it stands lies in the firmware's memory.
/// Also whether bits were taken off, and whether the result lies there.
pub open spec fn phys_of(bus: u64, vc_base: int, vc_size: int) -> (u64, bool, bool) {
    let masked = (bus % BUS_LIMIT) as u64;
    if !in_vc(masked as int, vc_base, vc_size) && in_vc(bus as int, vc_base, vc_size) {
        (bus, false, true)
    } else {
        (masked, true, in_vc(masked as int, vc_base, vc_size))
    }
}

/// Turns an address on the firmware's bus into one in memory.
pub fn bus_to_phys(bus: u64, vc: (u64, u64)) -> (r: (u64, bool, bool))
    requires
        vc.0 + vc.1 <= u64::MAX,
    ensures
        r == phys_of(bus, vc.0 as int, vc.1 as int),
{
    let masked: u64 = bus % BUS_LIMIT;
    let masked_in = masked >= vc.0 && masked < vc.0 + vc.1;
    let bus_in = bus >= vc.0 && bus < vc.0 + vc.1;
    if !masked_in && bus_in {
        (bus, false, true)
    } else {
        (masked, true, masked_in)
    }
}

/// What memory's address becomes on the bus turns back into it, where it lies
/// in the firmware's memory.
pub proof fn lemma_bus_address_turns_back(phys: u64, vc_base: int, vc_size: int)
    requires
        phys < BUS_LIMIT,
        in_vc(phys as int, vc_base, vc_size),
    ensures
        phys_of((phys + BUS_ALIAS) as u64, vc_base, vc_size) == (phys, true, true),
        phys_of(phys, vc_base, vc_size) == (phys, true, true),
{
}

pub open spec fn least(a: int, b: int) -> int {
    if a <= b { a } else { b }
}

/// Four bytes per pixel, at most the largest number.
pub open spec fn tight_pitch(width: u32) -> int {
    least(width * 4, u32::MAX as int)
}

/// The framebuffer that a reply describes, or what is wrong with it. The rows
/// are cut to what was really allocated.
pub open spec fn alloc_of(r: Seq<u32>, vc_base: int, vc_size: int) -> Result<FbAlloc, MboxError> {
    let (w, h, vh, depth, bus, size, pitch) = (r[5], r[6], r[11], r[20], r[28], r[29], r[33]);
    let asked = if vh < h { h } else { vh };
    let rows = least(asked as int, (size / pitch) as int);
    let height = least(h as int, rows);
    if w == 0 || h == 0 || bus == 0 || size == 0 {
        Err(MboxError::NoDisplay)
    } else if depth != 32 {
        Err(MboxError::TagFailed(TAG_SET_DEPTH))
    } else if pitch < tight_pitch(w) {
        Err(MboxError::TagFailed(TAG_GET_PITCH))
    } else if height == 0 {
        Err(MboxError::TagFailed(TAG_ALLOCATE_BUFFER))
    } else {
        Ok(
            FbAlloc {
                phys: phys_of(bus as u64, vc_base, vc_size).0,
                bus: bus as u64,
                size: size as u64,
                width: w,
                height: height as u32,
                virt_height: rows as u32,
                pitch,
                depth,
            },
        )
    }
}

/// Reads the reply to a request for a framebuffer.
pub fn read_alloc(r: &Vec<u32>, vc: (u64, u64)) -> (a: Result<FbAlloc, MboxError>)
    requires
        r@.len() >= 35,
        vc.0 + vc.1 <= u64::MAX,
    ensures
        a == alloc_of(r@, vc.0 as int, vc.1 as int),
{
    let width = r[5];
    let got_h = r[6];
    let got_vh = r[11];
    let depth = r[20];
    let bus = r[28];
    let size = r[29];
    let pitch = r[33];
    if width == 0 || got_h == 0 || bus == 0 || size == 0 {
        return Err(MboxError::NoDisplay);
    }
    if depth != 32 {
        return Err(MboxError::TagFailed(TAG_SET_DEPTH));
    }
    let tight: u32 = match width.checked_mul(4) {
        Some(t) => t,
        None => u32::MAX,
    };
    if pitch < tight {
        return Err(MboxError::TagFailed(TAG_GET_PITCH));
    }
    let (phys, _, _) = bus_to_phys(bus as u64, vc);
    let mut height = got_h;
    let mut virt_height = if got_vh < got_h { got_h } else { got_vh };
    let rows_fit: u32 = size / pitch;
    if rows_fit < virt_height {
        virt_height = rows_fit;
    }
    if virt_height < height {
        height = virt_height;
    }
    if height == 0 {
        return Err(MboxError::TagFailed(TAG_ALLOCATE_BUFFER));
    }
    Ok(
        FbAlloc {
            phys,
            bus: bus as u64,
            size: size as u64,
            width,
            height,
            virt_height,
            pitch,
            depth,
        },
    )
}

/// A framebuffer that is accepted lies within what was allocated, whatever the
/// firmware replied, except that a width of a quarter of the number range or
/// more is not held against the bytes of a row.
pub proof fn lemma_accepted_framebuffer_fits(r: Seq<u32>, vc_base: int, vc_size: int)
    requires
        alloc_of(r, vc_base, vc_size) is Ok,
        r[5] <= u32::MAX / 4,
    ensures
        (alloc_of(r, vc_base, vc_size)->Ok_0).fits(),
{
    let a = alloc_of(r, vc_base, vc_size)->Ok_0;
    let (size, pitch) = (r[29], r[33]);
    assert(pitch * a.virt_height <= size) by (nonlinear_arith)
        requires
            0 < pitch,
            0 <= a.virt_height <= size / pitch,
            0 <= size,
    ;
}

/// How far the request for a framebuffer has come.
#[derive(Debug, Clone, Copy, PartialEq, Eq)]
pub enum FbRequest {
    /// The display is being asked for its size.
    Probing,
    /// A buffer of twice the visible rows has been asked for.
    Tall { w: u32, h: u32, vc: (u64, u64) },
    /// What that may have left is being given back.
    Releasing { w: u32, h: u32, vc: (u64, u64) },
    /// A buffer of just the visible rows has been asked for.
    Plain { vc: (u64, u64) },
}

/// What to do next: send a message, or stop.
#[derive(Debug)]
pub enum FbStep {
    Send(FbRequest, Vec<u32>),
    Stop(Result<FbAlloc, MboxError>),
}

/// Twice as many rows, at most the largest number.
pub open spec fn doubled(h: u32) -> u32 {
    least(h * 2, u32::MAX as int) as u32
}

/// The step is to send the given message and go on from the given state.
pub open spec fn sends(step: FbStep, next: FbRequest, m: Seq<u32>) -> bool {
    step matches FbStep::Send(s, v) && s == next && v@ == m
}

/// The windows of memory that a state remembers are numbers of the firmware's.
pub open spec fn request_ok(state: FbRequest) -> bool {
    match state {
        FbRequest::Probing => true,
        FbRequest::Tall { w, h, vc } => vc.0 + vc.1 <= u64::MAX,
        FbRequest::Releasing { w, h, vc } => vc.0 + vc.1 <= u64::MAX,
        FbRequest::Plain { vc } => vc.0 + vc.1 <= u64::MAX,
    }
}

/// The next step, given what came of the message of this one. The display's own
/// size is taken where it has one. A tall buffer is asked for first; if that
/// fails in any way it is given back, whatever comes of that, and a plain one is
/// asked for.
pub open spec fn is_next(
    step: FbStep,
    state: FbRequest,
    reply: Result<Vec<u32>, MboxError>,
    want_w: u32,
    want_h: u32,
) -> bool {
    match state {
        FbRequest::Probing => match reply {
            Err(e) => step == FbStep::Stop(Err(e)),
            Ok(r) => {
                let p = probe_of(r@);
                let own = p.width != 0 && p.height != 0;
                let w = if own { p.width } else { want_w };
                let h = if own { p.height } else { want_h };
                sends(
                    step,
                    FbRequest::Tall { w, h, vc: (p.vc_base, p.vc_size) },
                    attempt_message(w, h, doubled(h)),
                )
            },
        },
        FbRequest::Tall { w, h, vc } => match attempted(reply, vc) {
            Ok(fb) => step == FbStep::Stop(Ok(fb)),
            Err(_) => sends(step, FbRequest::Releasing { w, h, vc }, release_message()),
        },
        FbRequest::Releasing { w, h, vc } => sends(
            step,
            FbRequest::Plain { vc },
            attempt_message(w, h, h),
        ),
        FbRequest::Plain { vc } => step == FbStep::Stop(attempted(reply, vc)),
    }
}

/// The framebuffer that an attempt gave.
pub open spec fn attempted(reply: Result<Vec<u32>, MboxError>, vc: (u64, u64)) -> Result<
    FbAlloc,
    MboxError,
> {
    match reply {
        Ok(r) => alloc_of(r@, vc.0 as int, vc.1 as int),
        Err(e) => Err(e),
    }
}

fn read_attempt(reply: &Result<Vec<u32>, MboxError>, vc: (u64, u64)) -> (a: Result<
    FbAlloc,
    MboxError,
>)
    requires
        reply matches Ok(r) ==> r@.len() >= 35,
        vc.0 + vc.1 <= u64::MAX,
    ensures
        a == attempted(*reply, vc),
{
    match reply {
        Ok(r) => read_alloc(r, vc),
        Err(e) => Err(*e),
    }
}

/// The first step towards a framebuffer.
pub fn start_framebuffer() -> (step: FbStep)
    ensures
        sends(step, FbRequest::Probing, probe_message()),
{
    FbStep::Send(FbRequest::Probing, build_probe())
}

/// The next step towards a framebuffer. `reply` is the processed reply to the
/// last message, or why there is none.
pub fn init_framebuffer(
    state: FbRequest,
    reply: Result<Vec<u32>, MboxError>,
    want_w: u32,
    want_h: u32,
) -> (step: FbStep)
    requires
        request_ok(state),
        reply matches Ok(r) ==> r@.len() >= 35,
    ensures
        is_next(step, state, reply, want_w, want_h),
        step matches FbStep::Send(next, _) ==> request_ok(next),
{
    match state {
        FbRequest::Probing => match reply {
            Err(e) => FbStep::Stop(Err(e)),
            Ok(r) => {
                let p = probe(&r);
                let vc = (p.vc_base, p.vc_size);
                let own = p.width != 0 && p.height != 0;
                let w = if own { p.width } else { want_w };
                let h = if own { p.height } else { want_h };
                let tall: u32 = match h.checked_mul(2) {
                    Some(t) => t,
                    None => u32::MAX,
                };
                FbStep::Send(FbRequest::Tall { w, h, vc }, build_attempt(w, h, tall))
            },
        },
        FbRequest::Tall { w, h, vc } => match read_attempt(&reply, vc) {
            Ok(fb) => FbStep::Stop(Ok(fb)),
            Err(_) => FbStep::Send(FbRequest::Releasing { w, h, vc }, build_release()),
        },
        FbRequest::Releasing { w, h, vc } => FbStep::Send(
            FbRequest::Plain { vc },
            build_attempt(w, h, h),
        ),
        FbRequest::Plain { vc } => FbStep::Stop(read_attempt(&reply, vc)),
    }
}

/// How many messages are still to be sent at most.
pub open spec fn messages_left(state: FbRequest) -> int {
    match state {
        FbRequest::Probing => 3,
        FbRequest::Tall { .. } => 2,
        FbRequest::Releasing { .. } => 1,
        FbRequest::Plain { .. } => 0,
    }
}

/// The request ends: every message brings it closer, whatever is replied.
pub proof fn lemma_request_ends(
    step: FbStep,
    state: FbRequest,
    reply: Result<Vec<u32>, MboxError>,
    want_w: u32,
    want_h: u32,
)
    requires
        is_next(step, state, reply, want_w, want_h),
    ensures
        step matches FbStep::Send(next, m) ==> 0 <= messages_left(next) < messages_left(state)
            && well_formed(m@),
{
    if let FbStep::Send(next, m) = step {
        match next {
            FbRequest::Tall { w, h, vc } => lemma_messages_are_well_formed(w, h, doubled(h)),
            _ => {
                if let FbRequest::Releasing { w, h, vc } = state {
                    lemma_messages_are_well_formed(w, h, h);
                } else {
                    lemma_messages_are_well_formed(0, 0, 0);
                }
            },
        }
    }
}

/// A short form of an error.
pub fn err_code(e: MboxError) -> (code: u32)
    ensures
        code == (match e {
            MboxError::Timeout => 0xE000_0001u32,
            MboxError::BadCode(c) => c,
            MboxError::TagFailed(t) => t,
            MboxError::BufOutOfRange(_) => 0xE000_0002,
            MboxError::NoDisplay => 0xE000_0003,
            MboxError::TooLong => 0xE000_0004,
        }),
{
    match e {
        MboxError::Timeout => 0xE000_0001,
        MboxError::BadCode(c) => c,
        MboxError::TagFailed(t) => t,
        MboxError::BufOutOfRange(_) => 0xE000_0002,
        MboxError::NoDisplay => 0xE000_0003,
        MboxError::TooLong => 0xE000_0004,
    }
}

} // verus!
