//! The kernel's console on the shared surface.
//!
//! The console and the display clients draw on the same surface. Whoever
//! presents a frame takes the scanout and silences the console; the console
//! comes back when that client gives the scanout back. Flushing to the device
//! can be held back while a burst of output is written.
use crate::framebuffer::{BootFramebuffer, Framebuffer};
use crate::screen::{surface_ok, Screen};
use vstd::prelude::*;

verus! {

/// Nobody scans out: the console owns the surface.
pub const SCANOUT_UNOWNED: u32 = 0;

/// A client without an identity of its own scans out.
pub const SCANOUT_ANON: u32 = 0xFFFF_FFFF;

/// Records the framebuffer that the boot information describes. The last call
/// counts.
pub fn set_boot_framebuffer(
    boot: &mut Option<BootFramebuffer>,
    base: u64,
    width: u32,
    height: u32,
    pitch: u32,
)
    ensures
        *final(boot) == Some(BootFramebuffer { base, width, height, pitch }),
{
    *boot = Some(BootFramebuffer { base, width, height, pitch });
}

/// The recorded framebuffer: base, width, height and bytes per row.
pub fn get_hardware_fb_info(boot: &Option<BootFramebuffer>) -> (info: Option<(u64, u32, u32, u32)>)
    ensures
        info == (match *boot {
            Some(fb) => Some((fb.base, fb.width, fb.height, fb.pitch)),
            None => None,
        }),
{
    match boot {
        Some(fb) => Some((fb.base, fb.width, fb.height, fb.pitch)),
        None => None,
    }
}

/// The console, who owns the scanout, and how deep the output bursts nest.
pub struct KernelConsole {
    pub fb: Framebuffer,
    /// The open that scans out.
    pub owner: u32,
    /// Whether console output reaches the screen.
    pub enabled: bool,
    /// Bursts under way.
    pub deferred: usize,
}

/// What the console shows when it comes back.
pub open spec fn resumed_message() -> Seq<u8> {
    seq![
        0x0a, 0x5b, 0x43, 0x6f, 0x6e, 0x73, 0x6f, 0x6c, 0x65, 0x20, 0x52, 0x65, 0x73, 0x75,
        0x6d, 0x65, 0x64, 0x5d, 0x0a, 0x3e, 0x20,
    ]
}

/// The console's screen when it comes back: empty but for the message.
pub open spec fn resumed(s: Screen) -> Screen {
    Screen { cursor_x: 0, cursor_y: 0, ..s.clear(0) }.puts(resumed_message())
}

/// The owner that an open's claim records.
pub open spec fn claimant(open_id: u32) -> u32 {
    if open_id == 0 { SCANOUT_ANON } else { open_id }
}

/// Whether the close of an open gives the scanout back.
pub open spec fn releases(owner: u32, open_id: u32) -> bool {
    &&& owner != SCANOUT_UNOWNED
    &&& open_id == 0 || owner == SCANOUT_ANON || owner == open_id
}

/// Writes a run of bytes to the console.
fn put_all(fb: &mut Framebuffer, bytes: &Vec<u8>)
    requires
        old(fb).inv(),
    ensures
        final(fb).inv(),
        final(fb)@ == old(fb)@.puts(bytes@),
{
    let ghost before = fb@;
    let mut i: usize = 0;
    assert(bytes@.take(0) =~= Seq::empty());
    while i < bytes.len()
        invariant
            i <= bytes@.len(),
            fb.inv(),
            fb@ == before.puts(bytes@.take(i as int)),
        decreases bytes@.len() - i,
    {
        proof {
            let next = bytes@.take(i + 1);
            assert(next.drop_last() =~= bytes@.take(i as int));
            assert(next.last() == bytes@[i as int]);
        }
        fb.putc(bytes[i]);
        i = i + 1;
    }
    assert(bytes@.take(i as int) =~= bytes@);
}

/// The message as a run of bytes.
fn resumed_bytes() -> (bytes: Vec<u8>)
    ensures
        bytes@ == resumed_message(),
{
    let bytes: Vec<u8> = vec![
        0x0a, 0x5b, 0x43, 0x6f, 0x6e, 0x73, 0x6f, 0x6c, 0x65, 0x20, 0x52, 0x65, 0x73, 0x75,
        0x6d, 0x65, 0x64, 0x5d, 0x0a, 0x3e, 0x20,
    ];
    assert(bytes@ =~= resumed_message());
    bytes
}

impl KernelConsole {
    /// A console that owns the surface and has nothing to draw on yet.
    pub fn new() -> (c: KernelConsole)
        ensures
            c.fb.inv(),
            c.fb@ == Screen::fresh(),
            c.owner == SCANOUT_UNOWNED,
            c.enabled,
            c.deferred == 0,
    {
        KernelConsole {
            fb: Framebuffer::new(),
            owner: SCANOUT_UNOWNED,
            enabled: true,
            deferred: 0,
        }
    }

    /// Whether the console is silent exactly while a client scans out.
    pub open spec fn consistent(&self) -> bool {
        self.enabled == (self.owner == SCANOUT_UNOWNED)
    }

    /// Whether the console is silent while a client scans out. It may be silent
    /// for longer.
    pub open spec fn yields(&self) -> bool {
        self.owner != SCANOUT_UNOWNED ==> !self.enabled
    }
}

/// Turns console output off or on. Coming back clears the screen and says so.
pub fn set_console_disabled(console: &mut KernelConsole, disabled: bool)
    requires
        old(console).fb.inv(),
    ensures
        final(console).fb.inv(),
        final(console).enabled == !disabled,
        final(console).owner == old(console).owner,
        final(console).deferred == old(console).deferred,
        final(console).fb@ == (if disabled {
            old(console).fb@
        } else {
            resumed(old(console).fb@)
        }),
{
    console.enabled = !disabled;
    if !disabled {
        console.fb.clear(0);
        console.fb.home();
        let bytes = resumed_bytes();
        put_all(&mut console.fb, &bytes);
    }
}

/// The open that scans out, or [`SCANOUT_UNOWNED`].
pub fn scanout_owner(console: &KernelConsole) -> (owner: u32)
    ensures
        owner == console.owner,
{
    console.owner
}

/// An open has presented a frame: it takes the scanout, and the console falls
/// silent with the first claim.
pub fn drm_scanout_claim(console: &mut KernelConsole, open_id: u32)
    requires
        old(console).fb.inv(),
    ensures
        final(console).fb.inv(),
        final(console).fb@ == old(console).fb@,
        final(console).owner == claimant(open_id),
        final(console).enabled == (old(console).owner != SCANOUT_UNOWNED && old(console).enabled),
        final(console).deferred == old(console).deferred,
        old(console).consistent() ==> final(console).consistent(),
        old(console).yields() ==> final(console).yields(),
{
    let before = console.owner;
    console.owner = if open_id == 0 { SCANOUT_ANON } else { open_id };
    if before == SCANOUT_UNOWNED {
        set_console_disabled(console, true);
    }
}

/// An open has closed: the console comes back exactly if that open was the one
/// that scanned out, if the claim had no identity, or if the close has none.
pub fn drm_scanout_release(console: &mut KernelConsole, open_id: u32)
    requires
        old(console).fb.inv(),
    ensures
        final(console).fb.inv(),
        final(console).deferred == old(console).deferred,
        releases(old(console).owner, open_id) ==> {
            &&& final(console).owner == SCANOUT_UNOWNED
            &&& final(console).enabled
            &&& final(console).fb@ == resumed(old(console).fb@)
        },
        !releases(old(console).owner, open_id) ==> *final(console) == *old(console),
        old(console).consistent() ==> final(console).consistent(),
        old(console).yields() ==> final(console).yields(),
{
    let owner = console.owner;
    if owner == SCANOUT_UNOWNED {
        return ;
    }
    if open_id != 0 && owner != SCANOUT_ANON && owner != open_id {
        return ;
    }
    console.owner = SCANOUT_UNOWNED;
    set_console_disabled(console, false);
}

/// Takes the scanout back whoever holds it, without touching the screen.
pub fn console_force_reclaim(console: &mut KernelConsole)
    ensures
        *final(console) == (KernelConsole {
            owner: SCANOUT_UNOWNED,
            enabled: true,
            ..*old(console)
        }),
        final(console).consistent(),
{
    console.owner = SCANOUT_UNOWNED;
    console.enabled = true;
}

/// Writes one byte to the console.
pub fn fb_putc(console: &mut KernelConsole, c: u8)
    requires
        old(console).fb.inv(),
    ensures
        final(console).fb.inv(),
        final(console).fb@ == old(console).fb@.putc(c),
        final(console).owner == old(console).owner,
        final(console).enabled == old(console).enabled,
        final(console).deferred == old(console).deferred,
{
    console.fb.putc(c);
}

/// The cursor as row and column of cells, counted from one.
pub fn fb_cursor_cell(console: &KernelConsole) -> (cell: (usize, usize))
    requires
        console.fb.inv(),
    ensures
        cell.0 == console.fb@.row() + 1,
        cell.1 == console.fb@.col() + 1,
{
    console.fb.cursor_cell()
}

/// The size of the console as columns and rows of cells, or nothing before a
/// surface is there.
pub fn fb_console_size(console: &KernelConsole) -> (size: Option<(usize, usize)>)
    requires
        console.fb.inv(),
    ensures
        size is Some <==> console.fb@.width > 0 && console.fb@.height > 0,
        size matches Some((cols, rows)) ==> cols == console.fb@.cols() && rows
            == console.fb@.rows(),
{
    console.fb.size()
}

/// A burst of output, during which nothing is flushed. Bursts nest.
pub struct FlushBatch(());

impl FlushBatch {
    /// Begins a burst.
    pub fn new(console: &mut KernelConsole) -> (batch: FlushBatch)
        requires
            old(console).deferred < usize::MAX,
        ensures
            *final(console) == (KernelConsole {
                deferred: (old(console).deferred + 1) as usize,
                ..*old(console)
            }),
    {
        console.deferred = console.deferred + 1;
        FlushBatch(())
    }

    /// Ends the burst. The outermost one flushes what has changed.
    pub fn finish(self, console: &mut KernelConsole) -> (rect: Option<(usize, usize, usize, usize)>)
        requires
            old(console).fb.inv(),
            old(console).deferred > 0,
        ensures
            final(console).fb.inv(),
            final(console).deferred == old(console).deferred - 1,
            final(console).owner == old(console).owner,
            final(console).enabled == old(console).enabled,
            flush_step(
                old(console).fb@,
                old(console).deferred - 1,
                final(console).fb@,
                rect,
            ),
    {
        console.deferred = console.deferred - 1;
        fb_flush(console)
    }
}

/// What a flush does with `deferred` bursts under way: nothing while there are
/// any, or before a surface is there. Otherwise the changed rectangle is handed
/// out and forgotten.
pub open spec fn flush_step(
    before: Screen,
    deferred: int,
    after: Screen,
    rect: Option<(usize, usize, usize, usize)>,
) -> bool {
    if deferred != 0 || before.width == 0 || before.height == 0 {
        after == before && rect is None
    } else {
        &&& after == Screen { dirty: None, ..before }
        &&& match (rect, before.damage()) {
            (Some((x, y, w, h)), Some(d)) => d == (x as int, y as int, w as int, h as int),
            (None, None) => true,
            _ => false,
        }
    }
}

/// Takes what a flush has to send: the changed rectangle, or nothing while a
/// burst is under way.
pub fn fb_flush(console: &mut KernelConsole) -> (rect: Option<(usize, usize, usize, usize)>)
    requires
        old(console).fb.inv(),
    ensures
        final(console).fb.inv(),
        final(console).deferred == old(console).deferred,
        final(console).owner == old(console).owner,
        final(console).enabled == old(console).enabled,
        flush_step(
            old(console).fb@,
            old(console).deferred as int,
            final(console).fb@,
            rect,
        ),
{
    proof {
        console.fb.lemma_inv();
    }
    if console.deferred != 0 {
        return None;
    }
    if console.fb.size().is_none() {
        return None;
    }
    console.fb.take_dirty()
}

/// Starts the console on a surface, with a cleared screen.
pub fn init_kernel_fb(
    console: &mut KernelConsole,
    surface: Vec<u32>,
    width: usize,
    height: usize,
    pitch: usize,
)
    requires
        old(console).fb.inv(),
        surface_ok(surface@.len(), width as int, height as int, pitch as int),
    ensures
        final(console).fb.inv(),
        final(console).fb@ == old(console).fb@.attached(
            surface@,
            width as int,
            height as int,
            pitch as int,
        ).bitmap_font().clear(0),
        final(console).owner == old(console).owner,
        final(console).enabled == old(console).enabled,
        final(console).deferred == old(console).deferred,
{
    console.fb.attach(surface, width, height, pitch);
    console.fb.init_vector_font();
    console.fb.clear(0);
}

/// Moves the console to another surface and keeps what is on it.
pub fn update_kernel_fb(
    console: &mut KernelConsole,
    surface: Vec<u32>,
    width: usize,
    height: usize,
    pitch: usize,
)
    requires
        old(console).fb.inv(),
        surface_ok(surface@.len(), width as int, height as int, pitch as int),
    ensures
        final(console).fb.inv(),
        final(console).fb@ == old(console).fb@.attached(
            surface@,
            width as int,
            height as int,
            pitch as int,
        ).bitmap_font(),
        final(console).owner == old(console).owner,
        final(console).enabled == old(console).enabled,
        final(console).deferred == old(console).deferred,
{
    console.fb.attach(surface, width, height, pitch);
    console.fb.init_vector_font();
}

/// The close of an open leaves the scanout of another open alone, and gives
/// back its own.
pub proof fn lemma_only_the_owner_gives_back(claim: u32, close: u32)
    requires
        claim != 0,
        claim != SCANOUT_ANON,
        close != 0,
    ensures
        releases(claimant(claim), close) <==> close == claim,
        releases(claimant(claim), 0),
        releases(claimant(0), close),
        !releases(SCANOUT_UNOWNED, close),
{
}

} // verus!
