//! Mode setting: what a display says of itself, and which surface is scanned
//! out.
use crate::bytes::{le32, push_u32};
use crate::console::get_hardware_fb_info;
use crate::framebuffer::{boot_usable, BootFramebuffer, Framebuffer};
use crate::message::{padded, Message};
use crate::screen::{surface_ok, Screen};
use vstd::arithmetic::power2::{
    lemma2_to64, lemma2_to64_rest, lemma_pow2_strictly_increases, lemma_pow2_unfold, pow2,
};
use vstd::prelude::*;

verus! {

/// The identification block of a display.
#[derive(Debug, Clone, Copy)]
pub struct EdidBlock {
    pub bytes: [u8; 128],
}

/// Where the first detailed timing starts.
pub const DETAILED_TIMING: usize = 54;

/// A display mode.
#[derive(Debug, Clone, Copy, PartialEq, Eq, Structural)]
pub struct DisplayMode {
    pub width: u32,
    pub height: u32,
    pub refresh_rate: u32,
    /// In kHz.
    pub pixel_clock: u32,
}

/// The sum of the first `n` bytes.
pub open spec fn byte_sum(b: Seq<u8>, n: int) -> int
    decreases n,
{
    if n <= 0 {
        0
    } else {
        byte_sum(b, n - 1) + b[n - 1]
    }
}

/// The fixed pattern that a block starts with.
pub open spec fn has_edid_header(b: Seq<u8>) -> bool {
    b.take(8) == seq![0x00u8, 0xFF, 0xFF, 0xFF, 0xFF, 0xFF, 0xFF, 0x00]
}

/// A number of twelve bits: the low eight, and four in the upper half of
/// another byte.
pub open spec fn twelve_bits(low: u8, high: u8) -> int {
    low + (high / 16) * 256
}

/// The blanking that belongs to it: the low eight bits, and four in the lower
/// half of the other byte.
pub open spec fn blanking(low: u8, high: u8) -> int {
    low + (high % 16) * 256
}

/// The mode of the first detailed timing, if there is one.
pub open spec fn preferred_mode(b: Seq<u8>) -> Option<DisplayMode> {
    let d = b.skip(DETAILED_TIMING as int);
    let clock = (d[0] + d[1] * 256) * 10;
    let width = twelve_bits(d[2], d[4]);
    let height = twelve_bits(d[5], d[7]);
    let total = (width + blanking(d[3], d[4])) * (height + blanking(d[6], d[7]));
    if clock == 0 || width == 0 || height == 0 {
        None
    } else {
        Some(
            DisplayMode {
                width: width as u32,
                height: height as u32,
                refresh_rate: (clock * 1000 / total) as u32,
                pixel_clock: clock as u32,
            },
        )
    }
}

impl EdidBlock {
    /// Whether the block starts as it has to and its bytes sum to a multiple of
    /// 256.
    pub fn is_valid(&self) -> (r: bool)
        ensures
            r == (has_edid_header(self.bytes@) && byte_sum(self.bytes@, 128) % 256 == 0),
    {
        let b = &self.bytes;
        let head = b[0] == 0 && b[1] == 0xFF && b[2] == 0xFF && b[3] == 0xFF && b[4] == 0xFF && b[5]
            == 0xFF && b[6] == 0xFF && b[7] == 0;
        proof {
            let want = seq![0x00u8, 0xFF, 0xFF, 0xFF, 0xFF, 0xFF, 0xFF, 0x00];
            let have = self.bytes@.take(8);
            if head {
                assert(have =~= want);
            }
            if have == want {
                assert(have[0] == want[0] && have[1] == want[1] && have[2] == want[2] && have[3]
                    == want[3] && have[4] == want[4] && have[5] == want[5] && have[6] == want[6]
                    && have[7] == want[7]);
            }
        }
        if !head {
            return false;
        }
        let mut sum: u32 = 0;
        let mut i: usize = 0;
        while i < 128
            invariant
                i <= 128,
                b == &self.bytes,
                sum == byte_sum(self.bytes@, i as int),
                sum <= 255 * i,
            decreases 128 - i,
        {
            sum = sum + b[i] as u32;
            i = i + 1;
        }
        sum % 256 == 0
    }

    /// The mode that the display prefers: its first detailed timing.
    pub fn get_preferred_mode(&self) -> (mode: Option<DisplayMode>)
        ensures
            mode == preferred_mode(self.bytes@),
    {
        let b = &self.bytes;
        let at: usize = DETAILED_TIMING;
        let ghost d = self.bytes@.skip(54);
        assert(d[0] == b@[54] && d[1] == b@[55] && d[2] == b@[56] && d[3] == b@[57] && d[4]
            == b@[58] && d[5] == b@[59] && d[6] == b@[60] && d[7] == b@[61]);
        let clock: u32 = (b[at] as u32 + b[at + 1] as u32 * 256) * 10;
        if clock == 0 {
            return None;
        }
        let width: u32 = b[at + 2] as u32 + (b[at + 4] / 16) as u32 * 256;
        let height: u32 = b[at + 5] as u32 + (b[at + 7] / 16) as u32 * 256;
        if width == 0 || height == 0 {
            return None;
        }
        let across: u32 = width + b[at + 3] as u32 + (b[at + 4] % 16) as u32 * 256;
        let down: u32 = height + b[at + 6] as u32 + (b[at + 7] % 16) as u32 * 256;
        assert(0 < across * down <= 8190 * 8190) by (nonlinear_arith)
            requires
                0 < across <= 8190,
                0 < down <= 8190,
        ;
        let total: u32 = across * down;
        Some(
            DisplayMode {
                width,
                height,
                refresh_rate: clock * 1000 / total,
                pixel_clock: clock,
            },
        )
    }
}

/// The mode before anything is known of the display.
pub open spec fn default_mode() -> DisplayMode {
    DisplayMode { width: 1024, height: 768, refresh_rate: 60, pixel_clock: 65000 }
}

/// What is to be done with the GPU.
#[derive(Debug, Clone, Copy, PartialEq, Eq, Structural)]
pub enum KmsPlan {
    /// There is no GPU, or no surface to put on it.
    Leave,
    /// The early console has set up the scanout already.
    Reuse,
    /// A block of pages of this order is to be allocated, filled from the
    /// surface at `base`, and scanned out in its place.
    Attach { base: u64, width: u32, height: u32, bytes: u64, order: usize },
}

/// `order` is the number of bits of `pages`: every number of pages that is not
/// larger fits into half the block.
pub open spec fn is_bit_count(pages: int, order: int) -> bool {
    &&& 0 <= order
    &&& pages < pow2(order as nat)
    &&& order > 0 ==> pow2((order - 1) as nat) <= pages
}

/// The number of bits of a number.
fn bit_count(pages: u64) -> (order: usize)
    requires
        pages < 0x8000_0000_0000_0000,
    ensures
        is_bit_count(pages as int, order as int),
{
    let mut order: usize = 0;
    let mut block: u64 = 1;
    proof {
        lemma2_to64();
        lemma2_to64_rest();
    }
    while block <= pages
        invariant
            block == pow2(order as nat),
            order <= 63,
            pages < 0x8000_0000_0000_0000,
            order > 0 ==> pow2((order - 1) as nat) <= pages,
        decreases 2 * pages + 1 - block,
    {
        proof {
            lemma2_to64();
            lemma2_to64_rest();
            lemma_pow2_unfold((order + 1) as nat);
            assert(order < 63);
            if order + 1 < 63 {
                lemma_pow2_strictly_increases((order + 1) as nat, 63);
            }
        }
        block = block * 2;
        order = order + 1;
    }
    order
}

/// What is to be done, given the GPU (and whether its scanout is set up), the
/// surface, and the orders that can be allocated.
pub open spec fn is_plan(
    plan: KmsPlan,
    gpu: Option<bool>,
    info: Option<(u64, u32, u32, u32)>,
    max_order: usize,
) -> bool {
    match (gpu, info) {
        (None, _) => plan == KmsPlan::Leave,
        (Some(true), _) => plan == KmsPlan::Reuse,
        (Some(false), None) => plan == KmsPlan::Leave,
        (Some(false), Some(fb)) => {
            &&& plan matches KmsPlan::Attach { base, width, height, bytes, order }
            &&& base == fb.0
            &&& width == fb.1
            &&& height == fb.2
            &&& bytes == fb.1 * fb.2 * 4
            &&& if is_bit_count((bytes + 4095) / 4096, order as int) {
                order < max_order
            } else {
                order == max_order - 1 && exists|n: int|
                    n >= max_order && #[trigger] is_bit_count((bytes + 4095) / 4096, n)
            }
        },
    }
}

/// The mode that follows from the GPU and the surface.
pub open spec fn detected_mode(gpu: Option<bool>, info: Option<(u64, u32, u32, u32)>) -> DisplayMode {
    match (gpu, info) {
        (Some(_), Some(fb)) => DisplayMode { width: fb.1, height: fb.2, ..default_mode() },
        _ => default_mode(),
    }
}

/// The boot loader's surface: base, width, height and bytes per row.
pub open spec fn reported(boot: Option<BootFramebuffer>) -> Option<(u64, u32, u32, u32)> {
    match boot {
        Some(fb) => Some((fb.base, fb.width, fb.height, fb.pitch)),
        None => None,
    }
}

/// The mode-setting driver.
pub struct KmsDriver {
    pub current_mode: Option<DisplayMode>,
    pub framebuffer: Framebuffer,
}

impl KmsDriver {
    /// A driver that has detected nothing yet.
    pub fn new() -> (k: KmsDriver)
        ensures
            k.current_mode is None,
            k.framebuffer.inv(),
            k.framebuffer@ == Screen::fresh(),
    {
        KmsDriver { current_mode: None, framebuffer: Framebuffer::new() }
    }

    /// Detects the mode and says what is to be done with the GPU.
    pub fn detect_and_configure(
        &mut self,
        gpu: Option<bool>,
        info: Option<(u64, u32, u32, u32)>,
        max_order: usize,
    ) -> (r: (DisplayMode, KmsPlan))
        requires
            max_order > 0,
            info matches Some(fb) ==> fb.1 * fb.2 * 4 <= u64::MAX - 4095,
        ensures
            r.0 == detected_mode(gpu, info),
            is_plan(r.1, gpu, info, max_order),
            *final(self) == (KmsDriver { current_mode: Some(r.0), ..*old(self) }),
    {
        let mut mode = DisplayMode {
            width: 1024,
            height: 768,
            refresh_rate: 60,
            pixel_clock: 65000,
        };
        let mut plan = KmsPlan::Leave;
        if let Some(configured) = gpu {
            if configured {
                plan = KmsPlan::Reuse;
            }
            if let Some((base, width, height, _)) = info {
                mode.width = width;
                mode.height = height;
                if !configured {
                    assert(0 <= width * height <= 0xffff_ffff * 0xffff_ffff) by (nonlinear_arith)
                        requires
                            width <= 0xffff_ffff,
                            height <= 0xffff_ffff,
                    ;
                    let bytes: u64 = width as u64 * height as u64 * 4;
                    let pages: u64 = (bytes + 4095) / 4096;
                    let bits = bit_count(pages);
                    let order: usize = if bits < max_order { bits } else { max_order - 1 };
                    proof {
                        assert(pages == (bytes + 4095) / 4096);
                        if bits >= max_order {
                            lemma_one_bit_count(pages as int, bits as int, order as int);
                        }
                    }
                    plan = KmsPlan::Attach { base, width, height, bytes, order };
                }
            }
        }
        self.current_mode = Some(mode);
        (mode, plan)
    }

    /// Starts the driver, on the boot loader's surface where it reported one, and
    /// detects the mode either way.
    pub fn probe(
        &mut self,
        boot: Option<BootFramebuffer>,
        surface: Vec<u32>,
        gpu: Option<bool>,
        max_order: usize,
    ) -> (r: (DisplayMode, KmsPlan))
        requires
            old(self).framebuffer.inv(),
            boot_usable(boot) ==> surface_ok(
                surface@.len(),
                boot->0.width as int,
                boot->0.height as int,
                boot->0.pitch as int,
            ),
            max_order > 0,
            boot matches Some(fb) ==> fb.width * fb.height * 4 <= u64::MAX - 4095,
        ensures
            final(self).framebuffer.inv(),
            final(self).framebuffer@ == (if boot_usable(boot) {
                old(self).framebuffer@.attached(
                    surface@,
                    boot->0.width as int,
                    boot->0.height as int,
                    boot->0.pitch as int,
                )
            } else {
                old(self).framebuffer@
            }),
            final(self).current_mode == Some(r.0),
            r.0 == detected_mode(gpu, reported(boot)),
            is_plan(r.1, gpu, reported(boot), max_order),
    {
        let _ = self.framebuffer.probe(boot, surface);
        let info = get_hardware_fb_info(&boot);
        self.detect_and_configure(gpu, info, max_order)
    }

    /// The mode that was detected.
    pub fn get_current_mode(&self) -> (mode: Option<DisplayMode>)
        ensures
            mode == self.current_mode,
    {
        self.current_mode
    }

    /// Answers a message: 2 asks for the mode, anything else goes to the
    /// surface.
    pub fn handle(&mut self, msg: &Message) -> (reply: Message)
        requires
            old(self).framebuffer.inv(),
        ensures
            final(self).framebuffer.inv(),
            final(self).current_mode == old(self).current_mode,
            final(self).framebuffer@ == (if msg.tag == 1 {
                old(self).framebuffer@.clear(crate::bytes::u32_at(msg.data@, 0))
            } else {
                old(self).framebuffer@
            }),
            reply.tag == 0,
            reply.data@ == padded(
                match old(self).current_mode {
                    Some(m) if msg.tag == 2 => le32(m.width) + le32(m.height) + le32(
                        m.refresh_rate,
                    ),
                    _ => Seq::empty(),
                },
            ),
    {
        if msg.tag == 2 {
            let mut bytes: Vec<u8> = Vec::new();
            if let Some(m) = self.current_mode {
                push_u32(&mut bytes, m.width);
                push_u32(&mut bytes, m.height);
                push_u32(&mut bytes, m.refresh_rate);
                assert(bytes@ =~= le32(m.width) + le32(m.height) + le32(m.refresh_rate));
            }
            return Message::holding(0, &bytes);
        }
        self.framebuffer.handle(msg)
    }
}

/// A number has only one number of bits.
pub proof fn lemma_one_bit_count(pages: int, a: int, b: int)
    requires
        is_bit_count(pages, a),
        b < a,
    ensures
        !is_bit_count(pages, b),
{
    if 0 <= b {
        if b < a - 1 {
            lemma_pow2_strictly_increases(b as nat, (a - 1) as nat);
        }
    }
}

/// The surface that is scanned out: the new block where there is one, which the
/// console then draws on too, and the old surface otherwise.
#[derive(Debug, Clone, Copy, PartialEq, Eq, Structural)]
pub struct Backing {
    pub base: u64,
    pub bytes: u32,
    pub moved: bool,
}

/// Which pages back the scanout, given what the allocation returned.
pub fn scanout_backing(base: u64, bytes: u64, block: Option<u64>) -> (b: Backing)
    ensures
        b.bytes == bytes as u32,
        b.moved == block.is_some(),
        b.base == (match block {
            Some(phys) => phys,
            None => base,
        }),
{
    match block {
        Some(phys) => Backing { base: phys, bytes: bytes as u32, moved: true },
        None => Backing { base, bytes: bytes as u32, moved: false },
    }
}

/// Starts mode setting.
pub fn init_kms(
    kms: &mut KmsDriver,
    gpu: Option<bool>,
    info: Option<(u64, u32, u32, u32)>,
    max_order: usize,
) -> (r: (DisplayMode, KmsPlan))
    requires
        max_order > 0,
        info matches Some(fb) ==> fb.1 * fb.2 * 4 <= u64::MAX - 4095,
    ensures
        r.0 == detected_mode(gpu, info),
        is_plan(r.1, gpu, info, max_order),
        *final(kms) == (KmsDriver { current_mode: Some(r.0), ..*old(kms) }),
{
    kms.detect_and_configure(gpu, info, max_order)
}

/// The mode that was detected.
pub fn get_kms_mode(kms: &KmsDriver) -> (mode: Option<DisplayMode>)
    ensures
        mode == kms.current_mode,
{
    kms.get_current_mode()
}

} // verus!
