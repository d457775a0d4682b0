//! The SD host controller: its registers, its clock, and the transfers of a
//! block device over it.
//!
//! Nothing here touches the controller. The functions say which register gets
//! which value, which command goes out with which argument, and what the
//! controller's answers mean.
use vstd::prelude::*;
use crate::bytes::{read_u32, u32_at};
use crate::rpi_mailbox::Board;

verus! {

pub const SECTOR_SIZE: usize = 512;

pub const BLOCK_SIZE: usize = 4096;

pub const SECTORS_PER_BLOCK: u64 = 8;

pub const MAX_BLK_DEVICES: usize = 8;

pub const F2FS_MAGIC: u32 = 0xF2F5_2010;

pub const F2FS_SB_OFFSET: usize = 1024;

/// How often a wait looks before it gives up.
pub const SPIN_LIMIT: u32 = 20_000_000;

pub const NI_ERROR: u16 = 0x8000;

pub const HC1_DATA_WIDTH_4: u8 = 2;

pub const HC1_HIGH_SPEED: u8 = 4;

pub const CLK_INTERNAL_EN: u16 = 1;

pub const CLK_SD_EN: u16 = 4;

/// The slowest setting of the divided clock: divisor 510 where the divider has
/// ten bits.
pub const CLK_DIV_MAX: u16 = 0xFF00;

pub const CMD_GO_IDLE_STATE: u8 = 0;

pub const CMD_ALL_SEND_CID: u8 = 2;

pub const CMD_SEND_RELATIVE_ADDR: u8 = 3;

pub const CMD_SWITCH_FUNC: u8 = 6;

pub const CMD_SELECT_CARD: u8 = 7;

pub const CMD_SEND_IF_COND: u8 = 8;

pub const CMD_SEND_CSD: u8 = 9;

pub const CMD_SET_BLOCKLEN: u8 = 16;

pub const CMD_READ_SINGLE_BLOCK: u8 = 17;

pub const CMD_WRITE_BLOCK: u8 = 24;

pub const CMD_APP_CMD: u8 = 55;

/// The number of `CMD_SWITCH_FUNC` too: what comes before a command decides
/// whether it is an application command.
pub const ACMD_SET_BUS_WIDTH: u8 = 6;

pub const ACMD_SD_SEND_OP_COND: u8 = 41;

pub const ACMD_SEND_SCR: u8 = 51;

pub const SWITCH_CHECK_HS: u32 = 0x00FF_FFF1;

pub const SWITCH_SET_HS: u32 = 0x80FF_FFF1;

pub const SWITCH_SET_DS: u32 = 0x80FF_FFF0;

pub const SWITCH_STATUS_LEN: usize = 64;

pub const SCR_LEN: usize = 8;

/// Where the controller's registers lie.
pub fn sdhci_base(board: Board) -> (base: u64)
    ensures
        base == (match board {
            Board::Rpi5 => 0x10_00FF_F000u64,
            Board::Raspi4b => 0xFE30_0000,
        }),
{
    match board {
        Board::Rpi5 => 0x10_00FF_F000,
        Board::Raspi4b => 0xFE30_0000,
    }
}

/// The base clock of a controller that does not name its own.
pub open spec fn fallback_khz(board: Board) -> u32 {
    match board {
        Board::Rpi5 => 54_000,
        Board::Raspi4b => 50_000,
    }
}

/// What of a response the controller is to expect.
#[derive(Debug, Clone, Copy, PartialEq, Eq, Structural)]
pub enum Response {
    Nothing,
    Long,
    Short,
    ShortBusy,
}

impl Response {
    /// The response's number in the command register.
    pub open spec fn code(self) -> u16 {
        match self {
            Response::Nothing => 0,
            Response::Long => 1,
            Response::Short => 2,
            Response::ShortBusy => 3,
        }
    }
}

/// A command to the card.
#[derive(Debug, Clone, Copy, PartialEq, Eq, Structural)]
pub struct Command {
    pub index: u8,
    pub arg: u32,
    pub resp: Response,
    pub data: bool,
    pub crc_check: bool,
    pub idx_check: bool,
}

pub open spec fn flag(b: bool, weight: u16) -> int {
    if b { weight as int } else { 0 }
}

impl Command {
    /// The word of the command register that sends the command.
    pub open spec fn word(self) -> int {
        self.index * 256 + flag(self.data, 32) + flag(self.idx_check, 16) + flag(self.crc_check, 8)
            + self.resp.code()
    }

    /// The word to write to the command register.
    pub fn command_word(&self) -> (w: u16)
        ensures
            w == self.word(),
    {
        let resp: u16 = match self.resp {
            Response::Nothing => 0,
            Response::Long => 1,
            Response::Short => 2,
            Response::ShortBusy => 3,
        };
        let data: u16 = if self.data { 32 } else { 0 };
        let idx: u16 = if self.idx_check { 16 } else { 0 };
        let crc: u16 = if self.crc_check { 8 } else { 0 };
        self.index as u16 * 256 + data + idx + crc + resp
    }

    /// Whether the command has to wait for the data lines too.
    pub fn waits_for_data(&self) -> (b: bool)
        ensures
            b == (self.data || self.resp == Response::ShortBusy),
    {
        self.data || matches!(self.resp, Response::ShortBusy)
    }

    /// The bits of the present state that hold the command up: bit 0, and bit 1
    /// for one that needs the data lines.
    pub fn inhibit_mask(&self) -> (mask: u32)
        ensures
            mask == (if self.data || self.resp == Response::ShortBusy { 3u32 } else { 1 }),
    {
        if self.waits_for_data() { 3 } else { 1 }
    }
}

/// No two commands that differ in more than their argument have one word.
pub proof fn lemma_word_tells_the_command(a: Command, b: Command)
    requires
        a.word() == b.word(),
        a.arg == b.arg,
    ensures
        a == b,
{
}

/// What one look at the interrupt status says.
#[derive(Debug, Clone, Copy, PartialEq, Eq, Structural)]
pub enum Wait {
    /// The controller reports an error.
    Error,
    /// All that was waited for is there.
    Ready,
    /// Too many looks: give up.
    TimedOut,
    /// Look again.
    Again,
}

/// What a look says after `spins` looks. An error goes before all else.
pub open spec fn look(status: u16, bits: u16, spins: u32) -> Wait {
    if status & NI_ERROR != 0 {
        Wait::Error
    } else if status & bits == bits {
        Wait::Ready
    } else if spins >= SPIN_LIMIT {
        Wait::TimedOut
    } else {
        Wait::Again
    }
}

/// One look at the interrupt status.
pub fn wait_step(status: u16, bits: u16, spins: u32) -> (w: Wait)
    ensures
        w == look(status, bits, spins),
{
    if status & NI_ERROR != 0 {
        Wait::Error
    } else if status & bits == bits {
        Wait::Ready
    } else if spins >= SPIN_LIMIT {
        Wait::TimedOut
    } else {
        Wait::Again
    }
}

/// Whatever the controller does, a wait has an end.
pub proof fn lemma_wait_ends(status: u16, bits: u16, spins: u32)
    requires
        look(status, bits, spins) == Wait::Again,
    ensures
        spins < SPIN_LIMIT,
{
}

/// Both status registers in one word, as a failed wait remembers them.
pub fn latched(status: u16, err: u16) -> (v: u32)
    ensures
        v == status * 65536 + err,
{
    status as u32 * 65536 + err as u32
}

/// The bits of the host control register that the bus settings decide.
pub open spec fn bus_bits(v: u8) -> u8 {
    v & 6
}

/// The host-side settings of the bus.
#[derive(Debug, Clone, Copy, PartialEq, Eq, Structural)]
pub struct BusState {
    /// The width and speed bits of the host control register.
    pub host_ctl: u8,
    /// The frequency select bits of the clock control register.
    pub clk_sel: u16,
    /// The frequency that these bits give.
    pub clk_khz: u32,
}

impl BusState {
    /// The settings change nothing but the width and speed bits.
    pub open spec fn ok(self) -> bool {
        &&& self.host_ctl == 0 || self.host_ctl == 2 || self.host_ctl == 4 || self.host_ctl == 6
        &&& self.clk_sel % 64 == 0
    }

    /// The settings drive four data lines.
    pub open spec fn wide(self) -> bool {
        self.host_ctl & HC1_DATA_WIDTH_4 != 0
    }

    /// The host control register with these settings in it: all other bits stay.
    pub fn host_control(&self, hc: u8) -> (v: u8)
        requires
            self.ok(),
        ensures
            bus_bits(v) == self.host_ctl,
            v & 0xF9 == hc & 0xF9,
    {
        let s = self.host_ctl;
        assert(((hc & 0xF9) | s) & 6 == s && ((hc & 0xF9) | s) & 0xF9 == hc & 0xF9)
            by (bit_vector)
            requires
                s == 0 || s == 2 || s == 4 || s == 6,
        ;
        (hc & 0xF9) | s
    }

    /// The clock control register while the new clock settles: the whole
    /// frequency select, the internal clock on, the card's clock off.
    pub fn clock_word(&self) -> (v: u16)
        requires
            self.ok(),
        ensures
            v == self.clk_sel + CLK_INTERNAL_EN,
            v & CLK_SD_EN == 0,
    {
        let c = self.clk_sel;
        assert((c | 1) == c + 1 && (c | 1) & 4 == 0) by (bit_vector)
            requires
                c % 64 == 0,
        ;
        c | CLK_INTERNAL_EN
    }
}

/// The clock control register with the card's clock off.
pub fn clock_stopped(cc: u16) -> (v: u16)
    ensures
        v & CLK_SD_EN == 0,
        v | CLK_SD_EN == cc | CLK_SD_EN,
{
    assert((cc & 0xFFFB) & 4 == 0 && (cc & 0xFFFB) | 4 == cc | 4) by (bit_vector);
    cc & 0xFFFB
}

/// The clock control register with the card's clock on.
pub fn clock_started(cc: u16) -> (v: u16)
    ensures
        v == cc | CLK_SD_EN,
{
    cc | CLK_SD_EN
}

/// By how much setting `n` of the ten-bit divider divides the base clock.
pub open spec fn divisor(n: int) -> int {
    if n == 0 { 1 } else { 2 * n }
}

/// The setting of the ten-bit divider: none where the base clock is slow enough,
/// else the base clock over twice the target, rounded up.
pub open spec fn divider(base: int, target: int) -> int {
    let n = (base + 2 * target - 1) / (2 * target);
    if base <= target {
        0
    } else if n > 1023 {
        1023
    } else {
        n
    }
}

/// Where the ten-bit divider stands in the clock control register: its low eight
/// bits on top, its high two bits below them.
pub open spec fn divider_bits(n: int) -> int {
    n % 256 * 256 + n / 256 * 64
}

/// The first of `d`, `2 * d`, ... up to 256 that divides the base clock down to
/// the target.
pub open spec fn doubling(base: int, target: int, d: int) -> int
    decreases (if d < 256 { 256 - d } else { 0 }),
{
    if 0 < d < 256 && base / d > target {
        doubling(base, target, 2 * d)
    } else {
        d
    }
}

/// The frequency select bits, and the frequency they give.
pub open spec fn clock_of(base: int, target: int, v3: bool) -> (int, int) {
    if base == 0 || target == 0 {
        (CLK_DIV_MAX as int, 0)
    } else if v3 {
        let n = divider(base, target);
        (divider_bits(n), base / divisor(n))
    } else {
        let d = doubling(base, target, 1);
        (d / 2 * 256, base / d)
    }
}

/// The older divider is the least power of two, up to 256, that brings the base clock
/// down to the target.
pub proof fn lemma_doubling(base: int, target: int, d: int)
    requires
        d == 1 || d == 2 || d == 4 || d == 8 || d == 16 || d == 32 || d == 64 || d == 128 || d
            == 256,
    ensures
        ({
            let r = doubling(base, target, d);
            &&& r == 1 || r == 2 || r == 4 || r == 8 || r == 16 || r == 32 || r == 64 || r == 128
                || r == 256
            &&& base / r <= target || r == 256
            &&& r == d || base / (r / 2) > target
        }),
    decreases 256 - d,
{
    if d < 256 && base / d > target {
        lemma_doubling(base, target, 2 * d);
    }
}

/// The clock setting that comes closest to the target from below.
pub fn clock_divider(base_khz: u32, target_khz: u32, v3: bool) -> (r: (u16, u32))
    ensures
        (r.0 as int, r.1 as int) == clock_of(base_khz as int, target_khz as int, v3),
{
    if base_khz == 0 || target_khz == 0 {
        return (CLK_DIV_MAX, 0);
    }
    if v3 {
        let n: u32 = if base_khz <= target_khz {
            0
        } else {
            let twice: u64 = 2 * target_khz as u64;
            let n: u64 = (base_khz as u64 + twice - 1) / twice;
            if n > 1023 { 1023 } else { n as u32 }
        };
        proof {
            let (b, t) = (base_khz as int, target_khz as int);
            assert(b > t ==> (b + 2 * t - 1) / (2 * t) >= 1) by (nonlinear_arith)
                requires
                    t > 0,
            ;
            assert(n == divider(b, t));
        }
        let actual: u32 = if n == 0 { base_khz } else { base_khz / (2 * n) };
        let low: u16 = (n % 256) as u16;
        let high: u16 = (n / 256) as u16;
        (low * 256 + high * 64, actual)
    } else {
        let mut d: u32 = 1;
        while d < 256 && base_khz / d > target_khz
            invariant
                0 < d <= 256,
                d == 1 || d == 2 || d == 4 || d == 8 || d == 16 || d == 32 || d == 64 || d == 128
                    || d == 256,
                doubling(base_khz as int, target_khz as int, 1) == doubling(
                    base_khz as int,
                    target_khz as int,
                    d as int,
                ),
            decreases 256 - d,
        {
            d = d * 2;
        }
        let half: u16 = (d / 2) as u16;
        (half * 256, base_khz / d)
    }
}

/// A clock setting fits the register, and touches none but the bits that are its
/// own.
pub proof fn lemma_clock_fits(base: int, target: int, v3: bool)
    requires
        0 <= base,
        0 <= target,
    ensures
        0 <= clock_of(base, target, v3).0 <= u16::MAX,
        clock_of(base, target, v3).0 % 64 == 0,
        0 <= clock_of(base, target, v3).1 <= base,
{
    if base > 0 && target > 0 {
        lemma_divider_is_least(base, target);
        lemma_doubling(base, target, 1);
        let n = divider(base, target);
        assert(0 <= base / divisor(n) <= base) by (nonlinear_arith)
            requires
                divisor(n) >= 1,
                base >= 0,
        ;
    }
}

/// The reported frequency never exceeds the target, but for the slowest setting
/// there is.
pub proof fn lemma_clock_stays_below_target(base: int, target: int, v3: bool)
    requires
        base > 0,
        target > 0,
    ensures
        clock_of(base, target, v3).1 <= target || clock_of(base, target, v3).0 == (if v3 {
            divider_bits(1023)
        } else {
            0x8000
        }),
{
    if v3 {
        let n = divider(base, target);
        lemma_divider_is_least(base, target);
        if 0 < n < 1023 {
            assert(base / (2 * n) <= target) by (nonlinear_arith)
                requires
                    base <= target * (2 * n),
                    n > 0,
                    target > 0,
            ;
        }
    } else {
        lemma_doubling(base, target, 1);
    }
}

/// Of the ten-bit divider's settings, the one taken is the fastest that keeps
/// the bus at or below the target; any faster one would overclock it.
pub proof fn lemma_divider_is_least(base: int, target: int)
    requires
        base > 0,
        target > 0,
    ensures
        0 <= divider(base, target) <= 1023,
        divider(base, target) < 1023 ==> base <= target * divisor(divider(base, target)),
        forall|m: int|
            0 <= m < divider(base, target) ==> base > target * #[trigger] divisor(m),
{
    let n = divider(base, target);
    if base > target {
        let q = (base + 2 * target - 1) / (2 * target);
        assert(q * (2 * target) <= base + 2 * target - 1 < q * (2 * target) + 2 * target)
            by (nonlinear_arith)
            requires
                q == (base + 2 * target - 1) / (2 * target),
                target > 0,
        ;
        assert(q >= 1) by (nonlinear_arith)
            requires
                base + 2 * target - 1 < q * (2 * target) + 2 * target,
                base > target,
                target > 0,
        ;
        assert(q * (2 * target) == target * (2 * q)) by (nonlinear_arith);
        assert forall|m: int| 0 <= m < n implies base > target * #[trigger] divisor(m) by {
            if m > 0 {
                assert(base > target * (2 * m)) by (nonlinear_arith)
                    requires
                        q * (2 * target) <= base + 2 * target - 1,
                        m + 1 <= q,
                        target > 0,
                ;
            }
        }
    }
}

/// The ten-bit divider reads back from the register as it was written.
pub proof fn lemma_divider_reads_back(n: int)
    requires
        0 <= n < 1024,
    ensures
        divider_bits(n) / 256 + divider_bits(n) % 256 / 64 * 256 == n,
        0 <= divider_bits(n) < 0x1_0000,
{
}

/// Ten times the factors that a card's speed byte chooses from; the first is
/// reserved.
pub const MULT_X10: [u32; 16] = [
    0, 10, 12, 13, 15, 20, 25, 30, 35, 40, 45, 50, 55, 60, 70, 80,
];

/// The unit of a card's speed, or zero for a reserved one.
pub open spec fn unit_khz(code: int) -> int {
    if code == 0 {
        100
    } else if code == 1 {
        1_000
    } else if code == 2 {
        10_000
    } else if code == 3 {
        100_000
    } else {
        0
    }
}

/// The fastest clock that a card's speed byte allows: its low three bits choose
/// the unit, the next four the factor. Zero means unknown.
pub open spec fn tran_speed(v: u8) -> int {
    unit_khz((v % 8) as int) * MULT_X10[(v / 8 % 16) as int] / 10
}

pub fn tran_speed_to_khz(v: u8) -> (khz: u32)
    ensures
        khz == tran_speed(v),
{
    let unit: u32 = match v % 8 {
        0 => 100,
        1 => 1_000,
        2 => 10_000,
        3 => 100_000,
        _ => return 0,
    };
    let mult: u32 = MULT_X10[(v / 8 % 16) as usize];
    assert(mult <= 80);
    assert(unit * mult <= 8_000_000) by (nonlinear_arith)
        requires
            0 <= unit <= 100_000,
            0 <= mult <= 80,
    ;
    unit * mult / 10
}

/// What a controller says of itself.
#[derive(Debug, Clone, Copy, PartialEq, Eq, Structural)]
pub struct HostCaps {
    /// It has the ten-bit divider.
    pub v3: bool,
    pub base_khz: u32,
}

/// The capabilities that the version and capabilities registers spell out. The
/// base clock in MHz stands in eight bits of a newer controller, in six of an
/// older one; zero there means that the board has to say.
pub open spec fn caps_of(version: u16, caps: u32, board: Board) -> HostCaps {
    let v3 = version % 256 >= 2;
    let mhz = caps / 256 % (if v3 { 256 } else { 64 });
    HostCaps {
        v3,
        base_khz: if mhz != 0 { (mhz * 1000) as u32 } else { fallback_khz(board) },
    }
}

/// Reads the version and capabilities registers.
pub fn host_caps(version: u16, caps: u32, board: Board) -> (c: HostCaps)
    ensures
        c == caps_of(version, caps, board),
{
    let v3 = version % 256 >= 2;
    let mhz: u32 = if v3 { caps / 256 % 256 } else { caps / 256 % 64 };
    let fallback: u32 = match board {
        Board::Rpi5 => 54_000,
        Board::Raspi4b => 50_000,
    };
    HostCaps { v3, base_khz: if mhz != 0 { mhz * 1000 } else { fallback } }
}

/// A card that answered.
#[derive(Debug, Clone, Copy, PartialEq, Eq, Structural)]
pub struct SdhciDevice {
    /// The card is addressed by sectors, not by bytes.
    pub high_capacity: bool,
    /// Where its file system starts, in blocks.
    pub partition_offset: u64,
}

impl SdhciDevice {
    /// The first sector of a block.
    pub open spec fn first_sector(self, blk: int) -> int {
        (blk + self.partition_offset) * 8
    }

    /// Every byte of the block can be addressed by number.
    pub open spec fn addresses(self, blk: int) -> bool {
        (self.first_sector(blk) + 8) * 512 <= u64::MAX
    }

    /// The argument by which a command names a sector: its number, or that of
    /// its first byte, in 32 bits.
    pub open spec fn argument(self, sector: int) -> int {
        if self.high_capacity {
            sector % 0x1_0000_0000
        } else {
            sector * 512 % 0x1_0000_0000
        }
    }

    /// The argument by which a command names a sector.
    pub fn sector_argument(&self, sector: u64) -> (arg: u32)
        requires
            self.high_capacity || sector * 512 <= u64::MAX,
        ensures
            arg == self.argument(sector as int),
    {
        if self.high_capacity {
            (sector % 0x1_0000_0000) as u32
        } else {
            (sector * 512 % 0x1_0000_0000) as u32
        }
    }
}

/// A block of this many bytes can come over the data lines: whole words, and not
/// none.
pub fn is_transfer_len(len: usize) -> (b: bool)
    ensures
        b == (len != 0 && len % 4 == 0),
{
    len != 0 && len % 4 == 0
}

/// The transfer mode of one block: the count is on, and bit 4 is set to read.
pub fn transfer_mode(write: bool) -> (v: u16)
    ensures
        v == (if write { 2u16 } else { 18 }),
{
    if write { 2 } else { 18 }
}

/// The interrupt that says that the buffer is ready: bit 4 to write, 5 to read.
pub fn buffer_ready(write: bool) -> (bit: u16)
    ensures
        bit == (if write { 16u16 } else { 32 }),
{
    if write { 16 } else { 32 }
}

/// One sector to move between the card and a buffer.
#[derive(Debug, Clone, Copy, PartialEq, Eq, Structural)]
pub struct SectorRequest {
    pub write: bool,
    pub sector: u64,
    /// Where in the buffer the sector starts.
    pub at: usize,
    pub command: Command,
}

/// The command that reads or writes a sector.
pub open spec fn sector_command(dev: SdhciDevice, write: bool, sector: int) -> Command {
    Command {
        index: if write { CMD_WRITE_BLOCK } else { CMD_READ_SINGLE_BLOCK },
        arg: dev.argument(sector) as u32,
        resp: Response::Short,
        data: true,
        crc_check: true,
        idx_check: true,
    }
}

/// The `i`-th request of a transfer from block `blk` on.
pub open spec fn nth_request(dev: SdhciDevice, write: bool, blk: int, i: int) -> SectorRequest {
    let sector = dev.first_sector(blk) + i;
    SectorRequest {
        write,
        sector: sector as u64,
        at: (i * 512) as usize,
        command: sector_command(dev, write, sector),
    }
}

/// The requests that move `n` sectors from block `blk` on.
pub open spec fn requests(dev: SdhciDevice, write: bool, blk: int, n: int) -> Seq<SectorRequest> {
    Seq::new(n as nat, |i: int| nth_request(dev, write, blk, i))
}

impl SdhciDevice {
    /// The requests that move whole blocks, in the order in which to make them.
    /// The first that fails ends the transfer.
    pub fn do_io(&self, write: bool, blk: u64, blocks: usize) -> (r: Vec<SectorRequest>)
        requires
            blocks > 0,
            blocks * 4096 <= usize::MAX,
            self.addresses(blk + blocks - 1),
        ensures
            r@ == requests(*self, write, blk as int, blocks * 8),
    {
        let n: usize = blocks * 8;
        let first: u64 = (blk + self.partition_offset) * 8;
        let mut r: Vec<SectorRequest> = Vec::new();
        let mut i: usize = 0;
        while i < n
            invariant
                i <= n,
                n == blocks * 8,
                blocks * 4096 <= usize::MAX,
                first == self.first_sector(blk as int),
                (first + n) * 512 <= u64::MAX,
                r@ == requests(*self, write, blk as int, i as int),
            decreases n - i,
        {
            let sector: u64 = first + i as u64;
            let request = SectorRequest {
                write,
                sector,
                at: i * 512,
                command: Command {
                    index: if write { CMD_WRITE_BLOCK } else { CMD_READ_SINGLE_BLOCK },
                    arg: self.sector_argument(sector),
                    resp: Response::Short,
                    data: true,
                    crc_check: true,
                    idx_check: true,
                },
            };
            assert(request == nth_request(*self, write, blk as int, i as int));
            r.push(request);
            i += 1;
            assert(r@ =~= requests(*self, write, blk as int, i as int));
        }
        r
    }
}

/// The table of block devices.
#[derive(Debug, Clone, Copy)]
pub struct Devices {
    pub slots: [Option<SdhciDevice>; 8],
    pub count: usize,
}

impl Devices {
    /// Block `blk` and the `n - 1` after it can be addressed on a device.
    pub open spec fn holds(self, dev_idx: usize, blk: int, n: int) -> bool {
        self.slots[dev_idx as int] is Some ==> self.slots[dev_idx as int]->0.addresses(blk + n - 1)
    }
}

/// The table before any card was looked for.
pub fn no_devices() -> (d: Devices)
    ensures
        d.count == 0,
        forall|i: int| 0 <= i < 8 ==> d.slots[i] is None,
{
    Devices { slots: [None; 8], count: 0 }
}

/// Enters what the probe found. A card becomes device 1, and device 0 stays
/// empty; without a card nothing counts.
pub fn init(devs: &mut Devices, found: Option<SdhciDevice>)
    ensures
        found is Some ==> final(devs).slots@ == old(devs).slots@.update(1, found),
        final(devs).count == (if found is Some { 2usize } else { 0 }),
        found is None ==> final(devs).slots == old(devs).slots,
{
    match found {
        Some(_) => {
            devs.slots[1] = found;
            devs.count = 2;
        },
        None => {
            devs.count = 0;
        },
    }
}

pub fn device_count(devs: &Devices) -> (n: usize)
    ensures
        n == devs.count,
{
    devs.count
}

/// The transfer that reads a block, if there is such a device.
pub fn read_block(devs: &Devices, dev_idx: usize, blk: u64) -> (r: Option<Vec<SectorRequest>>)
    requires
        dev_idx < MAX_BLK_DEVICES,
        devs.holds(dev_idx, blk as int, 1),
    ensures
        r is Some <==> devs.slots[dev_idx as int] is Some,
        r is Some ==> r->0@ == requests(devs.slots[dev_idx as int]->0, false, blk as int, 8),
{
    match devs.slots[dev_idx] {
        Some(dev) => Some(dev.do_io(false, blk, 1)),
        None => None,
    }
}

/// The transfer that writes a block, if there is such a device.
pub fn write_block(devs: &Devices, dev_idx: usize, blk: u64) -> (r: Option<Vec<SectorRequest>>)
    requires
        dev_idx < MAX_BLK_DEVICES,
        devs.holds(dev_idx, blk as int, 1),
    ensures
        r is Some <==> devs.slots[dev_idx as int] is Some,
        r is Some ==> r->0@ == requests(devs.slots[dev_idx as int]->0, true, blk as int, 8),
{
    match devs.slots[dev_idx] {
        Some(dev) => Some(dev.do_io(true, blk, 1)),
        None => None,
    }
}

/// The transfer that fills a buffer of `len` bytes from block `blk` on, if the
/// buffer is a whole number of blocks and there is such a device.
pub fn read_blocks(devs: &Devices, dev_idx: usize, blk: u64, len: usize) -> (r: Option<
    Vec<SectorRequest>,
>)
    requires
        dev_idx < MAX_BLK_DEVICES,
        len > 0 && len % 4096 == 0 ==> devs.holds(dev_idx, blk as int, (len / 4096) as int),
    ensures
        r is Some <==> len > 0 && len % 4096 == 0 && devs.slots[dev_idx as int] is Some,
        r is Some ==> r->0@ == requests(
            devs.slots[dev_idx as int]->0,
            false,
            blk as int,
            len / 4096 * 8,
        ),
{
    if len == 0 || len % BLOCK_SIZE != 0 {
        return None;
    }
    match devs.slots[dev_idx] {
        Some(dev) => Some(dev.do_io(false, blk, len / BLOCK_SIZE)),
        None => None,
    }
}

/// A transfer fills its buffer from end to end, with neighbouring sectors of the
/// card, one each.
pub proof fn lemma_transfer_covers_the_buffer(
    dev: SdhciDevice,
    write: bool,
    blk: int,
    blocks: int,
    byte: int,
)
    requires
        0 <= blk,
        0 < blocks,
        blocks * 4096 <= usize::MAX,
        dev.addresses(blk + blocks - 1),
        0 <= byte < blocks * 4096,
    ensures
        ({
            let r = requests(dev, write, blk, blocks * 8)[byte / 512];
            &&& r.at <= byte < r.at + 512
            &&& r.sector == (blk + dev.partition_offset) * 8 + byte / 512
        }),
        forall|i: int|
            0 <= i < blocks * 8 && i != byte / 512 ==> !((#[trigger] requests(
                dev,
                write,
                blk,
                blocks * 8,
            )[i]).at <= byte < requests(dev, write, blk, blocks * 8)[i].at + 512),
{
}

/// A read goes to the sectors that a write of the same block went to, and moves
/// them to and from the same places.
pub proof fn lemma_read_meets_write(dev: SdhciDevice, blk: int, i: int)
    requires
        0 <= i < 8,
    ensures
        ({
            let (r, w) = (
                requests(dev, false, blk, 8)[i],
                requests(dev, true, blk, 8)[i],
            );
            r.sector == w.sector && r.at == w.at && r.command.arg == w.command.arg
        }),
{
}

/// Commits what was written. Every write is on the card before it returns, so
/// all that is asked is whether there is such a device.
pub fn flush(devs: &Devices, dev_idx: usize) -> (ok: bool)
    requires
        dev_idx < MAX_BLK_DEVICES,
    ensures
        ok == (devs.slots[dev_idx as int] is Some),
{
    devs.slots[dev_idx].is_some()
}

/// The magic number of the file system stands in its superblock.
pub open spec fn f2fs_block(block: Seq<u8>) -> bool {
    u32_at(block, 1024) == F2FS_MAGIC
}

/// Whether a device holds the file system, by its first block, if that could be
/// read.
pub fn has_f2fs(first: Option<&[u8]>) -> (b: bool)
    requires
        first is Some ==> first->0@.len() == BLOCK_SIZE,
    ensures
        b == (first is Some && f2fs_block(first->0@)),
{
    match first {
        Some(block) => read_u32(block, F2FS_SB_OFFSET) == F2FS_MAGIC,
        None => false,
    }
}

/// The `i`-th entry of a partition table is one for Linux.
pub open spec fn linux_entry(mbr: Seq<u8>, i: int) -> bool {
    mbr[446 + i * 16 + 4] == 0x83
}

/// The block at which the first Linux partition from entry `i` on starts.
pub open spec fn linux_partition(mbr: Seq<u8>, i: int) -> Option<u64>
    decreases 4 - i,
{
    if i >= 4 {
        None
    } else if linux_entry(mbr, i) {
        Some((u32_at(mbr, 446 + i * 16 + 8) / 8) as u64)
    } else {
        linux_partition(mbr, i + 1)
    }
}

/// The block at which a card's file system starts, by the card's first block.
pub open spec fn partition_of(mbr: Seq<u8>) -> Option<u64> {
    if mbr[510] != 0x55 || mbr[511] != 0xAA {
        None
    } else {
        linux_partition(mbr, 0)
    }
}

/// Finds the first Linux partition in a card's first block.
pub fn find_f2fs_partition(mbr: &[u8]) -> (start: Option<u64>)
    requires
        mbr@.len() == BLOCK_SIZE,
    ensures
        start == partition_of(mbr@),
{
    if mbr[510] != 0x55 || mbr[511] != 0xAA {
        return None;
    }
    let mut i: usize = 0;
    while i < 4
        invariant
            i <= 4,
            mbr@.len() == BLOCK_SIZE,
            partition_of(mbr@) == linux_partition(mbr@, i as int),
        decreases 4 - i,
    {
        let entry: usize = 446 + i * 16;
        if mbr[entry + 4] == 0x83 {
            let lba: u32 = read_u32(mbr, entry + 8);
            return Some((lba / 8) as u64);
        }
        i += 1;
    }
    None
}

/// The partition found is the first of its kind in the table.
pub proof fn lemma_first_partition_wins(mbr: Seq<u8>, i: int)
    requires
        0 <= i < 4,
        mbr[510] == 0x55,
        mbr[511] == 0xAA,
        linux_entry(mbr, i),
        forall|j: int| 0 <= j < i ==> !linux_entry(mbr, j),
    ensures
        partition_of(mbr) == Some((u32_at(mbr, 446 + i * 16 + 8) / 8) as u64),
{
    reveal_with_fuel(linux_partition, 5);
}

/// What a list of block devices says of one.
#[derive(Debug, Clone, Copy, PartialEq, Eq)]
pub struct BlkDevInfo {
    /// Zero: the size of a card is not known.
    pub total_blocks: u64,
    pub block_size: u32,
    /// The file system on it, if it is the known one.
    pub fstype: Option<&'static str>,
}

/// What is known of a device, given its first block, if that could be read.
pub fn info(devs: &Devices, dev_idx: usize, first: Option<&[u8]>) -> (i: Option<BlkDevInfo>)
    requires
        first is Some ==> first->0@.len() == BLOCK_SIZE,
    ensures
        i is Some <==> dev_idx < MAX_BLK_DEVICES && devs.slots[dev_idx as int] is Some,
        i is Some ==> {
            &&& i->0.total_blocks == 0
            &&& i->0.block_size == 4096
            &&& i->0.fstype is Some <==> first is Some && f2fs_block(first->0@)
            &&& i->0.fstype is Some ==> i->0.fstype->0@ == "f2fs"@
        },
{
    if dev_idx >= MAX_BLK_DEVICES {
        return None;
    }
    match devs.slots[dev_idx] {
        Some(_) => {
            let fstype = if has_f2fs(first) { Some("f2fs") } else { None };
            Some(BlkDevInfo { total_blocks: 0, block_size: 4096, fstype })
        },
        None => None,
    }
}

} // verus!
