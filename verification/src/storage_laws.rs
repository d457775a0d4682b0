//! How a card is found, asked and addressed.
use crate::rpi_mailbox::Board;
use crate::sdhci::{
    caps_of, clock_of, lemma_doubling, linux_partition, look, nth_request, partition_of,
    tran_speed, Command, Response, SdhciDevice,
};
use crate::sdhci_card::{CardAction, CardStage, Search};
use vstd::prelude::*;

verus! {

/// Sector `i` of a block is the `i`th of eight from eight times the block's number on,
/// counted from where the file system starts. A card of high capacity is told its
/// number, another the number of its first byte; it moves to or from its own 512
/// bytes of the buffer.
pub proof fn lemma_a_sector_is_named(dev: SdhciDevice, write: bool, blk: int, i: int)
    requires
        0 <= blk,
        0 <= i < 8,
        ((blk + dev.partition_offset) * 8 + i) * 512 < 0x1_0000_0000,
    ensures
        ({
            let r = nth_request(dev, write, blk, i);
            let sector = (blk + dev.partition_offset) * 8 + i;
            &&& r.sector == sector
            &&& r.at == 512 * i
            &&& r.write == write
            &&& r.command.index == (if write {
                24u8
            } else {
                17u8
            })
            &&& r.command.arg == (if dev.high_capacity {
                sector
            } else {
                sector * 512
            })
            &&& r.command.data
        }),
{
}

/// Different blocks, and different sectors of a block, never share a sector.
pub proof fn lemma_blocks_do_not_share_sectors(
    dev: SdhciDevice,
    a: int,
    i: int,
    b: int,
    j: int,
    write: bool,
)
    requires
        0 <= a,
        0 <= b,
        0 <= i < 8,
        0 <= j < 8,
        (a, i) != (b, j),
        (a + dev.partition_offset + 1) * 8 <= u64::MAX,
        (b + dev.partition_offset + 1) * 8 <= u64::MAX,
    ensures
        nth_request(dev, write, a, i).sector != nth_request(dev, write, b, j).sector,
{
}

/// A number made of two others comes apart again.
proof fn lemma_split(high: int, low: int, base: int)
    requires
        0 <= low < base,
    ensures
        (base * high + low) / base == high,
        (base * high + low) % base == low,
{
    assert(base * high == high * base) by (nonlinear_arith);
    vstd::arithmetic::div_mod::lemma_fundamental_div_mod_converse(
        base * high + low,
        base,
        high,
        low,
    );
}

/// A number made of a number, three flags and a code of two bits comes apart again.
#[verifier::spinoff_prover]
proof fn lemma_fields(n: int, d: int, i: int, c: int, r: int)
    requires
        0 <= n,
        0 <= d <= 1,
        0 <= i <= 1,
        0 <= c <= 1,
        0 <= r <= 3,
    ensures
        ({
            let w = 256 * n + 32 * d + 16 * i + 8 * c + r;
            &&& w / 256 == n
            &&& w / 64 % 4 == 0
            &&& w / 32 % 2 == d
            &&& w / 16 % 2 == i
            &&& w / 8 % 2 == c
            &&& w / 4 % 2 == 0
            &&& w % 4 == r
        }),
{
    lemma_split(n, 32 * d + 16 * i + 8 * c + r, 256);
    lemma_split(4 * n, 32 * d + 16 * i + 8 * c + r, 64);
    lemma_split(8 * n + d, 16 * i + 8 * c + r, 32);
    lemma_split(16 * n + 2 * d + i, 8 * c + r, 16);
    lemma_split(32 * n + 4 * d + 2 * i + c, r, 8);
    lemma_split(64 * n + 8 * d + 4 * i + 2 * c, r, 4);
    lemma_split(n, 0, 4);
    lemma_split(4 * n, d, 2);
    lemma_split(8 * n + d, i, 2);
    lemma_split(16 * n + 2 * d + i, c, 2);
    lemma_split(32 * n + 4 * d + 2 * i + c, 0, 2);
}

/// The command register: the command's number in the upper byte, whether data
/// follows in bit 5, the checks of number and checksum in bits 4 and 3, and the kind
/// of response in the lowest two.
pub proof fn lemma_the_command_register(c: Command)
    ensures
        ({
            let w = c.word();
            let bit = |b: bool|
                if b {
                    1int
                } else {
                    0int
                };
            &&& w / 256 == c.index
            &&& w / 64 % 4 == 0
            &&& w / 32 % 2 == bit(c.data)
            &&& w / 16 % 2 == bit(c.idx_check)
            &&& w / 8 % 2 == bit(c.crc_check)
            &&& w / 4 % 2 == 0
            &&& w % 4 == (match c.resp {
                Response::Nothing => 0int,
                Response::Long => 1,
                Response::Short => 2,
                Response::ShortBusy => 3,
            })
        }),
{
    lemma_fields(
        c.index as int,
        if c.data {
            1
        } else {
            0
        },
        if c.idx_check {
            1
        } else {
            0
        },
        if c.crc_check {
            1
        } else {
            0
        },
        c.resp.code() as int,
    );
}

/// What a controller says of itself: it is of the newer kind if the low byte of its
/// version is at least 2, and has its base clock in MHz in the byte above the lowest
/// one of its capabilities, in the lower six bits of that if it is older. Zero there
/// leaves it to the board.
pub proof fn lemma_the_base_clock(version: u16, caps: u32, board: Board)
    ensures
        ({
            let h = caps_of(version, caps, board);
            let mhz = if version & 0xff >= 2 {
                (caps >> 8) & 0xff
            } else {
                (caps >> 8) & 0x3f
            };
            &&& h.v3 <==> version & 0xff >= 2
            &&& mhz != 0 ==> h.base_khz == mhz * 1000
            &&& mhz == 0 && board == Board::Rpi5 ==> h.base_khz == 54_000
            &&& mhz == 0 && board == Board::Raspi4b ==> h.base_khz == 50_000
        }),
{
    assert(version & 0xff == version % 256) by (bit_vector);
    assert((caps >> 8) & 0xff == caps / 256 % 256 && (caps >> 8) & 0x3f == caps / 256 % 64)
        by (bit_vector);
}

/// An older controller divides its base clock by the least power of two that brings
/// it down to the target, and has half that number in the upper byte of the register.
pub proof fn lemma_the_older_divider(base: int, target: int)
    requires
        0 < base,
        0 < target,
    ensures
        ({
            let (sel, khz) = clock_of(base, target, false);
            let half = sel / 256;
            let d = if half == 0 {
                1
            } else {
                2 * half
            };
            &&& sel % 256 == 0
            &&& half == 0 || half == 1 || half == 2 || half == 4 || half == 8 || half == 16 || half
                == 32 || half == 64 || half == 128
            &&& khz == base / d
            &&& khz <= target || d == 256
            &&& d == 1 || base / half > target
        }),
{
    lemma_doubling(base, target, 1);
}

/// A speed byte in kHz: one unit up is ten times as fast, a reserved unit or factor is
/// no speed, and the highest bit is of no meaning.
pub proof fn lemma_card_speeds_scale(v: u8)
    ensures
        v % 8 < 3 ==> tran_speed((v + 1) as u8) == 10 * tran_speed(v),
        v % 8 >= 4 || v / 8 % 16 == 0 ==> tran_speed(v) == 0,
        v < 128 ==> tran_speed((v + 128) as u8) == tran_speed(v),
{
    if v % 8 < 3 {
        let w = (v + 1) as u8;
        assert(w % 8 == v % 8 + 1 && w / 8 == v / 8);
    }
    if v < 128 {
        let w = (v + 128) as u8;
        assert(w % 8 == v % 8 && w / 8 % 16 == v / 8 % 16);
    }
}

/// The factors of a card's speed run from 1.0 to 8.0: here of 10 MHz, the unit with
/// number 2.
pub proof fn lemma_card_speed_factors(code: u8)
    requires
        code < 16,
    ensures
        tran_speed((8 * code + 2) as u8) == 1000 * seq![
            0int,
            10,
            12,
            13,
            15,
            20,
            25,
            30,
            35,
            40,
            45,
            50,
            55,
            60,
            70,
            80,
        ][code as int],
{
    let v = (8 * code + 2) as u8;
    assert(v % 8 == 2 && v / 8 % 16 == code);
}

/// Entry `i` of a partition table starts at this sector.
pub open spec fn entry_start(mbr: Seq<u8>, i: int) -> int {
    let at = 446 + 16 * i + 8;
    mbr[at] + 0x100 * mbr[at + 1] + 0x1_0000 * mbr[at + 2] + 0x100_0000 * mbr[at + 3]
}

/// The type of entry `i` of a partition table.
pub open spec fn entry_type(mbr: Seq<u8>, i: int) -> u8 {
    mbr[450 + 16 * i]
}

/// The file system starts in the block that holds the first sector of the first of
/// the four entries whose type is 0x83. Without such an entry, or without the two
/// bytes at the end of the table, there is none.
pub proof fn lemma_the_file_system_is_found(mbr: Seq<u8>)
    requires
        mbr.len() >= 512,
    ensures
        ({
            let signed = mbr[510] == 0x55 && mbr[511] == 0xAA;
            &&& partition_of(mbr) is Some <==> signed && exists|i: int|
                0 <= i < 4 && #[trigger] entry_type(mbr, i) == 0x83
            &&& forall|i: int|
                signed && 0 <= i < 4 && #[trigger] entry_type(mbr, i) == 0x83 && (forall|j: int|
                    0 <= j < i ==> #[trigger] entry_type(mbr, j) != 0x83) ==> (partition_of(
                    mbr,
                ) matches Some(b) && 8 * b <= entry_start(mbr, i) < 8 * b + 8)
        }),
{
    reveal_with_fuel(linux_partition, 5);
    assert(entry_type(mbr, 0) == mbr[450] && entry_type(mbr, 1) == mbr[466] && entry_type(mbr, 2)
        == mbr[482] && entry_type(mbr, 3) == mbr[498]);
    assert forall|i: int|
        mbr[510] == 0x55 && mbr[511] == 0xAA && 0 <= i < 4 && #[trigger] entry_type(mbr, i) == 0x83
            && (forall|j: int| 0 <= j < i ==> #[trigger] entry_type(mbr, j) != 0x83) implies (
    partition_of(mbr) matches Some(b) && 8 * b <= entry_start(mbr, i) < 8 * b + 8) by {
        assert(i == 0 || i == 1 || i == 2 || i == 3);
        assert(i > 0 ==> entry_type(mbr, 0) != 0x83);
        assert(i > 1 ==> entry_type(mbr, 1) != 0x83);
        assert(i > 2 ==> entry_type(mbr, 2) != 0x83);
    }
}

/// A command without data, as the search sends them.
pub open spec fn sent(s: Search, index: u8, arg: u32) -> bool {
    s.action() matches CardAction::Send(c) && c.index == index && c.arg == arg && !c.data
}

/// What answers an asked card gives of itself: the pattern has to come back, bit 31
/// of the operating conditions says that it is ready and bit 30 that it is addressed
/// by sectors.
pub proof fn lemma_what_a_card_answers(s: Search, r: Seq<u32>, data: Seq<u8>)
    requires
        r.len() == 4,
    ensures
        sent(s, 8, 0x1AA) ==> (sent(s.next(true, r, data), 55, 0) <==> r[0] & 0xff == 0xAA),
        sent(s, 41, 0x40FF_8000) ==> (sent(s.next(true, r, data), 2, 0) <==> r[0] & 0x8000_0000
            != 0),
        sent(s, 41, 0x40FF_8000) && r[0] & 0x8000_0000 != 0 ==> (s.next(
            true,
            r,
            data,
        ).high_capacity <==> r[0] & 0x4000_0000 != 0),
{
    let w = r[0];
    assert(w & 0xff == w % 256 && (w & 0x8000_0000 != 0 <==> w >= 0x8000_0000) && (w & 0x4000_0000
        != 0 <==> w / 0x4000_0000 % 2 == 1)) by (bit_vector);
}

/// A card is addressed by the upper half of the word that it gave as its address: it
/// is asked for its speed and selected with just that.
pub proof fn lemma_a_card_is_called_by_its_address(
    s: Search,
    r: Seq<u32>,
    t: Seq<u32>,
    data: Seq<u8>,
)
    requires
        sent(s, 3, 0),
        r.len() == 4,
        t.len() == 4,
    ensures
        ({
            let asked = s.next(true, r, data);
            let told = asked.next(true, t, data);
            &&& sent(asked, 9, r[0] & 0xffff_0000)
            &&& sent(told, 7, r[0] & 0xffff_0000)
            &&& told.tran_khz == tran_speed((t[2] >> 24) as u8)
        }),
{
    let (w, v) = (r[0], t[2]);
    assert(w & 0xffff_0000 == w / 65536 * 65536 && v >> 24 == v / 0x100_0000) by (bit_vector);
    let b = (v / 0x100_0000) as u8;
    assert(0 <= tran_speed(b) <= 800_000) by {
        let k = (b / 8 % 16) as int;
        let u = (b % 8) as int;
    }
}

/// A selected card that is addressed by bytes is told to use sectors of 512 of them;
/// one that is addressed by sectors is not.
pub proof fn lemma_only_byte_addressed_cards_are_told_a_length(
    s: Search,
    r: Seq<u32>,
    data: Seq<u8>,
)
    requires
        s.stage == CardStage::Select,
    ensures
        sent(s.next(true, r, data), 16, 512) <==> !s.high_capacity,
        s.next(true, r, data).action() == CardAction::ReadHost <==> s.high_capacity,
{
}

/// A look at the status: an error, which bit 15 tells, goes before all else; otherwise
/// the wait is over once every awaited bit is set, and given up after twenty million
/// looks.
pub proof fn lemma_a_look_at_the_status(status: u16, bits: u16, spins: u32)
    ensures
        look(status, bits, spins) is Error <==> status & 0x8000 != 0,
        look(status, bits, spins) is Ready <==> status & 0x8000 == 0 && status & bits == bits,
        look(status, bits, spins) is TimedOut <==> status & 0x8000 == 0 && status & bits != bits
            && spins >= 20_000_000,
{
}

} // verus!
