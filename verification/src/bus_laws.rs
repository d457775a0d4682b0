//! How far up the ladder a card gets.
use crate::sdhci::{
    clock_of, divider, divisor, doubling, lemma_clock_fits, BusState, Command, HostCaps, Response,
};
use crate::sdhci_bus::{address, BusAction, Proof, Purpose, Stage, Talk};
use vstd::prelude::*;

verus! {

/// A command with a short response that is checked in full, and with data to read.
pub open spec fn reading(index: u8, arg: u32) -> Command {
    Command {
        index,
        arg,
        resp: Response::Short,
        data: true,
        crc_check: true,
        idx_check: true,
    }
}

/// The bits of an answer byte.
proof fn lemma_answer_bits(b: u8)
    ensures
        b & 0x02 != 0 <==> b / 2 % 2 == 1,
        b & 0x0f == b % 16,
        b & 0x04 != 0 <==> b / 4 % 2 == 1,
{
    assert((b & 0x02 != 0 <==> b / 2 % 2 == 1) && b & 0x0f == b % 16 && (b & 0x04 != 0 <==> b / 4 % 2
        == 1)) by (bit_vector);
}

/// A card that was asked for high speed is switched to it exactly if bit 1 of byte
/// 13 of its answer is set, whatever the other bits and bytes are. Otherwise the
/// negotiation is over.
pub proof fn lemma_high_speed_is_taken_if_offered(t: Talk, data: Seq<u8>)
    requires
        t.action() == BusAction::ReadData(reading(6, 0x00FF_FFF1), 64),
        data.len() == 64,
    ensures
        t.next(true, data).action() == BusAction::ReadData(reading(6, 0x80FF_FFF1), 64) <==> data[13]
            & 0x02 != 0,
        t.next(true, data).action() == BusAction::Finish <==> data[13] & 0x02 == 0,
        t.next(true, data).good == t.good,
{
    lemma_answer_bits(data[13]);
}

/// The faster clock is set exactly if the low four bits of byte 16 of the answer to
/// the switch are 1 and it is in fact faster; the bus then has the high speed bit.
pub proof fn lemma_high_speed_is_set_if_switched(t: Talk, data: Seq<u8>)
    requires
        t.action() == BusAction::ReadData(reading(6, 0x80FF_FFF1), 64),
        data.len() == 64,
    ensures
        ({
            let (sel, khz) = clock_of(t.caps.base_khz as int, 50_000, t.caps.v3);
            let u = t.next(true, data);
            &&& u.action() is Apply <==> data[16] & 0x0f == 1 && khz > t.good.clk_khz
            &&& u.action() matches BusAction::Apply(b) ==> b.clk_sel == sel && b.clk_khz == khz
                && b.host_ctl == t.good.host_ctl | 4
            &&& u.good == t.good
        }),
{
    lemma_answer_bits(data[16]);
    lemma_clock_fits(t.caps.base_khz as int, 50_000, t.caps.v3);
}

/// What the card tells of itself: the low four bits of the first byte are its
/// version, and it is told to use four data lines exactly if bit 2 of the second
/// byte is set.
pub proof fn lemma_what_the_card_tells(t: Talk, data: Seq<u8>)
    requires
        t.action() == BusAction::ReadData(reading(51, 0), 8),
        data.len() == 8,
    ensures
        t.next(true, data).sd_spec == data[0] & 0x0f,
        t.next(true, data).action() is Send <==> data[1] & 0x04 != 0,
{
    lemma_answer_bits(data[0]);
    lemma_answer_bits(data[1]);
    reveal(Talk::to_clock);
    reveal(Talk::to_full);
}

/// A card with which everything goes well: what it answers when it is read, when it
/// is asked what it can do, and when it is asked for or switched to high speed.
pub struct Card {
    pub sector: Seq<u8>,
    pub scr: Seq<u8>,
    pub status: Seq<u8>,
}

/// The negotiation after its next action with such a card.
pub open spec fn met(t: Talk, card: Card) -> Talk {
    match t.action() {
        BusAction::ReadSector(_) => t.next(true, card.sector),
        BusAction::ReadData(c, _) => t.next(
            true,
            if c.index == 51 {
                card.scr
            } else {
                card.status
            },
        ),
        _ => t.next(true, Seq::empty()),
    }
}

/// The negotiation after its next `n` actions with such a card.
pub open spec fn runs(t: Talk, card: Card, n: nat) -> Talk
    decreases n,
{
    if n == 0 {
        t
    } else {
        runs(met(t, card), card, (n - 1) as nat)
    }
}

/// The card answers at all, and offers and takes high speed.
pub open spec fn able(card: Card) -> bool {
    &&& card.sector.len() == 512
    &&& card.scr.len() == 8
    &&& card.status.len() == 64
    &&& card.scr[0] & 0x0f >= 1
    &&& card.status[13] & 0x02 != 0
    &&& card.status[16] & 0x0f == 1
}

/// The clock that a target gives on a host.
pub open spec fn khz(caps: HostCaps, target: int) -> int {
    clock_of(caps.base_khz as int, target, caps.v3).1
}

/// 50 MHz is faster on this host than the default speed of the card.
pub open spec fn worth_it(t: Talk) -> bool {
    khz(t.caps, t.ceiling as int) < khz(t.caps, 50_000)
}

/// A number divided by more is no more.
proof fn lemma_divided_by_more(base: int, d: int, e: int)
    requires
        0 <= base,
        0 < d <= e,
    ensures
        base / e <= base / d,
{
    vstd::arithmetic::div_mod::lemma_div_is_ordered_by_denominator(base, d, e);
}

/// A higher target is reached by dividing no more often.
proof fn lemma_doubling_for_more(base: int, a: int, b: int, d: int)
    requires
        0 < a <= b,
        0 < d,
    ensures
        0 < doubling(base, b, d) <= doubling(base, a, d),
        d <= doubling(base, a, d),
    decreases (if d < 256 {
        256 - d
    } else {
        0
    }),
{
    if d < 256 {
        lemma_doubling_for_more(base, a, b, 2 * d);
    }
}

/// A higher target gives no slower clock.
pub proof fn lemma_a_higher_target_is_no_slower(caps: HostCaps, a: int, b: int)
    requires
        0 < a <= b,
    ensures
        khz(caps, a) <= khz(caps, b),
{
    let base = caps.base_khz as int;
    if base > 0 {
        if caps.v3 {
            let (m, n) = (divider(base, a), divider(base, b));
            lemma_divider_for_more(base, a, b);
            lemma_divided_by_more(base, divisor(n), divisor(m));
        } else {
            lemma_doubling_for_more(base, a, b, 1);
            lemma_divided_by_more(base, doubling(base, b, 1), doubling(base, a, 1));
        }
    }
}

/// The divider for a higher target is no larger.
proof fn lemma_divider_for_more(base: int, a: int, b: int)
    requires
        0 < base,
        0 < a <= b,
    ensures
        0 <= divider(base, b) <= divider(base, a),
{
    let (m, n) = ((base + 2 * a - 1) / (2 * a), (base + 2 * b - 1) / (2 * b));
    vstd::arithmetic::div_mod::lemma_fundamental_div_mod(base + 2 * a - 1, 2 * a);
    vstd::arithmetic::div_mod::lemma_fundamental_div_mod(base + 2 * b - 1, 2 * b);
    assert(m >= 1 && n >= 1) by (nonlinear_arith)
        requires
            base + 2 * a - 1 == 2 * a * m + (base + 2 * a - 1) % (2 * a),
            base + 2 * b - 1 == 2 * b * n + (base + 2 * b - 1) % (2 * b),
            (base + 2 * a - 1) % (2 * a) < 2 * a,
            (base + 2 * b - 1) % (2 * b) < 2 * b,
            0 < base,
            0 < a <= b,
    ;
    assert(n <= m) by (nonlinear_arith)
        requires
            base + 2 * a - 1 == 2 * a * m + (base + 2 * a - 1) % (2 * a),
            base + 2 * b - 1 == 2 * b * n + (base + 2 * b - 1) % (2 * b),
            (base + 2 * a - 1) % (2 * a) < 2 * a,
            0 <= (base + 2 * b - 1) % (2 * b),
            0 < base,
            0 < a <= b,
            m >= 1,
            n >= 1,
    ;
}

/// A finished negotiation stays finished.
proof fn lemma_finished_stays(t: Talk, card: Card, n: nat)
    requires
        t.stage == Stage::Finished,
    ensures
        runs(t, card, n) == t,
    decreases n,
{
    if n > 0 {
        lemma_finished_stays(t, card, (n - 1) as nat);
    }
}

/// A rung that is climbed with such a card holds.
proof fn lemma_climbs(t: Talk, card: Card, p: Purpose, rung: BusState, n: nat)
    requires
        t.stage == Stage::Climb(p, rung),
        t.reference == card.sector,
        card.sector.len() == 512,
        n >= 2,
    ensures
        runs(t, card, n) == runs(
            (Talk {
                applied: rung,
                stage: Stage::Read(Proof::Rung(p, rung), false),
                ..t
            }).held(p, rung),
            card,
            (n - 2) as nat,
        ),
{
    let u = met(t, card);
    assert(u == (Talk {
        applied: rung,
        stage: Stage::Read(Proof::Rung(p, rung), false),
        ..t
    }));
    let v = met(u, card);
    assert(v == u.held(p, rung));
    assert(runs(t, card, n) == runs(u, card, (n - 1) as nat));
    assert(runs(u, card, (n - 1) as nat) == runs(v, card, (n - 2) as nat));
}

/// From the question for high speed to the end.
proof fn lemma_from_high_speed(t: Talk, card: Card, n: nat)
    requires
        t.stage == Stage::HsCheck,
        t.reference == card.sector,
        able(card),
        worth_it(t),
        t.good.clk_khz < khz(t.caps, 50_000),
        n >= 4,
    ensures
        ({
            let u = runs(t, card, n);
            &&& u.stage == Stage::Finished
            &&& u.good == (BusState { host_ctl: t.good.host_ctl | 4, ..t.clocked(50_000) })
        }),
{
    lemma_answer_bits(card.status[13]);
    lemma_answer_bits(card.status[16]);
    let a = met(t, card);
    assert(a == t.at(Stage::HsSet));
    let b = met(a, card);
    lemma_clock_fits(t.caps.base_khz as int, 50_000, t.caps.v3);
    assert(a.fastest().clk_khz == khz(t.caps, 50_000));
    assert(b == a.at(Stage::Climb(Purpose::HighSpeed, a.fastest())));
    assert(runs(t, card, n) == runs(b, card, (n - 2) as nat)) by {
        assert(runs(t, card, n) == runs(a, card, (n - 1) as nat));
    }
    lemma_climbs(b, card, Purpose::HighSpeed, a.fastest(), (n - 2) as nat);
    let c = (Talk {
        applied: a.fastest(),
        stage: Stage::Read(Proof::Rung(Purpose::HighSpeed, a.fastest()), false),
        ..b
    }).held(Purpose::HighSpeed, a.fastest());
    lemma_finished_stays(c, card, (n - 4) as nat);
}

/// From the default speed to the end.
proof fn lemma_from_full(t: Talk, card: Card, n: nat)
    requires
        t.reference == card.sector,
        able(card),
        worth_it(t),
        t.sd_spec >= 1,
        0 < t.ceiling,
        t.good.clk_khz < khz(t.caps, 50_000),
        t.clock_raised || t.good.clk_khz < khz(t.caps, t.ceiling as int),
        n >= 6,
    ensures
        ({
            let u = runs(t.to_full(), card, n);
            &&& u.stage == Stage::Finished
            &&& u.good == (BusState { host_ctl: t.good.host_ctl | 4, ..t.clocked(50_000) })
        }),
{
    reveal(Talk::to_full);
    let rung = t.clocked(t.ceiling as int);
    lemma_clock_fits(t.caps.base_khz as int, t.ceiling as int, t.caps.v3);
    assert(rung.clk_khz == khz(t.caps, t.ceiling as int));
    if rung.clk_khz > t.good.clk_khz {
        let a = t.at(Stage::Climb(Purpose::Full, rung));
        lemma_climbs(a, card, Purpose::Full, rung, n);
        let b = (Talk {
            applied: rung,
            stage: Stage::Read(Proof::Rung(Purpose::Full, rung), false),
            ..a
        }).held(Purpose::Full, rung);
        lemma_from_high_speed(b, card, (n - 2) as nat);
    } else {
        lemma_from_high_speed(t.to_high_speed(), card, n);
    }
}

/// From the clock to the end.
proof fn lemma_from_clock(t: Talk, card: Card, n: nat)
    requires
        t.reference == card.sector,
        able(card),
        worth_it(t),
        t.sd_spec >= 1,
        0 < t.ceiling,
        t.good.clk_khz < khz(t.caps, t.ceiling as int),
        n >= 8,
    ensures
        ({
            let u = runs(t.to_clock(), card, n);
            &&& u.stage == Stage::Finished
            &&& u.good == (BusState { host_ctl: t.good.host_ctl | 4, ..t.clocked(50_000) })
        }),
{
    reveal(Talk::to_clock);
    let half = (t.ceiling / 2) as int;
    let rung = t.clocked(half);
    lemma_clock_fits(t.caps.base_khz as int, half, t.caps.v3);
    assert(rung.clk_khz == khz(t.caps, half));
    if half > 0 {
        lemma_a_higher_target_is_no_slower(t.caps, half, t.ceiling as int);
    }
    if half != 0 && rung.clk_khz > t.good.clk_khz {
        let a = t.at(Stage::Climb(Purpose::Half, rung));
        lemma_climbs(a, card, Purpose::Half, rung, n);
        let b = Talk {
            applied: rung,
            good: rung,
            clock_raised: true,
            stage: Stage::Read(Proof::Rung(Purpose::Half, rung), false),
            ..t
        };
        assert((Talk {
            applied: rung,
            stage: Stage::Read(Proof::Rung(Purpose::Half, rung), false),
            ..a
        }).held(Purpose::Half, rung) == b.to_full());
        lemma_from_full(b, card, (n - 2) as nat);
    } else {
        lemma_from_full(t, card, n);
    }
}

/// The bits of the host control register.
proof fn lemma_register_bits()
    ensures
        0u8 | 2 == 2,
        0u8 | 4 == 4,
        2u8 | 4 == 6,
{
    assert(0u8 | 2 == 2 && 0u8 | 4 == 4 && 2u8 | 4 == 6) by (bit_vector);
}

/// A card that reads well and offers high speed gets it, within fifteen actions, on a
/// host on which the default speed is faster than the slow bus, and 50 MHz faster than
/// the default speed: the bus ends with the high speed bit set, with
/// four data lines exactly if the card allows them, and with the clock for 50 MHz.
pub proof fn lemma_an_able_card_gets_high_speed(
    caps: HostCaps,
    rca: u32,
    tran_speed: u32,
    card: Card,
    n: nat,
)
    requires
        able(card),
        worth_it(Talk::start(caps, rca, tran_speed)),
        ({
            let t = Talk::start(caps, rca, tran_speed);
            t.good.clk_khz < khz(caps, t.ceiling as int)
        }),
        n >= 15,
    ensures
        ({
            let u = runs(Talk::start(caps, rca, tran_speed), card, n);
            let (sel, khz) = clock_of(caps.base_khz as int, 50_000, caps.v3);
            &&& u.action() == BusAction::Finish
            &&& u.good.host_ctl == (if card.scr[1] & 0x04 != 0 {
                6u8
            } else {
                4u8
            })
            &&& u.good.clk_sel == sel
            &&& u.good.clk_khz == khz
        }),
{
    lemma_answer_bits(card.scr[0]);
    lemma_answer_bits(card.scr[1]);
    lemma_register_bits();
    lemma_clock_fits(caps.base_khz as int, 50_000, caps.v3);
    let t0 = Talk::start(caps, rca, tran_speed);
    let t1 = met(t0, card);
    assert(t1 == (Talk { reference: card.sector, stage: Stage::ScrCommand, ..t0 }));
    let t2 = met(t1, card);
    assert(t2 == t1.at(Stage::ScrData));
    let t3 = met(t2, card);
    let told = Talk { sd_spec: (card.scr[0] % 16) as u32, ..t2 };
    assert(t3 == t2.told(card.scr));
    assert(runs(t0, card, n) == runs(t3, card, (n - 3) as nat)) by {
        assert(runs(t0, card, n) == runs(t1, card, (n - 1) as nat));
        assert(runs(t1, card, (n - 1) as nat) == runs(t2, card, (n - 2) as nat));
    }
    assert(khz(caps, 50_000) == clock_of(caps.base_khz as int, 50_000, caps.v3).1);
    if card.scr[1] / 4 % 2 == 1 {
        let t4 = met(t3, card);
        assert(t4 == t3.at(Stage::WidthSet));
        let t5 = met(t4, card);
        let wide = t4.widened();
        assert(t5 == t4.at(Stage::Climb(Purpose::Width, wide)));
        assert(runs(t3, card, (n - 3) as nat) == runs(t5, card, (n - 5) as nat)) by {
            assert(runs(t3, card, (n - 3) as nat) == runs(t4, card, (n - 4) as nat));
        }
        lemma_climbs(t5, card, Purpose::Width, wide, (n - 5) as nat);
        let t6 = Talk {
            applied: wide,
            good: wide,
            stage: Stage::Read(Proof::Rung(Purpose::Width, wide), false),
            ..t5
        };
        assert(worth_it(t6));
        lemma_from_clock(t6, card, (n - 7) as nat);
    } else {
        assert(worth_it(told));
        lemma_from_clock(told, card, (n - 3) as nat);
    }
}

/// A command without data, with a short response that is checked in full.
pub open spec fn sending(index: u8, arg: u32) -> Command {
    Command {
        index,
        arg,
        resp: Response::Short,
        data: false,
        crc_check: true,
        idx_check: true,
    }
}

/// The read of the first sector.
pub open spec fn first_sector() -> BusAction {
    BusAction::ReadSector(reading(17, 0))
}

/// The answer is not the sector that was read on the slow bus.
pub open spec fn spoiled(t: Talk, ok: bool, data: Seq<u8>) -> bool {
    !ok || data != t.reference
}

/// A read that fails for the first time is tried again after a reset, on the same bus.
pub proof fn lemma_a_read_gets_a_second_try(t: Talk, what: Proof, ok: bool, data: Seq<u8>)
    requires
        t.stage == Stage::Read(what, false),
        spoiled(t, ok, data),
    ensures
        ({
            let u = t.next(ok, data);
            let v = u.next(true, Seq::empty());
            &&& u.action() == BusAction::Reset
            &&& v.action() == first_sector()
            &&& v.stage == Stage::Read(what, true)
            &&& (v.good, v.applied) == (t.good, t.applied)
        }),
{
}

/// A rung on which the second read fails too is taken back: after a reset the bus is
/// set to what is known to work, and read once more.
pub proof fn lemma_a_failed_rung_is_taken_back(
    t: Talk,
    p: Purpose,
    rung: BusState,
    ok: bool,
    data: Seq<u8>,
)
    requires
        t.stage == Stage::Read(Proof::Rung(p, rung), true),
        spoiled(t, ok, data),
    ensures
        ({
            let u = t.next(ok, data);
            let v = u.next(true, Seq::empty());
            let w = v.next(true, Seq::empty());
            &&& u.action() == BusAction::Reset
            &&& v.action() == BusAction::Apply(t.good)
            &&& w.action() == first_sector()
            &&& (w.good, w.applied) == (t.good, t.good)
        }),
{
}

/// A card whose four data lines did not work, on a bus that is back, is told to go back
/// to one line before anything else is tried.
pub proof fn lemma_a_card_is_narrowed_with_the_bus(t: Talk, second: bool)
    requires
        t.stage == Stage::Read(Proof::Restored(Purpose::Width), second),
        t.reference.len() == 512,
    ensures
        ({
            let u = t.next(true, t.reference);
            let v = u.next(true, Seq::empty());
            &&& u.action() == BusAction::Send(sending(55, address(t.rca)))
            &&& v.action() == BusAction::Send(sending(6, 0))
            &&& (v.good, v.applied) == (t.good, t.applied)
        }),
{
}

/// A clock that did not work ends the climb to faster ones of its kind: the card is
/// asked for high speed if a slower one did work, and left alone otherwise.
pub proof fn lemma_a_lost_clock_ends_the_climb(t: Talk, p: Purpose, second: bool)
    requires
        t.stage == Stage::Read(Proof::Restored(p), second),
        p == Purpose::Half || p == Purpose::Full,
        t.reference.len() == 512,
    ensures
        ({
            let u = t.next(true, t.reference);
            &&& u.good == t.good
            &&& u.action() == (if t.clock_raised && t.sd_spec >= 1 {
                BusAction::ReadData(reading(6, 0x00FF_FFF1), 64)
            } else {
                BusAction::Finish
            })
        }),
{
}

/// A card that was switched to high speed and did not work there is read on the slower
/// bus; where that fails twice it is switched back to default speed, and read again.
pub proof fn lemma_a_fast_card_is_slowed_down(t: Talk, second: bool, ok: bool, data: Seq<u8>)
    requires
        t.stage == Stage::Read(Proof::Restored(Purpose::HighSpeed), second),
        t.reference.len() == 512,
        spoiled(t, ok, data),
    ensures
        ({
            let u = t.next(true, t.reference);
            let v = u.next(ok, data).next(true, Seq::empty());
            let w = v.next(ok, data).next(true, Seq::empty());
            &&& u.action() == first_sector()
            &&& u.next(true, t.reference).action() == BusAction::Finish
            &&& v.action() == first_sector()
            &&& w.action() == BusAction::ReadData(reading(6, 0x80FF_FFF0), 64)
            &&& forall|answer: Seq<u8>|
                answer.len() == 64 ==> (#[trigger] w.next(true, answer)).action() == first_sector()
            &&& (w.good, w.applied) == (t.good, t.applied)
        }),
{
}

/// A bus that does not come back even after a rung was taken back goes down to the slow
/// bus: the card is told to use one line, and the bus is set to what it was identified
/// on, which is then what is known to work.
pub proof fn lemma_a_bus_that_is_lost_goes_down(t: Talk, p: Purpose, ok: bool, data: Seq<u8>)
    requires
        t.stage == Stage::Read(Proof::Restored(p), true),
        spoiled(t, ok, data),
    ensures
        ({
            let u = t.next(ok, data).next(true, Seq::empty());
            let v = u.next(true, Seq::empty());
            let w = v.next(true, Seq::empty());
            let x = w.next(true, Seq::empty());
            &&& t.next(ok, data).action() == BusAction::Reset
            &&& u.action() == BusAction::Send(sending(55, address(t.rca)))
            &&& v.action() == BusAction::Send(sending(6, 0))
            &&& w.action() == BusAction::Apply(t.floor)
            &&& (x.good, x.applied) == (t.floor, t.floor)
        }),
{
}

/// The same at the very end: a slow card that cannot be read is left on the slow bus.
pub proof fn lemma_a_slow_card_that_is_lost_goes_down(t: Talk, ok: bool, data: Seq<u8>)
    requires
        t.stage == Stage::Read(Proof::SlowCard, true),
        spoiled(t, ok, data),
    ensures
        ({
            let u = t.next(ok, data).next(true, Seq::empty());
            let v = u.next(true, Seq::empty());
            let w = v.next(true, Seq::empty());
            let x = w.next(true, Seq::empty());
            &&& u.action() == BusAction::Send(sending(55, address(t.rca)))
            &&& v.action() == BusAction::Send(sending(6, 0))
            &&& w.action() == BusAction::Apply(t.floor)
            &&& x.action() == BusAction::Finish
            &&& (x.good, x.applied) == (t.floor, t.floor)
        }),
{
}

/// Where the first read of all fails, or the card does not say what it can do, the bus
/// stays as it is and nothing is asked of the card's width.
pub proof fn lemma_a_card_that_does_not_answer_is_left_alone(t: Talk, data: Seq<u8>)
    ensures
        t.stage == Stage::Reference ==> {
            let u = t.next(false, data);
            &&& u.action() == BusAction::Reset
            &&& u.next(true, Seq::empty()).action() == BusAction::Finish
            &&& u.next(true, Seq::empty()).good == t.good
        },
        t.action() == BusAction::ReadData(reading(51, 0), 8) ==> {
            let u = t.next(false, data);
            &&& u.action() == BusAction::Reset
            &&& !(u.next(true, Seq::empty()).action() is Send)
            &&& u.next(true, Seq::empty()).good == t.good
        },
{
    reveal(Talk::to_clock);
    reveal(Talk::to_full);
}

/// A card's address stands in the upper half of a command's argument.
pub proof fn lemma_an_address_is_shifted(rca: u32)
    requires
        rca < 0x1_0000,
    ensures
        address(rca) == rca * 65536,
{
}

} // verus!
