//! Getting an SD card off the slow bus on which it was identified.
//!
//! The negotiation is a ladder over a state of the bus that is known to work.
//! Each rung is set and proved, by reading the first sector again and holding it
//! against a copy that was taken on the slow bus. A rung that does not hold is
//! taken back. The negotiation says what to do next and is told what came of it.
use vstd::prelude::*;
use crate::rpi_mailbox::Board;
use crate::sdhci::{
    BusState, CLK_DIV_MAX, CMD_APP_CMD, CMD_READ_SINGLE_BLOCK, CMD_SWITCH_FUNC, CMD_WRITE_BLOCK,
    Command, HC1_DATA_WIDTH_4, HC1_HIGH_SPEED, HostCaps, Response, ACMD_SEND_SCR,
    ACMD_SET_BUS_WIDTH, SCR_LEN, SECTOR_SIZE, SWITCH_CHECK_HS, SWITCH_SET_DS, SWITCH_SET_HS,
    SWITCH_STATUS_LEN, caps_of, clock_divider, clock_of, lemma_clock_fits, lemma_clock_stays_below_target,
};

verus! {

/// What a rung is for.
#[derive(Debug, Clone, Copy, PartialEq, Eq, Structural)]
pub enum Purpose {
    /// Four data lines.
    Width,
    /// Half the card's default speed.
    Half,
    /// The card's default speed.
    Full,
    HighSpeed,
}

/// What a read of the first sector is to prove.
#[derive(Debug, Clone, Copy, PartialEq, Eq, Structural)]
pub enum Proof {
    /// That a rung holds.
    Rung(Purpose, BusState),
    /// That the bus works again after a rung was taken back.
    Restored(Purpose),
    /// That a card in high speed mode works on a slower bus.
    FastCard,
    /// That a card sent back to default speed works.
    SlowCard,
}

/// How far the negotiation has come.
#[derive(Debug, Clone, Copy, PartialEq, Eq, Structural)]
pub enum Stage {
    /// Reading the copy that all else is held against.
    Reference,
    ReferenceLost,
    /// Asking the card what it can do.
    ScrCommand,
    ScrData,
    ScrLost,
    /// Telling the card to use four data lines.
    WidthCommand,
    WidthSet,
    WidthLost,
    /// Telling the card to go back to one.
    NarrowCommand,
    NarrowSet,
    NarrowLost,
    /// Setting the bus to a rung.
    Climb(Purpose, BusState),
    /// Reading the first sector, for the second time if the flag is set.
    Read(Proof, bool),
    /// Recovering from such a read.
    Settle(Proof, bool),
    /// Taking a rung back.
    Restore(Purpose),
    /// Going down to the slow bus, because of a rung or at the very end.
    FallCommand(Option<Purpose>),
    FallSet(Option<Purpose>),
    FallLost(Option<Purpose>),
    FallApply(Option<Purpose>),
    /// Asking for high speed, and for the switch to it.
    HsCheck,
    HsSet,
    HsLost,
    /// Sending the card back to default speed.
    SlowSwitch,
    SlowLost,
    Finished,
}

/// What to do next.
#[derive(Debug, Clone, Copy, PartialEq, Eq, Structural)]
pub enum BusAction {
    /// Read the first sector by this command, and hand back its bytes.
    ReadSector(Command),
    /// Send a command that has no data.
    Send(Command),
    /// Send a command that is answered by so many bytes of data, and hand them
    /// back.
    ReadData(Command, usize),
    /// Set the bus.
    Apply(BusState),
    /// Reset the command and data circuits.
    Reset,
    /// Nothing: the bus is as it stays.
    Finish,
}

/// What came of an action.
#[derive(Debug)]
pub struct BusReply {
    /// It succeeded. Of no meaning where nothing can fail.
    pub ok: bool,
    /// What was read.
    pub data: Vec<u8>,
}

/// Whether there was an answer of the right length.
pub open spec fn answered(ok: bool, data: Seq<u8>, len: usize) -> bool {
    ok && data.len() == len
}

/// The negotiation as a value.
pub struct Talk {
    pub caps: HostCaps,
    /// The card's address.
    pub rca: u32,
    /// The fastest default-speed clock.
    pub ceiling: u32,
    /// The slow bus.
    pub floor: BusState,
    /// The last state of the bus that is known to work.
    pub good: BusState,
    /// What the controller was last set to.
    pub applied: BusState,
    pub reference: Seq<u8>,
    pub sd_spec: u32,
    pub clock_raised: bool,
    pub stage: Stage,
}

/// A command that is answered by a short response, checked in full.
pub open spec fn plain(index: u8, arg: u32, data: bool) -> Command {
    Command { index, arg, resp: Response::Short, data, crc_check: true, idx_check: true }
}

/// The card's address as the argument of a command.
pub open spec fn address(rca: u32) -> u32 {
    (rca * 65536 % 0x1_0000_0000) as u32
}

/// The bus on which a card is identified: one data line and the slowest clock.
pub open spec fn slow_bus(caps: HostCaps) -> BusState {
    BusState {
        host_ctl: 0,
        clk_sel: CLK_DIV_MAX,
        clk_khz: caps.base_khz / (if caps.v3 { 510 } else { 256 }),
    }
}

/// The fastest default-speed clock of a card that allows `tran_speed`, where
/// zero means that it did not say.
pub open spec fn ceiling_of(tran_speed: u32) -> u32 {
    if tran_speed == 0 || tran_speed > 25_000 { 25_000 } else { tran_speed }
}

impl Talk {
    /// The start of the negotiation.
    pub open spec fn start(caps: HostCaps, rca: u32, tran_speed: u32) -> Talk {
        Talk {
            caps,
            rca,
            ceiling: ceiling_of(tran_speed),
            floor: slow_bus(caps),
            good: slow_bus(caps),
            applied: slow_bus(caps),
            reference: Seq::empty(),
            sd_spec: 0,
            clock_raised: false,
            stage: Stage::Reference,
        }
    }

    pub open spec fn at(self, stage: Stage) -> Talk {
        Talk { stage, ..self }
    }

    /// The bus as it is known to work, with another clock.
    pub open spec fn clocked(self, target: int) -> BusState {
        let (sel, khz) = clock_of(self.caps.base_khz as int, target, self.caps.v3);
        BusState { clk_sel: sel as u16, clk_khz: khz as u32, ..self.good }
    }

    /// The bus as it is known to work, with four data lines.
    pub open spec fn widened(self) -> BusState {
        BusState { host_ctl: self.good.host_ctl | HC1_DATA_WIDTH_4, ..self.good }
    }

    /// The bus of the high speed mode.
    pub open spec fn fastest(self) -> BusState {
        BusState { host_ctl: self.good.host_ctl | HC1_HIGH_SPEED, ..self.clocked(50_000) }
    }

    /// On to the high speed mode, if the card can be asked for it and the clock
    /// could be raised at all.
    pub open spec fn to_high_speed(self) -> Talk {
        if self.sd_spec >= 1 && self.clock_raised {
            self.at(Stage::HsCheck)
        } else {
            self.at(Stage::Finished)
        }
    }

    /// On to the default speed, if that is faster.
    #[verifier::opaque]
    pub open spec fn to_full(self) -> Talk {
        let rung = self.clocked(self.ceiling as int);
        if rung.clk_khz > self.good.clk_khz {
            self.at(Stage::Climb(Purpose::Full, rung))
        } else {
            self.to_high_speed()
        }
    }

    /// On to the clock: half the default speed first, if that is faster.
    #[verifier::opaque]
    pub open spec fn to_clock(self) -> Talk {
        let half = (self.ceiling / 2) as int;
        let rung = self.clocked(half);
        if half != 0 && rung.clk_khz > self.good.clk_khz {
            self.at(Stage::Climb(Purpose::Half, rung))
        } else {
            self.to_full()
        }
    }

    /// A rung held: it is what is known to work now.
    pub open spec fn held(self, p: Purpose, rung: BusState) -> Talk {
        let t = Talk { good: rung, ..self };
        match p {
            Purpose::Width => t.to_clock(),
            Purpose::Half => (Talk { clock_raised: true, ..t }).to_full(),
            Purpose::Full => (Talk { clock_raised: true, ..t }).to_high_speed(),
            Purpose::HighSpeed => t.at(Stage::Finished),
        }
    }

    /// A rung did not hold, and the bus is back where it was, or on the floor.
    /// The card is taken off the four data lines too; a lost clock ends the
    /// ladder; after the high speed mode it is seen to whether the card still
    /// works.
    pub open spec fn lost(self, p: Purpose) -> Talk {
        match p {
            Purpose::Width => self.at(Stage::NarrowCommand),
            Purpose::Half => self.to_high_speed(),
            Purpose::Full => self.to_high_speed(),
            Purpose::HighSpeed => self.at(Stage::Read(Proof::FastCard, false)),
        }
    }

    /// The first sector read as it should.
    pub open spec fn proved(self, what: Proof) -> Talk {
        match what {
            Proof::Rung(p, rung) => self.held(p, rung),
            Proof::Restored(p) => self.lost(p),
            Proof::FastCard => self.at(Stage::Finished),
            Proof::SlowCard => self.at(Stage::Finished),
        }
    }

    /// The first sector did not read as it should, twice.
    pub open spec fn refuted(self, what: Proof) -> Talk {
        match what {
            Proof::Rung(p, _) => self.at(Stage::Restore(p)),
            Proof::Restored(p) => self.at(Stage::FallCommand(Some(p))),
            Proof::FastCard => self.at(Stage::SlowSwitch),
            Proof::SlowCard => self.at(Stage::FallCommand(None)),
        }
    }

    /// What the card says it can do: the version it follows stands in the low
    /// four bits of the first byte, and bit 2 of the second byte allows four
    /// data lines.
    pub open spec fn told(self, scr: Seq<u8>) -> Talk {
        let t = Talk { sd_spec: (scr[0] % 16) as u32, ..self };
        if scr[1] / 4 % 2 == 1 {
            t.at(Stage::WidthCommand)
        } else {
            t.to_clock()
        }
    }

    /// What follows a command that the card took or did not take.
    pub open spec fn sent(self, ok: bool) -> Talk {
        match self.stage {
            Stage::ScrCommand => self.at(if ok { Stage::ScrData } else { Stage::ScrLost }),
            Stage::WidthCommand => self.at(if ok { Stage::WidthSet } else { Stage::WidthLost }),
            Stage::WidthSet => if ok {
                self.at(Stage::Climb(Purpose::Width, self.widened()))
            } else {
                self.at(Stage::WidthLost)
            },
            Stage::NarrowCommand => self.at(if ok { Stage::NarrowSet } else { Stage::NarrowLost }),
            Stage::NarrowSet => self.to_clock(),
            Stage::FallCommand(p) => self.at(
                if ok { Stage::FallSet(p) } else { Stage::FallLost(p) },
            ),
            Stage::FallSet(p) => self.at(Stage::FallApply(p)),
            _ => self,
        }
    }

    /// What follows a reset.
    pub open spec fn recovered(self) -> Talk {
        match self.stage {
            Stage::ReferenceLost => self.at(Stage::Finished),
            Stage::ScrLost => self.to_clock(),
            Stage::WidthLost => self.to_clock(),
            Stage::NarrowLost => self.to_clock(),
            Stage::Settle(what, second) => if second {
                self.refuted(what)
            } else {
                self.at(Stage::Read(what, true))
            },
            Stage::FallLost(p) => self.at(Stage::FallApply(p)),
            Stage::HsLost => self.at(Stage::Finished),
            Stage::SlowLost => self.at(Stage::Read(Proof::SlowCard, false)),
            _ => self,
        }
    }

    /// What follows once the bus was set.
    pub open spec fn set(self) -> Talk {
        match self.stage {
            Stage::Climb(p, rung) => (Talk { applied: rung, ..self }).at(
                Stage::Read(Proof::Rung(p, rung), false),
            ),
            Stage::Restore(p) => (Talk { applied: self.good, ..self }).at(
                Stage::Read(Proof::Restored(p), false),
            ),
            Stage::FallApply(p) => {
                let t = Talk { applied: self.floor, good: self.floor, ..self };
                match p {
                    Some(p) => t.lost(p),
                    None => t.at(Stage::Finished),
                }
            },
            _ => self,
        }
    }

    /// What follows a read. High speed is on offer if bit 1 of byte 13 is set,
    /// and was switched to if the low four bits of byte 16 are 1.
    pub open spec fn heard(self, ok: bool, data: Seq<u8>) -> Talk {
        match self.stage {
            Stage::Reference => if answered(ok, data, SECTOR_SIZE) {
                (Talk { reference: data, ..self }).at(Stage::ScrCommand)
            } else {
                self.at(Stage::ReferenceLost)
            },
            Stage::Read(what, second) => if answered(ok, data, SECTOR_SIZE) && data
                == self.reference {
                self.proved(what)
            } else {
                self.at(Stage::Settle(what, second))
            },
            Stage::ScrData => if answered(ok, data, SCR_LEN) {
                self.told(data)
            } else {
                self.at(Stage::ScrLost)
            },
            Stage::HsCheck => if !answered(ok, data, SWITCH_STATUS_LEN) {
                self.at(Stage::HsLost)
            } else if data[13] / 2 % 2 == 1 {
                self.at(Stage::HsSet)
            } else {
                self.at(Stage::Finished)
            },
            Stage::HsSet => if !(answered(ok, data, SWITCH_STATUS_LEN) && data[16] % 16 == 1) {
                self.at(Stage::HsLost)
            } else if self.fastest().clk_khz > self.good.clk_khz {
                self.at(Stage::Climb(Purpose::HighSpeed, self.fastest()))
            } else {
                self.at(Stage::Finished)
            },
            Stage::SlowSwitch => if answered(ok, data, SWITCH_STATUS_LEN) {
                self.at(Stage::Read(Proof::SlowCard, false))
            } else {
                self.at(Stage::SlowLost)
            },
            _ => self,
        }
    }

    /// What the negotiation does next.
    pub open spec fn action(self) -> BusAction {
        match self.stage {
            Stage::Reference => BusAction::ReadSector(plain(CMD_READ_SINGLE_BLOCK, 0, true)),
            Stage::Read(_, _) => BusAction::ReadSector(plain(CMD_READ_SINGLE_BLOCK, 0, true)),
            Stage::ScrCommand => BusAction::Send(plain(CMD_APP_CMD, address(self.rca), false)),
            Stage::WidthCommand => BusAction::Send(plain(CMD_APP_CMD, address(self.rca), false)),
            Stage::NarrowCommand => BusAction::Send(plain(CMD_APP_CMD, address(self.rca), false)),
            Stage::FallCommand(_) => BusAction::Send(plain(CMD_APP_CMD, address(self.rca), false)),
            Stage::WidthSet => BusAction::Send(plain(ACMD_SET_BUS_WIDTH, 2, false)),
            Stage::NarrowSet => BusAction::Send(plain(ACMD_SET_BUS_WIDTH, 0, false)),
            Stage::FallSet(_) => BusAction::Send(plain(ACMD_SET_BUS_WIDTH, 0, false)),
            Stage::ScrData => BusAction::ReadData(plain(ACMD_SEND_SCR, 0, true), SCR_LEN),
            Stage::HsCheck => BusAction::ReadData(
                plain(CMD_SWITCH_FUNC, SWITCH_CHECK_HS, true),
                SWITCH_STATUS_LEN,
            ),
            Stage::HsSet => BusAction::ReadData(
                plain(CMD_SWITCH_FUNC, SWITCH_SET_HS, true),
                SWITCH_STATUS_LEN,
            ),
            Stage::SlowSwitch => BusAction::ReadData(
                plain(CMD_SWITCH_FUNC, SWITCH_SET_DS, true),
                SWITCH_STATUS_LEN,
            ),
            Stage::Climb(_, rung) => BusAction::Apply(rung),
            Stage::Restore(_) => BusAction::Apply(self.good),
            Stage::FallApply(_) => BusAction::Apply(self.floor),
            Stage::Finished => BusAction::Finish,
            _ => BusAction::Reset,
        }
    }

    /// The negotiation after an action, by what came of it.
    pub open spec fn next(self, ok: bool, data: Seq<u8>) -> Talk {
        match self.action() {
            BusAction::ReadSector(_) => self.heard(ok, data),
            BusAction::Send(_) => self.sent(ok),
            BusAction::ReadData(_, _) => self.heard(ok, data),
            BusAction::Apply(_) => self.set(),
            BusAction::Reset => self.recovered(),
            BusAction::Finish => self,
        }
    }
}

/// A negotiation under way.
#[derive(Debug)]
pub struct Negotiation {
    pub caps: HostCaps,
    pub rca: u32,
    pub ceiling: u32,
    pub floor: BusState,
    pub good: BusState,
    pub applied: BusState,
    pub reference: Vec<u8>,
    pub sd_spec: u32,
    pub clock_raised: bool,
    pub stage: Stage,
}

impl View for Negotiation {
    type V = Talk;

    open spec fn view(&self) -> Talk {
        Talk {
            caps: self.caps,
            rca: self.rca,
            ceiling: self.ceiling,
            floor: self.floor,
            good: self.good,
            applied: self.applied,
            reference: self.reference@,
            sd_spec: self.sd_spec,
            clock_raised: self.clock_raised,
            stage: self.stage,
        }
    }
}

/// Whether two runs of bytes are the same.
fn same_bytes(a: &Vec<u8>, b: &Vec<u8>) -> (r: bool)
    ensures
        r == (a@ == b@),
{
    if a.len() != b.len() {
        return false;
    }
    let mut i: usize = 0;
    while i < a.len()
        invariant
            i <= a.len(),
            a.len() == b.len(),
            forall|j: int| 0 <= j < i ==> a@[j] == b@[j],
        decreases a.len() - i,
    {
        if a[i] != b[i] {
            return false;
        }
        i += 1;
    }
    assert(a@ =~= b@);
    true
}

/// A command that is answered by a short response, checked in full.
fn plain_command(index: u8, arg: u32, data: bool) -> (c: Command)
    ensures
        c == plain(index, arg, data),
{
    Command { index, arg, resp: Response::Short, data, crc_check: true, idx_check: true }
}

impl Negotiation {
    /// Starts the negotiation with a card at address `rca` that allows
    /// `tran_speed_khz`, on the bus on which it was identified.
    pub fn new(caps: HostCaps, rca: u32, tran_speed_khz: u32) -> (n: Negotiation)
        ensures
            n@ == Talk::start(caps, rca, tran_speed_khz),
    {
        let khz: u32 = if caps.v3 { caps.base_khz / 510 } else { caps.base_khz / 256 };
        let floor = BusState { host_ctl: 0, clk_sel: CLK_DIV_MAX, clk_khz: khz };
        let n = Negotiation {
            caps,
            rca,
            ceiling: if tran_speed_khz == 0 || tran_speed_khz > 25_000 {
                25_000
            } else {
                tran_speed_khz
            },
            floor,
            good: floor,
            applied: floor,
            reference: Vec::new(),
            sd_spec: 0,
            clock_raised: false,
            stage: Stage::Reference,
        };
        assert(n@.reference =~= Seq::empty());
        n
    }

    fn clocked(&self, target: u32) -> (b: BusState)
        ensures
            b == self@.clocked(target as int),
    {
        proof {
            lemma_clock_fits(self.caps.base_khz as int, target as int, self.caps.v3);
        }
        let (clk_sel, clk_khz) = clock_divider(self.caps.base_khz, target, self.caps.v3);
        BusState { host_ctl: self.good.host_ctl, clk_sel, clk_khz }
    }

    fn fastest(&self) -> (b: BusState)
        ensures
            b == self@.fastest(),
    {
        let c = self.clocked(50_000);
        BusState { host_ctl: self.good.host_ctl | HC1_HIGH_SPEED, ..c }
    }

    fn to_high_speed(&mut self)
        ensures
            final(self)@ == old(self)@.to_high_speed(),
    {
        self.stage = if self.sd_spec >= 1 && self.clock_raised {
            Stage::HsCheck
        } else {
            Stage::Finished
        };
    }

    fn to_full(&mut self)
        ensures
            final(self)@ == old(self)@.to_full(),
    {
        proof {
            reveal(Talk::to_full);
        }
        let rung = self.clocked(self.ceiling);
        if rung.clk_khz > self.good.clk_khz {
            self.stage = Stage::Climb(Purpose::Full, rung);
        } else {
            self.to_high_speed();
        }
    }

    fn to_clock(&mut self)
        ensures
            final(self)@ == old(self)@.to_clock(),
    {
        proof {
            reveal(Talk::to_clock);
        }
        let half: u32 = self.ceiling / 2;
        let rung = self.clocked(half);
        if half != 0 && rung.clk_khz > self.good.clk_khz {
            self.stage = Stage::Climb(Purpose::Half, rung);
        } else {
            self.to_full();
        }
    }

    fn held(&mut self, p: Purpose, rung: BusState)
        ensures
            final(self)@ == old(self)@.held(p, rung),
    {
        self.good = rung;
        match p {
            Purpose::Width => self.to_clock(),
            Purpose::Half => {
                self.clock_raised = true;
                self.to_full();
            },
            Purpose::Full => {
                self.clock_raised = true;
                self.to_high_speed();
            },
            Purpose::HighSpeed => {
                self.stage = Stage::Finished;
            },
        }
    }

    fn lost(&mut self, p: Purpose)
        ensures
            final(self)@ == old(self)@.lost(p),
    {
        match p {
            Purpose::Width => {
                self.stage = Stage::NarrowCommand;
            },
            Purpose::Half => self.to_high_speed(),
            Purpose::Full => self.to_high_speed(),
            Purpose::HighSpeed => {
                self.stage = Stage::Read(Proof::FastCard, false);
            },
        }
    }

    fn proved(&mut self, what: Proof)
        ensures
            final(self)@ == old(self)@.proved(what),
    {
        match what {
            Proof::Rung(p, rung) => self.held(p, rung),
            Proof::Restored(p) => self.lost(p),
            Proof::FastCard => {
                self.stage = Stage::Finished;
            },
            Proof::SlowCard => {
                self.stage = Stage::Finished;
            },
        }
    }

    fn refuted(&mut self, what: Proof)
        ensures
            final(self)@ == old(self)@.refuted(what),
    {
        self.stage = match what {
            Proof::Rung(p, _) => Stage::Restore(p),
            Proof::Restored(p) => Stage::FallCommand(Some(p)),
            Proof::FastCard => Stage::SlowSwitch,
            Proof::SlowCard => Stage::FallCommand(None),
        };
    }

    fn sent(&mut self, ok: bool)
        ensures
            final(self)@ == old(self)@.sent(ok),
    {
        match self.stage {
            Stage::ScrCommand => {
                self.stage = if ok { Stage::ScrData } else { Stage::ScrLost };
            },
            Stage::WidthCommand => {
                self.stage = if ok { Stage::WidthSet } else { Stage::WidthLost };
            },
            Stage::WidthSet => {
                let good = self.good;
                let wide = BusState { host_ctl: good.host_ctl | HC1_DATA_WIDTH_4, ..good };
                self.stage = if ok {
                    Stage::Climb(Purpose::Width, wide)
                } else {
                    Stage::WidthLost
                };
            },
            Stage::NarrowCommand => {
                self.stage = if ok { Stage::NarrowSet } else { Stage::NarrowLost };
            },
            Stage::NarrowSet => self.to_clock(),
            Stage::FallCommand(p) => {
                self.stage = if ok { Stage::FallSet(p) } else { Stage::FallLost(p) };
            },
            Stage::FallSet(p) => {
                self.stage = Stage::FallApply(p);
            },
            _ => {},
        }
    }

    fn recovered(&mut self)
        ensures
            final(self)@ == old(self)@.recovered(),
    {
        match self.stage {
            Stage::ReferenceLost => {
                self.stage = Stage::Finished;
            },
            Stage::ScrLost => self.to_clock(),
            Stage::WidthLost => self.to_clock(),
            Stage::NarrowLost => self.to_clock(),
            Stage::Settle(what, second) => {
                if second {
                    self.refuted(what);
                } else {
                    self.stage = Stage::Read(what, true);
                }
            },
            Stage::FallLost(p) => {
                self.stage = Stage::FallApply(p);
            },
            Stage::HsLost => {
                self.stage = Stage::Finished;
            },
            Stage::SlowLost => {
                self.stage = Stage::Read(Proof::SlowCard, false);
            },
            _ => {},
        }
    }

    fn set(&mut self)
        ensures
            final(self)@ == old(self)@.set(),
    {
        match self.stage {
            Stage::Climb(p, rung) => {
                self.applied = rung;
                self.stage = Stage::Read(Proof::Rung(p, rung), false);
            },
            Stage::Restore(p) => {
                self.applied = self.good;
                self.stage = Stage::Read(Proof::Restored(p), false);
            },
            Stage::FallApply(p) => {
                self.applied = self.floor;
                self.good = self.floor;
                match p {
                    Some(p) => self.lost(p),
                    None => {
                        self.stage = Stage::Finished;
                    },
                }
            },
            _ => {},
        }
    }

    fn told(&mut self, scr: &Vec<u8>)
        requires
            scr@.len() == SCR_LEN,
        ensures
            final(self)@ == old(self)@.told(scr@),
    {
        self.sd_spec = (scr[0] % 16) as u32;
        if scr[1] / 4 % 2 == 1 {
            self.stage = Stage::WidthCommand;
        } else {
            self.to_clock();
        }
    }

    fn heard(&mut self, ok: bool, data: Vec<u8>)
        ensures
            final(self)@ == old(self)@.heard(ok, data@),
    {
        match self.stage {
            Stage::Reference => {
                if ok && data.len() == SECTOR_SIZE {
                    self.reference = data;
                    self.stage = Stage::ScrCommand;
                } else {
                    self.stage = Stage::ReferenceLost;
                }
            },
            Stage::Read(what, second) => {
                if ok && data.len() == SECTOR_SIZE && same_bytes(&data, &self.reference) {
                    self.proved(what);
                } else {
                    self.stage = Stage::Settle(what, second);
                }
            },
            Stage::ScrData => {
                if ok && data.len() == SCR_LEN {
                    self.told(&data);
                } else {
                    self.stage = Stage::ScrLost;
                }
            },
            Stage::HsCheck => {
                self.stage = if !(ok && data.len() == SWITCH_STATUS_LEN) {
                    Stage::HsLost
                } else if data[13] / 2 % 2 == 1 {
                    Stage::HsSet
                } else {
                    Stage::Finished
                };
            },
            Stage::HsSet => {
                let rung = self.fastest();
                self.stage = if !(ok && data.len() == SWITCH_STATUS_LEN && data[16] % 16 == 1) {
                    Stage::HsLost
                } else if rung.clk_khz > self.good.clk_khz {
                    Stage::Climb(Purpose::HighSpeed, rung)
                } else {
                    Stage::Finished
                };
            },
            Stage::SlowSwitch => {
                self.stage = if ok && data.len() == SWITCH_STATUS_LEN {
                    Stage::Read(Proof::SlowCard, false)
                } else {
                    Stage::SlowLost
                };
            },
            _ => {},
        }
    }

    /// What to do next.
    pub fn action(&self) -> (a: BusAction)
        ensures
            a == self@.action(),
    {
        let rca: u32 = (self.rca as u64 * 65536 % 0x1_0000_0000) as u32;
        let app_cmd = plain_command(CMD_APP_CMD, rca, false);
        let read = plain_command(CMD_READ_SINGLE_BLOCK, 0, true);
        match self.stage {
            Stage::Reference => BusAction::ReadSector(read),
            Stage::Read(_, _) => BusAction::ReadSector(read),
            Stage::ScrCommand => BusAction::Send(app_cmd),
            Stage::WidthCommand => BusAction::Send(app_cmd),
            Stage::NarrowCommand => BusAction::Send(app_cmd),
            Stage::FallCommand(_) => BusAction::Send(app_cmd),
            Stage::WidthSet => BusAction::Send(plain_command(ACMD_SET_BUS_WIDTH, 2, false)),
            Stage::NarrowSet => BusAction::Send(plain_command(ACMD_SET_BUS_WIDTH, 0, false)),
            Stage::FallSet(_) => BusAction::Send(plain_command(ACMD_SET_BUS_WIDTH, 0, false)),
            Stage::ScrData => BusAction::ReadData(plain_command(ACMD_SEND_SCR, 0, true), SCR_LEN),
            Stage::HsCheck => BusAction::ReadData(
                plain_command(CMD_SWITCH_FUNC, SWITCH_CHECK_HS, true),
                SWITCH_STATUS_LEN,
            ),
            Stage::HsSet => BusAction::ReadData(
                plain_command(CMD_SWITCH_FUNC, SWITCH_SET_HS, true),
                SWITCH_STATUS_LEN,
            ),
            Stage::SlowSwitch => BusAction::ReadData(
                plain_command(CMD_SWITCH_FUNC, SWITCH_SET_DS, true),
                SWITCH_STATUS_LEN,
            ),
            Stage::Climb(_, rung) => BusAction::Apply(rung),
            Stage::Restore(_) => BusAction::Apply(self.good),
            Stage::FallApply(_) => BusAction::Apply(self.floor),
            Stage::Finished => BusAction::Finish,
            _ => BusAction::Reset,
        }
    }

    /// Takes in what came of the action.
    pub fn advance(&mut self, reply: BusReply)
        ensures
            final(self)@ == old(self)@.next(reply.ok, reply.data@),
    {
        match self.action() {
            BusAction::ReadSector(_) => self.heard(reply.ok, reply.data),
            BusAction::Send(_) => self.sent(reply.ok),
            BusAction::ReadData(_, _) => self.heard(reply.ok, reply.data),
            BusAction::Apply(_) => self.set(),
            BusAction::Reset => self.recovered(),
            BusAction::Finish => {},
        }
    }
}

/// How much of the ladder lies behind a purpose.
pub open spec fn purpose_rank(p: Purpose) -> int {
    match p {
        Purpose::Width => 100,
        Purpose::Half => 80,
        Purpose::Full => 60,
        Purpose::HighSpeed => 35,
    }
}

/// How much is still to do after a proof was begun.
pub open spec fn proof_rank(what: Proof) -> int {
    match what {
        Proof::Rung(p, _) => purpose_rank(p) + 12,
        Proof::Restored(p) => purpose_rank(p) + 7,
        Proof::FastCard => 31,
        Proof::SlowCard => 24,
    }
}

pub open spec fn fall_rank(p: Option<Purpose>) -> int {
    match p {
        Some(p) => purpose_rank(p) + 4,
        None => 4,
    }
}

pub open spec fn try_rank(second: bool) -> int {
    if second { 0 } else { 2 }
}

/// A bound on the actions that are still to come.
pub open spec fn stage_rank(s: Stage) -> int {
    match s {
        Stage::Reference => 140,
        Stage::ReferenceLost => 1,
        Stage::ScrCommand => 130,
        Stage::ScrData => 129,
        Stage::ScrLost => 128,
        Stage::WidthCommand => 125,
        Stage::WidthSet => 124,
        Stage::WidthLost => 123,
        Stage::NarrowCommand => 103,
        Stage::NarrowSet => 102,
        Stage::NarrowLost => 102,
        Stage::Climb(p, _) => purpose_rank(p) + 17,
        Stage::Read(what, second) => proof_rank(what) + 2 + try_rank(second),
        Stage::Settle(what, second) => proof_rank(what) + 1 + try_rank(second),
        Stage::Restore(p) => purpose_rank(p) + 12,
        Stage::FallCommand(p) => fall_rank(p) + 3,
        Stage::FallSet(p) => fall_rank(p) + 2,
        Stage::FallLost(p) => fall_rank(p) + 2,
        Stage::FallApply(p) => fall_rank(p) + 1,
        Stage::HsCheck => 57,
        Stage::HsSet => 56,
        Stage::HsLost => 1,
        Stage::SlowSwitch => 30,
        Stage::SlowLost => 29,
        Stage::Finished => 0,
    }
}

proof fn lemma_rank_of_branches(t: Talk, p: Purpose, rung: BusState)
    ensures
        0 <= stage_rank(t.to_high_speed().stage) <= 57,
        0 <= stage_rank(t.to_full().stage) <= 77,
        0 <= stage_rank(t.to_clock().stage) <= 97,
        0 <= stage_rank(t.held(p, rung).stage) < purpose_rank(p) + 14,
        0 <= stage_rank(t.lost(p).stage) < purpose_rank(p) + 5,
{
    reveal(Talk::to_full);
    reveal(Talk::to_clock);
    let u = Talk { good: rung, ..t };
    let v = Talk { clock_raised: true, ..u };
    assert(stage_rank(t.to_full().stage) <= 77);
    assert(stage_rank(u.to_full().stage) <= 77);
    assert(stage_rank(u.to_clock().stage) <= 97);
    assert(stage_rank(v.to_full().stage) <= 77);
}

proof fn lemma_sent_goes_on(t: Talk, ok: bool)
    requires
        t.action() is Send,
    ensures
        0 <= stage_rank(t.sent(ok).stage) < stage_rank(t.stage),
{
    lemma_rank_of_branches(t, Purpose::Width, t.good);
}

proof fn lemma_recovered_goes_on(t: Talk)
    requires
        t.action() is Reset,
    ensures
        0 <= stage_rank(t.recovered().stage) < stage_rank(t.stage),
{
    lemma_rank_of_branches(t, Purpose::Width, t.good);
}

proof fn lemma_set_goes_on(t: Talk)
    requires
        t.action() is Apply,
    ensures
        0 <= stage_rank(t.set().stage) < stage_rank(t.stage),
{
    match t.stage {
        Stage::FallApply(Some(p)) => {
            lemma_rank_of_branches(
                Talk { applied: t.floor, good: t.floor, ..t },
                p,
                t.good,
            );
        },
        _ => {},
    }
}

proof fn lemma_heard_goes_on(t: Talk, ok: bool, data: Seq<u8>)
    requires
        t.action() is ReadSector || t.action() is ReadData,
    ensures
        0 <= stage_rank(t.heard(ok, data).stage) < stage_rank(t.stage),
{
    match t.stage {
        Stage::Read(what, _) => {
            match what {
                Proof::Rung(p, rung) => lemma_rank_of_branches(t, p, rung),
                Proof::Restored(p) => lemma_rank_of_branches(t, p, t.good),
                _ => {},
            }
        },
        Stage::ScrData => {
            let u = Talk { sd_spec: (data[0] % 16) as u32, ..t };
            lemma_rank_of_branches(u, Purpose::Width, t.good);
        },
        _ => {},
    }
}

/// The negotiation ends: whatever comes of an action, fewer are left.
pub proof fn lemma_negotiation_ends(t: Talk, ok: bool, data: Seq<u8>)
    requires
        t.stage != Stage::Finished,
    ensures
        0 <= stage_rank(t.next(ok, data).stage) < stage_rank(t.stage) <= 140,
{
    match t.action() {
        BusAction::ReadSector(_) => lemma_heard_goes_on(t, ok, data),
        BusAction::Send(_) => lemma_sent_goes_on(t, ok),
        BusAction::ReadData(_, _) => lemma_heard_goes_on(t, ok, data),
        BusAction::Apply(_) => lemma_set_goes_on(t),
        BusAction::Reset => lemma_recovered_goes_on(t),
        BusAction::Finish => {},
    }
}

/// The bus runs in high speed mode.
pub open spec fn fast(b: BusState) -> bool {
    b.host_ctl == 4 || b.host_ctl == 6
}

/// A state of the bus that a negotiation may come to: none slower than the one it
/// began with, none above 25 MHz without the high speed mode, none above 50 MHz.
pub open spec fn allowed(b: BusState, floor: BusState) -> bool {
    &&& b.ok()
    &&& floor.clk_khz <= b.clk_khz <= 50_000
    &&& b.clk_khz <= 25_000 || fast(b)
}

/// What the controller is set to, by the stage: a rung that is being tried out,
/// or the state that is known to work.
pub open spec fn in_force(t: Talk) -> bool {
    match t.stage {
        Stage::Climb(_, rung) => t.applied == t.good && allowed(rung, t.floor),
        Stage::Read(Proof::Rung(_, rung), _) => t.applied == rung && allowed(rung, t.floor),
        Stage::Settle(Proof::Rung(_, rung), _) => t.applied == rung && allowed(rung, t.floor),
        Stage::Restore(_) => allowed(t.applied, t.floor),
        _ => t.applied == t.good,
    }
}

/// What holds of a negotiation at all times.
pub open spec fn sound(t: Talk) -> bool {
    &&& 0 < t.caps.base_khz <= 255_000
    &&& 0 < t.ceiling <= 25_000
    &&& t.floor == slow_bus(t.caps)
    &&& allowed(t.good, t.floor)
    &&& in_force(t)
}

/// A clock that was asked for at up to 50 MHz stays within what was asked, or
/// within 25 MHz.
proof fn lemma_clock_is_bounded(base: int, target: int, v3: bool)
    requires
        0 < base <= 255_000,
        0 < target,
    ensures
        clock_of(base, target, v3).1 <= target || clock_of(base, target, v3).1 <= 25_000,
{
    lemma_clock_stays_below_target(base, target, v3);
    lemma_clock_fits(base, target, v3);
    if v3 {
        let n = crate::sdhci::divider(base, target);
        crate::sdhci::lemma_divider_is_least(base, target);
        crate::sdhci::lemma_divider_reads_back(n);
        crate::sdhci::lemma_divider_reads_back(1023);
        if n == 1023 {
            assert(clock_of(base, target, v3).1 == base / 2046);
        }
    } else {
        let d = crate::sdhci::doubling(base, target, 1);
        if d / 2 * 256 == 0x8000 {
            assert(d >= 256);
            assert(base / d <= 25_000) by (nonlinear_arith)
                requires
                    d >= 256,
                    0 < base <= 255_000,
            ;
        }
    }
}

proof fn lemma_bits(b: BusState)
    requires
        b.ok(),
    ensures
        b.host_ctl | HC1_DATA_WIDTH_4 == (if b.host_ctl == 0 {
            2u8
        } else if b.host_ctl == 4 {
            6
        } else {
            b.host_ctl
        }),
        b.host_ctl | HC1_HIGH_SPEED == (if b.host_ctl == 0 {
            4u8
        } else if b.host_ctl == 2 {
            6
        } else {
            b.host_ctl
        }),
{
    assert(0u8 | 2 == 2 && 2u8 | 2 == 2 && 4u8 | 2 == 6 && 6u8 | 2 == 6 && 0u8 | 4 == 4 && 2u8 | 4
        == 6 && 4u8 | 4 == 4 && 6u8 | 4 == 6) by (bit_vector);
}

/// A negotiation with any card and any controller starts soundly.
pub proof fn lemma_negotiation_starts_sound(
    version: u16,
    caps: u32,
    board: Board,
    rca: u32,
    tran_speed: u32,
)
    ensures
        sound(Talk::start(caps_of(version, caps, board), rca, tran_speed)),
{
}

proof fn lemma_clocked(t: Talk, target: int)
    requires
        sound(t),
        0 < target <= 50_000,
    ensures
        t.clocked(target).clk_khz > t.good.clk_khz ==> {
            &&& t.clocked(target).clk_khz <= 50_000
            &&& target <= 25_000 ==> allowed(t.clocked(target), t.floor)
            &&& allowed(
                (BusState { host_ctl: t.good.host_ctl | HC1_HIGH_SPEED, ..t.clocked(target) }),
                t.floor,
            )
        },
{
    lemma_clock_is_bounded(t.caps.base_khz as int, target, t.caps.v3);
    lemma_clock_fits(t.caps.base_khz as int, target, t.caps.v3);
    lemma_bits(t.good);
}

proof fn lemma_branches_are_sound(t: Talk)
    requires
        sound(t.at(Stage::Finished)),
    ensures
        sound(t.to_high_speed()),
        sound(t.to_full()),
        sound(t.to_clock()),
{
    reveal(Talk::to_full);
    reveal(Talk::to_clock);
    let u = t.at(Stage::Finished);
    lemma_clocked(u, t.ceiling as int);
    if t.ceiling / 2 > 0 {
        lemma_clocked(u, (t.ceiling / 2) as int);
    }
}

proof fn lemma_rung_is_sound(t: Talk, p: Purpose, rung: BusState)
    requires
        sound(t.at(Stage::Finished)),
        allowed(rung, t.floor),
    ensures
        sound((Talk { applied: rung, ..t }).held(p, rung)),
        sound(t.lost(p)),
{
    let u = Talk { applied: rung, good: rung, ..t };
    assert(sound(u.at(Stage::Finished)));
    let v = Talk { clock_raised: true, ..u };
    assert(sound(v.at(Stage::Finished)));
    lemma_branches_are_sound(t);
    lemma_branches_are_sound(u);
    lemma_branches_are_sound(v);
}

proof fn lemma_sent_is_sound(t: Talk, ok: bool)
    requires
        sound(t),
        t.action() is Send,
    ensures
        sound(t.sent(ok)),
{
    lemma_bits(t.good);
    assert(sound(t.at(Stage::Finished)));
    lemma_branches_are_sound(t);
}

proof fn lemma_recovered_is_sound(t: Talk)
    requires
        sound(t),
        t.action() is Reset,
    ensures
        sound(t.recovered()),
{
    match t.stage {
        Stage::Settle(what, second) => {},
        _ => {
            assert(sound(t.at(Stage::Finished)));
            lemma_branches_are_sound(t);
        },
    }
}

proof fn lemma_set_is_sound(t: Talk)
    requires
        sound(t),
        t.action() is Apply,
    ensures
        sound(t.set()),
{
    match t.stage {
        Stage::FallApply(Some(p)) => {
            let u = Talk { applied: t.floor, good: t.floor, ..t };
            assert(sound(u.at(Stage::Finished)));
            lemma_rung_is_sound(u, p, t.floor);
        },
        _ => {},
    }
}

proof fn lemma_heard_is_sound(t: Talk, ok: bool, data: Seq<u8>)
    requires
        sound(t),
        t.action() is ReadSector || t.action() is ReadData,
    ensures
        sound(t.heard(ok, data)),
{
    match t.stage {
        Stage::Read(what, _) => {
            match what {
                Proof::Rung(p, rung) => {
                    let u = Talk { applied: t.good, ..t };
                    assert(sound(u.at(Stage::Finished)));
                    lemma_rung_is_sound(u, p, rung);
                    assert((Talk { applied: rung, ..u }) == t);
                },
                Proof::Restored(p) => {
                    assert(sound(t.at(Stage::Finished)));
                    lemma_rung_is_sound(t, p, t.good);
                },
                _ => {},
            }
        },
        Stage::ScrData => {
            let u = Talk { sd_spec: (data[0] % 16) as u32, ..t };
            assert(sound(u.at(Stage::Finished)));
            lemma_branches_are_sound(u);
        },
        Stage::HsSet => {
            lemma_clocked(t, 50_000);
        },
        _ => {},
    }
}

/// Whatever comes of an action, the negotiation stays sound. So it never sets
/// the bus to a clock that the mode does not allow, and when it ends, the bus is
/// set to a state that is known to work, and that is no slower than the one it
/// began with.
pub proof fn lemma_negotiation_stays_sound(t: Talk, ok: bool, data: Seq<u8>)
    requires
        sound(t),
    ensures
        sound(t.next(ok, data)),
        t.stage == Stage::Finished ==> t.applied == t.good,
{
    match t.action() {
        BusAction::ReadSector(_) => lemma_heard_is_sound(t, ok, data),
        BusAction::Send(_) => lemma_sent_is_sound(t, ok),
        BusAction::ReadData(_, _) => lemma_heard_is_sound(t, ok, data),
        BusAction::Apply(_) => lemma_set_is_sound(t),
        BusAction::Reset => lemma_recovered_is_sound(t),
        BusAction::Finish => {},
    }
}

/// What is known to work changes in two ways only: to a rung on which the first
/// sector was just read as it had been on the slow bus, or back to that bus.
pub proof fn lemma_only_proved_rungs_stay(t: Talk, ok: bool, data: Seq<u8>)
    requires
        sound(t),
        t.next(ok, data).good != t.good,
    ensures
        t.next(ok, data).good == t.floor || (t.stage is Read && ok && data == t.reference && t.next(
            ok,
            data,
        ).good == t.applied),
{
    reveal(Talk::to_full);
    reveal(Talk::to_clock);
}

/// The negotiation writes nothing to the card: a rung that the bus cannot hold
/// spoils no data.
pub proof fn lemma_negotiation_only_reads(t: Talk)
    ensures
        match t.action() {
            BusAction::ReadSector(c) => c.index != CMD_WRITE_BLOCK,
            BusAction::Send(c) => c.index != CMD_WRITE_BLOCK && !c.data,
            BusAction::ReadData(c, _) => c.index != CMD_WRITE_BLOCK,
            _ => true,
        },
{
}

} // verus!
