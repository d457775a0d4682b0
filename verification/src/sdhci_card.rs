//! Finding an SD card: from the reset of the controller to a device that blocks
//! can be read from.
use vstd::prelude::*;
use crate::rpi_mailbox::Board;
use crate::sdhci::{
    ACMD_SD_SEND_OP_COND, BLOCK_SIZE, CMD_ALL_SEND_CID, CMD_APP_CMD, CMD_GO_IDLE_STATE,
    CMD_SELECT_CARD, CMD_SEND_CSD, CMD_SEND_IF_COND, CMD_SEND_RELATIVE_ADDR, CMD_SET_BLOCKLEN,
    Command, HostCaps, Response, SdhciDevice, caps_of, find_f2fs_partition, host_caps, partition_of, tran_speed,
    tran_speed_to_khz,
};
use crate::sdhci_bus::{
    BusAction, BusReply, Negotiation, Stage, Talk, address, lemma_negotiation_ends,
    lemma_negotiation_stays_sound, sound, stage_rank,
};

verus! {

/// How often a card is asked whether it is ready, beyond the first time.
pub const READY_TRIES: u32 = 100_000;

/// How far the search for a card has come.
#[derive(Debug, Clone, Copy, PartialEq, Eq, Structural)]
pub enum CardStage {
    /// Resetting the controller and starting its slowest clock.
    BringUp,
    Idle,
    /// Asking whether the card works at this voltage.
    Voltage,
    /// Asking whether the card is ready, so often already.
    ReadyCommand(u32),
    Ready(u32),
    Identify,
    Address,
    /// Asking how fast the card may be driven.
    Speed,
    SpeedLost,
    Select,
    BlockLen,
    /// Reading what the controller says of itself.
    Host,
    /// Negotiating the bus.
    Bus,
    /// Reading the partition table.
    Partitions,
    /// The search is over.
    Over(Option<SdhciDevice>),
}

/// What to do next.
#[derive(Debug, Clone, Copy, PartialEq, Eq)]
pub enum CardAction {
    /// Reset the controller, start its slowest clock, and switch the power on.
    BringUp,
    /// Send a command, and hand back its response.
    Send(Command),
    /// Reset the command and data circuits.
    Reset,
    /// Read the version and capabilities registers, and hand them back as the
    /// first two words of a response.
    ReadHost,
    /// Do what the negotiation of the bus asks for.
    Bus(BusAction),
    /// Read the first block, and hand back its bytes.
    ReadFirstBlock(SdhciDevice),
    /// Nothing: this is what was found.
    Stop(Option<SdhciDevice>),
}

/// What came of an action.
#[derive(Debug)]
pub struct CardReply {
    /// It succeeded. Of no meaning where nothing can fail.
    pub ok: bool,
    pub response: [u32; 4],
    pub data: Vec<u8>,
}

/// The search as a value.
pub struct Search {
    pub board: Board,
    pub caps: HostCaps,
    pub high_capacity: bool,
    pub rca: u32,
    pub tran_khz: u32,
    /// The negotiation of the bus, once it has begun.
    pub bus: Talk,
    pub stage: CardStage,
}

/// A command without data.
pub open spec fn order(index: u8, arg: u32, resp: Response, crc: bool, idx: bool) -> Command {
    Command { index, arg, resp, data: false, crc_check: crc, idx_check: idx }
}

impl Search {
    pub open spec fn start(board: Board) -> Search {
        let caps = caps_of(0, 0, board);
        Search {
            board,
            caps,
            high_capacity: false,
            rca: 0,
            tran_khz: 0,
            bus: Talk::start(caps, 0, 0),
            stage: CardStage::BringUp,
        }
    }

    pub open spec fn at(self, stage: CardStage) -> Search {
        Search { stage, ..self }
    }

    /// The card, with its file system at the given block.
    pub open spec fn found(self, offset: u64) -> Search {
        let dev = SdhciDevice { high_capacity: self.high_capacity, partition_offset: offset };
        self.at(CardStage::Over(Some(dev)))
    }

    /// No card, or none that can be used.
    pub open spec fn absent(self) -> Search {
        self.at(CardStage::Over(None))
    }

    /// On to the bus, with what the controller says of itself.
    pub open spec fn to_bus(self, version: u32, caps: u32) -> Search {
        let caps = caps_of((version % 65536) as u16, caps, self.board);
        (Search {
            caps,
            bus: Talk::start(caps, self.rca, self.tran_khz),
            ..self
        }).at(CardStage::Bus)
    }

    /// On from the bus: a card in a board of the newer kind carries a partition
    /// table; one in the other starts with its file system.
    pub open spec fn past_bus(self) -> Search {
        match self.board {
            Board::Rpi5 => self.at(CardStage::Partitions),
            Board::Raspi4b => self.found(0),
        }
    }

    /// Bit 31 says that the card is ready, bit 30 that it is addressed by
    /// sectors.
    pub open spec fn asked(self, tries: u32, ocr: u32) -> Search {
        if ocr >= 0x8000_0000 {
            (Search { high_capacity: ocr / 0x4000_0000 % 2 == 1, ..self }).at(CardStage::Identify)
        } else if tries >= READY_TRIES {
            self.absent()
        } else {
            self.at(CardStage::ReadyCommand((tries + 1) as u32))
        }
    }

    /// What follows a command that was answered.
    pub open spec fn answered(self, r: Seq<u32>) -> Search {
        match self.stage {
            CardStage::Idle => self.at(CardStage::Voltage),
            CardStage::Voltage => if r[0] % 256 == 0xAA {
                self.at(CardStage::ReadyCommand(0))
            } else {
                self.absent()
            },
            CardStage::ReadyCommand(n) => self.at(CardStage::Ready(n)),
            CardStage::Ready(n) => self.asked(n, r[0]),
            CardStage::Identify => self.at(CardStage::Address),
            CardStage::Address => (Search { rca: r[0] / 65536, ..self }).at(CardStage::Speed),
            CardStage::Speed => (Search {
                tran_khz: tran_speed((r[2] / 0x100_0000) as u8) as u32,
                ..self
            }).at(CardStage::Select),
            CardStage::Select => if self.high_capacity {
                self.at(CardStage::Host)
            } else {
                self.at(CardStage::BlockLen)
            },
            CardStage::BlockLen => self.at(CardStage::Host),
            _ => self,
        }
    }

    /// What follows a command that was not answered: only the card's speed can
    /// go unanswered.
    pub open spec fn unanswered(self) -> Search {
        if self.stage == CardStage::Speed {
            (Search { tran_khz: 0, ..self }).at(CardStage::SpeedLost)
        } else {
            self.absent()
        }
    }

    /// What the search does next.
    pub open spec fn action(self) -> CardAction {
        let s = Response::Short;
        match self.stage {
            CardStage::BringUp => CardAction::BringUp,
            CardStage::Idle => CardAction::Send(
                order(CMD_GO_IDLE_STATE, 0, Response::Nothing, false, false),
            ),
            CardStage::Voltage => CardAction::Send(order(CMD_SEND_IF_COND, 0x1AA, s, true, true)),
            CardStage::ReadyCommand(_) => CardAction::Send(order(CMD_APP_CMD, 0, s, true, true)),
            CardStage::Ready(_) => CardAction::Send(
                order(ACMD_SD_SEND_OP_COND, 0x40FF_8000, s, false, false),
            ),
            CardStage::Identify => CardAction::Send(
                order(CMD_ALL_SEND_CID, 0, Response::Long, true, false),
            ),
            CardStage::Address => CardAction::Send(
                order(CMD_SEND_RELATIVE_ADDR, 0, s, true, true),
            ),
            CardStage::Speed => CardAction::Send(
                order(CMD_SEND_CSD, address(self.rca), Response::Long, true, false),
            ),
            CardStage::SpeedLost => CardAction::Reset,
            CardStage::Select => CardAction::Send(
                order(CMD_SELECT_CARD, address(self.rca), Response::ShortBusy, true, true),
            ),
            CardStage::BlockLen => CardAction::Send(order(CMD_SET_BLOCKLEN, 512, s, true, true)),
            CardStage::Host => CardAction::ReadHost,
            CardStage::Bus => CardAction::Bus(self.bus.action()),
            CardStage::Partitions => CardAction::ReadFirstBlock(
                SdhciDevice { high_capacity: self.high_capacity, partition_offset: 0 },
            ),
            CardStage::Over(found) => CardAction::Stop(found),
        }
    }

    /// The search after an action, by what came of it.
    pub open spec fn next(self, ok: bool, r: Seq<u32>, data: Seq<u8>) -> Search {
        match self.stage {
            CardStage::BringUp => self.at(CardStage::Idle),
            CardStage::SpeedLost => self.at(CardStage::Select),
            CardStage::Host => self.to_bus(r[0], r[1]),
            CardStage::Bus => {
                let t = Search { bus: self.bus.next(ok, data), ..self };
                if t.bus.stage == Stage::Finished {
                    t.past_bus()
                } else {
                    t
                }
            },
            CardStage::Partitions => if ok && data.len() == BLOCK_SIZE {
                match partition_of(data) {
                    Some(offset) => self.found(offset),
                    None => self.absent(),
                }
            } else {
                self.absent()
            },
            CardStage::Over(_) => self,
            _ => if ok {
                self.answered(r)
            } else {
                self.unanswered()
            },
        }
    }
}

/// A search for a card under way.
#[derive(Debug)]
pub struct CardProbe {
    pub board: Board,
    pub caps: HostCaps,
    pub high_capacity: bool,
    pub rca: u32,
    pub tran_khz: u32,
    pub bus: Negotiation,
    pub stage: CardStage,
}

impl View for CardProbe {
    type V = Search;

    open spec fn view(&self) -> Search {
        Search {
            board: self.board,
            caps: self.caps,
            high_capacity: self.high_capacity,
            rca: self.rca,
            tran_khz: self.tran_khz,
            bus: self.bus@,
            stage: self.stage,
        }
    }
}

fn order_of(index: u8, arg: u32, resp: Response, crc: bool, idx: bool) -> (c: Command)
    ensures
        c == order(index, arg, resp, crc, idx),
{
    Command { index, arg, resp, data: false, crc_check: crc, idx_check: idx }
}

/// Starts the search for a card.
pub fn probe_card(board: Board) -> (p: CardProbe)
    ensures
        p@ == Search::start(board),
{
    let caps = host_caps(0, 0, board);
    CardProbe {
        board,
        caps,
        high_capacity: false,
        rca: 0,
        tran_khz: 0,
        bus: Negotiation::new(caps, 0, 0),
        stage: CardStage::BringUp,
    }
}

impl CardProbe {
    fn found(&mut self, offset: u64)
        ensures
            final(self)@ == old(self)@.found(offset),
    {
        let dev = SdhciDevice { high_capacity: self.high_capacity, partition_offset: offset };
        self.stage = CardStage::Over(Some(dev));
    }

    fn to_bus(&mut self, version: u32, caps: u32)
        ensures
            final(self)@ == old(self)@.to_bus(version, caps),
    {
        self.caps = host_caps((version % 65536) as u16, caps, self.board);
        self.bus = Negotiation::new(self.caps, self.rca, self.tran_khz);
        self.stage = CardStage::Bus;
    }

    fn past_bus(&mut self)
        ensures
            final(self)@ == old(self)@.past_bus(),
    {
        match self.board {
            Board::Rpi5 => {
                self.stage = CardStage::Partitions;
            },
            Board::Raspi4b => self.found(0),
        }
    }

    fn asked(&mut self, tries: u32, ocr: u32)
        ensures
            final(self)@ == old(self)@.asked(tries, ocr),
    {
        if ocr >= 0x8000_0000 {
            self.high_capacity = ocr / 0x4000_0000 % 2 == 1;
            self.stage = CardStage::Identify;
        } else if tries >= READY_TRIES {
            self.stage = CardStage::Over(None);
        } else {
            self.stage = CardStage::ReadyCommand(tries + 1);
        }
    }

    fn answered(&mut self, r: [u32; 4])
        ensures
            final(self)@ == old(self)@.answered(r@),
    {
        match self.stage {
            CardStage::Idle => {
                self.stage = CardStage::Voltage;
            },
            CardStage::Voltage => {
                self.stage = if r[0] % 256 == 0xAA {
                    CardStage::ReadyCommand(0)
                } else {
                    CardStage::Over(None)
                };
            },
            CardStage::ReadyCommand(n) => {
                self.stage = CardStage::Ready(n);
            },
            CardStage::Ready(n) => self.asked(n, r[0]),
            CardStage::Identify => {
                self.stage = CardStage::Address;
            },
            CardStage::Address => {
                self.rca = r[0] / 65536;
                self.stage = CardStage::Speed;
            },
            CardStage::Speed => {
                self.tran_khz = tran_speed_to_khz((r[2] / 0x100_0000) as u8);
                self.stage = CardStage::Select;
            },
            CardStage::Select => {
                self.stage = if self.high_capacity {
                    CardStage::Host
                } else {
                    CardStage::BlockLen
                };
            },
            CardStage::BlockLen => {
                self.stage = CardStage::Host;
            },
            _ => {},
        }
    }

    /// What to do next.
    pub fn action(&self) -> (a: CardAction)
        ensures
            a == self@.action(),
    {
        let s = Response::Short;
        let rca: u32 = (self.rca as u64 * 65536 % 0x1_0000_0000) as u32;
        match self.stage {
            CardStage::BringUp => CardAction::BringUp,
            CardStage::Idle => CardAction::Send(
                order_of(CMD_GO_IDLE_STATE, 0, Response::Nothing, false, false),
            ),
            CardStage::Voltage => CardAction::Send(
                order_of(CMD_SEND_IF_COND, 0x1AA, s, true, true),
            ),
            CardStage::ReadyCommand(_) => CardAction::Send(
                order_of(CMD_APP_CMD, 0, s, true, true),
            ),
            CardStage::Ready(_) => CardAction::Send(
                order_of(ACMD_SD_SEND_OP_COND, 0x40FF_8000, s, false, false),
            ),
            CardStage::Identify => CardAction::Send(
                order_of(CMD_ALL_SEND_CID, 0, Response::Long, true, false),
            ),
            CardStage::Address => CardAction::Send(
                order_of(CMD_SEND_RELATIVE_ADDR, 0, s, true, true),
            ),
            CardStage::Speed => CardAction::Send(
                order_of(CMD_SEND_CSD, rca, Response::Long, true, false),
            ),
            CardStage::SpeedLost => CardAction::Reset,
            CardStage::Select => CardAction::Send(
                order_of(CMD_SELECT_CARD, rca, Response::ShortBusy, true, true),
            ),
            CardStage::BlockLen => CardAction::Send(
                order_of(CMD_SET_BLOCKLEN, 512, s, true, true),
            ),
            CardStage::Host => CardAction::ReadHost,
            CardStage::Bus => CardAction::Bus(self.bus.action()),
            CardStage::Partitions => CardAction::ReadFirstBlock(
                SdhciDevice { high_capacity: self.high_capacity, partition_offset: 0 },
            ),
            CardStage::Over(found) => CardAction::Stop(found),
        }
    }

    /// Takes in what came of the action.
    pub fn advance(&mut self, reply: CardReply)
        ensures
            final(self)@ == old(self)@.next(reply.ok, reply.response@, reply.data@),
    {
        match self.stage {
            CardStage::BringUp => {
                self.stage = CardStage::Idle;
            },
            CardStage::SpeedLost => {
                self.stage = CardStage::Select;
            },
            CardStage::Host => self.to_bus(reply.response[0], reply.response[1]),
            CardStage::Bus => {
                self.bus.advance(BusReply { ok: reply.ok, data: reply.data });
                match self.bus.stage {
                    Stage::Finished => self.past_bus(),
                    _ => {},
                }
            },
            CardStage::Partitions => {
                if reply.ok && reply.data.len() == BLOCK_SIZE {
                    match find_f2fs_partition(reply.data.as_slice()) {
                        Some(offset) => self.found(offset),
                        None => {
                            self.stage = CardStage::Over(None);
                        },
                    }
                } else {
                    self.stage = CardStage::Over(None);
                }
            },
            CardStage::Over(_) => {},
            _ => {
                if reply.ok {
                    self.answered(reply.response);
                } else if matches!(self.stage, CardStage::Speed) {
                    self.tran_khz = 0;
                    self.stage = CardStage::SpeedLost;
                } else {
                    self.stage = CardStage::Over(None);
                }
            },
        }
    }
}

/// A bound on the actions that are still to come.
pub open spec fn search_rank(s: Search) -> int {
    match s.stage {
        CardStage::BringUp => 300_000,
        CardStage::Idle => 290_000,
        CardStage::Voltage => 280_000,
        CardStage::ReadyCommand(n) => if n <= READY_TRIES {
            1000 + 2 * (READY_TRIES - n) + 1
        } else {
            1001
        },
        CardStage::Ready(n) => if n <= READY_TRIES { 1000 + 2 * (READY_TRIES - n) } else { 1000 },
        CardStage::Identify => 999,
        CardStage::Address => 998,
        CardStage::Speed => 997,
        CardStage::SpeedLost => 996,
        CardStage::Select => 995,
        CardStage::BlockLen => 994,
        CardStage::Host => 993,
        CardStage::Bus => 10 + stage_rank(s.bus.stage),
        CardStage::Partitions => 1,
        CardStage::Over(_) => 0,
    }
}

/// What holds of a search at all times: the bus is never finished while it is
/// still negotiated.
pub open spec fn searching(s: Search) -> bool {
    s.stage == CardStage::Bus ==> s.bus.stage != Stage::Finished
}

/// The search ends: whatever comes of an action, fewer are left.
pub proof fn lemma_search_ends(s: Search, ok: bool, r: Seq<u32>, data: Seq<u8>)
    requires
        searching(s),
        !(s.stage is Over),
    ensures
        searching(s.next(ok, r, data)),
        0 <= search_rank(s.next(ok, r, data)) < search_rank(s),
{
    if s.stage == CardStage::Bus {
        lemma_negotiation_ends(s.bus, ok, data);
    }
}

/// From the reset of the controller to a device, the bus is never set to a clock
/// that its mode does not allow.
pub proof fn lemma_search_keeps_the_bus_sound(s: Search, ok: bool, r: Seq<u32>, data: Seq<u8>)
    requires
        0 < s.caps.base_khz <= 255_000,
        sound(s.bus),
    ensures
        sound(s.next(ok, r, data).bus),
        0 < s.next(ok, r, data).caps.base_khz <= 255_000,
{
    lemma_negotiation_stays_sound(s.bus, ok, data);
}

} // verus!
