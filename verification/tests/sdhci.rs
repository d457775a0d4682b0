use drivers::rpi_mailbox::Board;
use drivers::sdhci::{
    buffer_ready, clock_divider, clock_started, clock_stopped, device_count, find_f2fs_partition,
    flush, has_f2fs, host_caps, info, init, is_transfer_len, latched, no_devices, read_block,
    read_blocks, sdhci_base, tran_speed_to_khz, transfer_mode, wait_step, write_block, BusState,
    Command, HostCaps, Response, SdhciDevice, Wait,
};
use drivers::sdhci_bus::{BusAction, BusReply, Negotiation, Stage};
use drivers::sdhci_card::{probe_card, CardAction, CardReply};

fn plain(index: u8, arg: u32, data: bool) -> Command {
    Command { index, arg, resp: Response::Short, data, crc_check: true, idx_check: true }
}

#[test]
fn controllers_of_both_boards() {
    assert_eq!(sdhci_base(Board::Rpi5), 0x10_00FF_F000);
    assert_eq!(sdhci_base(Board::Raspi4b), 0xFE30_0000);
}

#[test]
fn command_words() {
    assert_eq!(plain(17, 0, true).command_word(), 0x113A);
    let idle = Command {
        index: 0,
        arg: 0,
        resp: Response::Nothing,
        data: false,
        crc_check: false,
        idx_check: false,
    };
    assert_eq!(idle.command_word(), 0);
    let select = Command { resp: Response::ShortBusy, ..plain(7, 0, false) };
    assert_eq!(select.command_word(), 0x071B);
    assert_eq!(select.inhibit_mask(), 3);
    assert_eq!(plain(55, 0, false).inhibit_mask(), 1);
    assert_ne!(plain(17, 0, true).command_word(), plain(24, 0, true).command_word());
}

#[test]
fn waits_come_to_an_end() {
    assert_eq!(wait_step(0x8001, 1, 0), Wait::Error);
    assert_eq!(wait_step(0x0001, 1, 20_000_000), Wait::Ready);
    assert_eq!(wait_step(0x0002, 1, 19_999_999), Wait::Again);
    assert_eq!(wait_step(0x0002, 1, 20_000_000), Wait::TimedOut);
    assert_eq!(latched(0x8001, 0x0010), 0x8001_0010);
}

#[test]
fn registers_of_a_bus_state() {
    let s = BusState { host_ctl: 6, clk_sel: 0x0100, clk_khz: 26_000 };
    assert_eq!(s.host_control(0x81), 0x87);
    assert_eq!(s.clock_word(), 0x0101);
    assert_eq!(clock_stopped(0x0107), 0x0103);
    assert_eq!(clock_started(0x0103), 0x0107);
    assert_eq!(transfer_mode(true), 2);
    assert_eq!(transfer_mode(false), 18);
    assert_eq!(buffer_ready(true), 16);
    assert_eq!(buffer_ready(false), 32);
}

#[test]
fn lengths_of_data_answers() {
    assert!(is_transfer_len(8));
    assert!(is_transfer_len(64));
    assert!(!is_transfer_len(0));
    assert!(!is_transfer_len(6));
}

#[test]
fn ten_bit_divider() {
    assert_eq!(clock_divider(52_000, 25_000, true), (0x0200, 13_000));
    assert_eq!(clock_divider(50_000, 25_000, true), (0x0100, 25_000));
    assert_eq!(clock_divider(25_000, 25_000, true), (0x0000, 25_000));
    assert_eq!(clock_divider(200_000, 50_000, true), (0x0200, 50_000));
    assert_eq!(clock_divider(200_000, 400, true), (0xFA00, 400));
    assert_eq!(clock_divider(200_000, 200, true), (0xF440, 200));
    assert_eq!(clock_divider(200_000, 1, true), (0xFFC0, 97));
}

#[test]
fn eight_bit_divider() {
    assert_eq!(clock_divider(50_000, 25_000, false), (0x0100, 25_000));
    assert_eq!(clock_divider(50_000, 12_000, false), (0x0400, 6_250));
    assert_eq!(clock_divider(63_000, 1, false), (0x8000, 246));
}

#[test]
fn divider_without_anything_to_go_on() {
    assert_eq!(clock_divider(0, 25_000, true), (0xFF00, 0));
    assert_eq!(clock_divider(50_000, 0, false), (0xFF00, 0));
}

#[test]
fn no_faster_setting_is_slow_enough() {
    let (sel, khz) = clock_divider(208_000, 25_000, true);
    let n = u32::from(sel >> 8);
    assert_eq!(khz, 208_000 / (2 * n));
    assert!(khz <= 25_000);
    assert!(208_000 > 25_000 * 2 * (n - 1));
}

#[test]
fn speeds_of_cards() {
    assert_eq!(tran_speed_to_khz(0x32), 25_000);
    assert_eq!(tran_speed_to_khz(0x5A), 50_000);
    assert_eq!(tran_speed_to_khz(0x2B), 200_000);
    assert_eq!(tran_speed_to_khz(0x02), 0);
    assert_eq!(tran_speed_to_khz(0x0C), 0);
}

#[test]
fn capabilities_of_controllers() {
    assert_eq!(
        host_caps(0x2402, 0x0521_34B4, Board::Raspi4b),
        HostCaps { v3: true, base_khz: 52_000 }
    );
    assert_eq!(
        host_caps(0x0001, 0x0000_FF00, Board::Rpi5),
        HostCaps { v3: false, base_khz: 63_000 }
    );
    assert_eq!(host_caps(2, 0, Board::Rpi5), HostCaps { v3: true, base_khz: 54_000 });
    assert_eq!(host_caps(2, 0, Board::Raspi4b), HostCaps { v3: true, base_khz: 50_000 });
}

#[test]
fn devices_start_at_one() {
    let mut devs = no_devices();
    assert_eq!(device_count(&devs), 0);
    assert!(!flush(&devs, 1));
    init(&mut devs, Some(SdhciDevice { high_capacity: true, partition_offset: 0 }));
    assert_eq!(device_count(&devs), 2);
    assert!(flush(&devs, 1));
    assert!(!flush(&devs, 0));
    init(&mut devs, None);
    assert_eq!(device_count(&devs), 0);
}

#[test]
fn transfers_of_blocks() {
    let mut devs = no_devices();
    init(&mut devs, Some(SdhciDevice { high_capacity: true, partition_offset: 100 }));
    assert!(read_block(&devs, 0, 5).is_none());
    let r = read_block(&devs, 1, 5).unwrap();
    assert_eq!(r.len(), 8);
    assert_eq!((r[0].sector, r[0].at, r[0].command.arg, r[0].command.index), (840, 0, 840, 17));
    assert_eq!((r[7].sector, r[7].at), (847, 3584));
    let w = write_block(&devs, 1, 5).unwrap();
    for i in 0..8 {
        assert_eq!(w[i].sector, r[i].sector);
        assert_eq!(w[i].at, r[i].at);
        assert_eq!(w[i].command.arg, r[i].command.arg);
        assert_eq!(w[i].command.index, 24);
    }
}

#[test]
fn transfers_of_small_cards_are_in_bytes() {
    let mut devs = no_devices();
    init(&mut devs, Some(SdhciDevice { high_capacity: false, partition_offset: 0 }));
    let r = read_block(&devs, 1, 1).unwrap();
    assert_eq!(r[1].sector, 9);
    assert_eq!(r[1].command.arg, 9 * 512);
}

#[test]
fn transfers_of_many_blocks() {
    let mut devs = no_devices();
    init(&mut devs, Some(SdhciDevice { high_capacity: true, partition_offset: 0 }));
    assert!(read_blocks(&devs, 1, 0, 0).is_none());
    assert!(read_blocks(&devs, 1, 0, 4095).is_none());
    let r = read_blocks(&devs, 1, 2, 8192).unwrap();
    assert_eq!(r.len(), 16);
    for (i, q) in r.iter().enumerate() {
        assert_eq!(q.sector, 16 + i as u64);
        assert_eq!(q.at, i * 512);
    }
}

fn mbr(entries: &[(usize, u8, u32)]) -> Vec<u8> {
    let mut b = vec![0u8; 4096];
    b[510] = 0x55;
    b[511] = 0xAA;
    for (i, kind, lba) in entries {
        b[446 + i * 16 + 4] = *kind;
        b[446 + i * 16 + 8..446 + i * 16 + 12].copy_from_slice(&lba.to_le_bytes());
    }
    b
}

#[test]
fn partitions() {
    assert_eq!(find_f2fs_partition(&mbr(&[(0, 0x0C, 2048), (1, 0x83, 524_288)])), Some(65_536));
    assert_eq!(find_f2fs_partition(&mbr(&[(1, 0x83, 800), (2, 0x83, 1600)])), Some(100));
    assert_eq!(find_f2fs_partition(&mbr(&[(0, 0x0C, 2048)])), None);
    let mut b = mbr(&[(0, 0x83, 8)]);
    b[511] = 0;
    assert_eq!(find_f2fs_partition(&b), None);
}

#[test]
fn file_systems() {
    let mut b = vec![0u8; 4096];
    assert!(!has_f2fs(Some(&b)));
    assert!(!has_f2fs(None));
    b[1024..1028].copy_from_slice(&0xF2F5_2010u32.to_le_bytes());
    assert!(has_f2fs(Some(&b)));
    let mut devs = no_devices();
    init(&mut devs, Some(SdhciDevice { high_capacity: true, partition_offset: 0 }));
    let i = info(&devs, 1, Some(&b)).unwrap();
    assert_eq!((i.total_blocks, i.block_size, i.fstype), (0, 4096, Some("f2fs")));
    assert_eq!(info(&devs, 1, None).unwrap().fstype, None);
    assert_eq!(info(&devs, 0, None), None);
    assert_eq!(info(&devs, 8, None), None);
}

/// A card and its controller, as a negotiation sees them.
struct Bench {
    /// The fastest clock at which reads are right.
    limit_khz: u32,
    /// Whether reads are right with four data lines.
    four_lines: bool,
    scr: Option<[u8; 8]>,
    high_speed: bool,
    bus: BusState,
    written: bool,
}

impl Bench {
    fn answer(&mut self, a: BusAction) -> BusReply {
        match a {
            BusAction::ReadSector(c) => {
                self.written |= c.index == 24;
                let wide = self.bus.host_ctl & 2 != 0;
                let good = self.bus.clk_khz <= self.limit_khz && (self.four_lines || !wide);
                BusReply { ok: true, data: vec![if good { 7 } else { 8 }; 512] }
            }
            BusAction::Send(c) => {
                self.written |= c.index == 24;
                BusReply { ok: true, data: vec![] }
            }
            BusAction::ReadData(c, len) => match (c.index, self.scr) {
                (51, Some(scr)) => BusReply { ok: true, data: scr.to_vec() },
                (51, None) => BusReply { ok: false, data: vec![] },
                _ => {
                    let mut d = vec![0u8; len];
                    if self.high_speed {
                        d[13] = 2;
                        d[16] = 1;
                    }
                    BusReply { ok: true, data: d }
                }
            },
            BusAction::Apply(s) => {
                self.bus = s;
                BusReply { ok: true, data: vec![] }
            }
            _ => BusReply { ok: true, data: vec![] },
        }
    }

    fn run(&mut self, caps: HostCaps, tran: u32) -> Negotiation {
        let mut n = Negotiation::new(caps, 0x1234, tran);
        let mut steps = 0;
        while n.action() != BusAction::Finish {
            let r = self.answer(n.action());
            n.advance(r);
            steps += 1;
            assert!(steps <= 140);
        }
        assert!(!self.written);
        n
    }
}

fn bench(limit_khz: u32) -> Bench {
    Bench {
        limit_khz,
        four_lines: true,
        scr: Some([2, 5, 0, 0, 0, 0, 0, 0]),
        high_speed: true,
        bus: BusState { host_ctl: 0, clk_sel: 0xFF00, clk_khz: 392 },
        written: false,
    }
}

const CAPS: HostCaps = HostCaps { v3: true, base_khz: 200_000 };

#[test]
fn negotiation_reaches_high_speed() {
    let mut b = bench(50_000);
    let n = b.run(CAPS, 25_000);
    assert_eq!(n.good, BusState { host_ctl: 6, clk_sel: 0x0200, clk_khz: 50_000 });
    assert_eq!(b.bus, n.good);
}

#[test]
fn negotiation_stops_where_the_bus_gives_out() {
    let mut b = bench(25_000);
    let n = b.run(CAPS, 25_000);
    assert_eq!(n.good, BusState { host_ctl: 2, clk_sel: 0x0400, clk_khz: 25_000 });
    assert_eq!(b.bus, n.good);
    let mut b = bench(13_000);
    let n = b.run(CAPS, 25_000);
    assert_eq!((n.good.host_ctl, n.good.clk_khz), (2, 12_500));
}

#[test]
fn negotiation_falls_to_the_floor() {
    let mut b = bench(1_000);
    b.four_lines = false;
    let n = b.run(CAPS, 25_000);
    assert_eq!(n.good, n.floor);
    assert_eq!(n.good.clk_khz, 392);
    assert_eq!(b.bus, n.good);
}

#[test]
fn negotiation_keeps_one_line_without_a_register() {
    let mut b = bench(50_000);
    b.scr = None;
    let n = b.run(CAPS, 0);
    assert_eq!(n.good, BusState { host_ctl: 0, clk_sel: 0x0400, clk_khz: 25_000 });
}

#[test]
fn negotiation_needs_a_reference() {
    let mut n = Negotiation::new(CAPS, 1, 25_000);
    n.advance(BusReply { ok: false, data: vec![] });
    assert_eq!(n.action(), BusAction::Reset);
    n.advance(BusReply { ok: true, data: vec![] });
    assert_eq!(n.stage, Stage::Finished);
    assert_eq!(n.good, n.floor);
}

#[test]
fn negotiation_names_the_card() {
    let mut n = Negotiation::new(CAPS, 0x1234, 25_000);
    assert_eq!(n.action(), BusAction::ReadSector(plain(17, 0, true)));
    n.advance(BusReply { ok: true, data: vec![1; 512] });
    assert_eq!(n.action(), BusAction::Send(plain(55, 0x1234_0000, false)));
}

fn card_reply(a: CardAction, b: &mut Bench, table: &[u8]) -> CardReply {
    let mut r = CardReply { ok: true, response: [0; 4], data: vec![] };
    match a {
        CardAction::Send(c) => {
            r.response[0] = match c.index {
                8 => 0x1AA,
                41 => 0xC0FF_8000,
                3 => 0xB368_0000,
                _ => 0,
            };
            if c.index == 9 {
                r.response[2] = 0x3200_0000;
            }
        }
        CardAction::Bus(a) => {
            let x = b.answer(a);
            r.ok = x.ok;
            r.data = x.data;
        }
        CardAction::ReadHost => {
            r.response[0] = 0x2402;
            r.response[1] = 0x0521_34B4;
        }
        CardAction::ReadFirstBlock(_) => r.data = table.to_vec(),
        _ => {}
    }
    r
}

fn search(board: Board, table: &[u8]) -> Option<SdhciDevice> {
    let mut b = bench(50_000);
    let mut p = probe_card(board);
    loop {
        let a = p.action();
        if let CardAction::Stop(found) = a {
            return found;
        }
        let r = card_reply(a, &mut b, table);
        p.advance(r);
        if a == CardAction::ReadHost {
            assert_eq!(p.caps, HostCaps { v3: true, base_khz: 52_000 });
        }
    }
}

#[test]
fn search_finds_a_card() {
    let table = mbr(&[(1, 0x83, 800)]);
    assert_eq!(
        search(Board::Rpi5, &table),
        Some(SdhciDevice { high_capacity: true, partition_offset: 100 })
    );
    assert_eq!(
        search(Board::Raspi4b, &table),
        Some(SdhciDevice { high_capacity: true, partition_offset: 0 })
    );
    assert_eq!(search(Board::Rpi5, &mbr(&[])), None);
}

#[test]
fn search_ends_without_a_card() {
    let mut p = probe_card(Board::Rpi5);
    p.advance(CardReply { ok: true, response: [0; 4], data: vec![] });
    p.advance(CardReply { ok: true, response: [0; 4], data: vec![] });
    p.advance(CardReply { ok: false, response: [0; 4], data: vec![] });
    assert_eq!(p.action(), CardAction::Stop(None));
}

#[test]
fn search_gives_up_on_a_card_that_never_wakes() {
    let mut p = probe_card(Board::Rpi5);
    let mut asked = 0;
    loop {
        let mut r = CardReply { ok: true, response: [0; 4], data: vec![] };
        match p.action() {
            CardAction::Stop(found) => {
                assert_eq!(found, None);
                break;
            }
            CardAction::Send(c) => {
                if c.index == 8 {
                    r.response[0] = 0xAA;
                }
                if c.index == 41 {
                    asked += 1;
                }
            }
            _ => {}
        }
        p.advance(r);
    }
    assert_eq!(asked, 100_001);
}
