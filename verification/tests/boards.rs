use drivers::framebuffer::BootFramebuffer;
use drivers::kms::{
    get_kms_mode, init_kms, scanout_backing, DisplayMode, EdidBlock, KmsDriver, KmsPlan,
};
use drivers::message::Message;
use drivers::rpi_mailbox::{
    build_attempt, build_probe, build_release, bus_to_phys, check_reply, deadline_passed,
    doorbell, drain_step, err_code, init_framebuffer, is_our_reply, mbox_base, probe, read_alloc,
    scratch_reservation, start_framebuffer, timeout_ticks, Board, Drain, FbAlloc, FbRequest,
    FbStep, MboxError,
};

fn edid() -> EdidBlock {
    let mut b = [0u8; 128];
    for x in b.iter_mut().take(7).skip(1) {
        *x = 0xFF;
    }
    let d = 54;
    b[d..d + 2].copy_from_slice(&6500u16.to_le_bytes());
    b[d + 2] = 0x00;
    b[d + 3] = 0x40;
    b[d + 4] = 0x41;
    b[d + 5] = 0x00;
    b[d + 6] = 0x26;
    b[d + 7] = 0x30;
    let sum: u32 = b.iter().map(|x| *x as u32).sum();
    b[127] = (256 - sum % 256) as u8;
    EdidBlock { bytes: b }
}

#[test]
fn displays_name_their_mode() {
    let e = edid();
    assert!(e.is_valid());
    let m = e.get_preferred_mode().unwrap();
    assert_eq!((m.width, m.height, m.pixel_clock), (1024, 768, 65_000));
    assert_eq!(m.refresh_rate, 65_000_000 / (1344 * 806));
    let mut broken = e;
    broken.bytes[100] ^= 1;
    assert!(!broken.is_valid());
    broken.bytes[0] = 1;
    assert!(!broken.is_valid());
    let mut none = e;
    none.bytes[54] = 0;
    none.bytes[55] = 0;
    assert_eq!(none.get_preferred_mode(), None);
}

#[test]
fn scanout_is_planned() {
    let mut k = KmsDriver::new();
    let info = Some((0xF000_0000, 1280, 800, 5120));
    let (m, plan) = init_kms(&mut k, None, info, 11);
    assert_eq!(
        m,
        DisplayMode { width: 1024, height: 768, refresh_rate: 60, pixel_clock: 65_000 }
    );
    assert_eq!(plan, KmsPlan::Leave);
    let (m, plan) = init_kms(&mut k, Some(false), info, 11);
    assert_eq!((m.width, m.height), (1280, 800));
    assert_eq!(
        plan,
        KmsPlan::Attach {
            base: 0xF000_0000,
            width: 1280,
            height: 800,
            bytes: 4_096_000,
            order: 10
        }
    );
    assert_eq!(init_kms(&mut k, Some(true), info, 11).1, KmsPlan::Reuse);
    assert_eq!(get_kms_mode(&k).unwrap().width, 1280);
}

#[test]
fn scanout_moves_to_the_new_block() {
    let b = scanout_backing(0x1000, 4096, Some(0x9000));
    assert_eq!((b.base, b.moved), (0x9000, true));
    let b = scanout_backing(0x1000, 4096, None);
    assert_eq!((b.base, b.moved), (0x1000, false));
}

#[test]
fn modes_are_asked_for() {
    let mut k = KmsDriver::new();
    let boot = BootFramebuffer { base: 0x1000, width: 16, height: 16, pitch: 64 };
    k.probe(Some(boot), vec![0; 256], Some(true), 11);
    let mut m = Message::empty();
    m.tag = 2;
    let r = k.handle(&m);
    assert_eq!(r.data[0..4], 16u32.to_le_bytes());
    assert_eq!(r.data[8..12], 60u32.to_le_bytes());
}

#[test]
fn mailboxes_of_both_boards() {
    assert_eq!(mbox_base(Board::Rpi5), 0x10_7C01_3880);
    assert_eq!(mbox_base(Board::Raspi4b), 0xFE00_B880);
    assert_eq!(scratch_reservation(Board::Rpi5), None);
    assert!(scratch_reservation(Board::Raspi4b).is_some());
}

#[test]
fn doorbells() {
    assert_eq!(doorbell(26, 0x1000), Ok(0xC000_1008));
    assert_eq!(doorbell(65, 0x1000), Err(MboxError::TooLong));
    assert_eq!(doorbell(1, 0x1004), Err(MboxError::BufOutOfRange(0x1004)));
    assert_eq!(doorbell(1, 0x4000_0000), Err(MboxError::BufOutOfRange(0x4000_0000)));
    assert!(is_our_reply(0xC000_1008) && !is_our_reply(0xC000_1001));
}

#[test]
fn deadlines_survive_a_wrap() {
    assert!(!deadline_passed(u64::MAX, 5));
    assert!(deadline_passed(5, 5));
    assert!(deadline_passed(3, u64::MAX));
    assert_eq!(timeout_ticks(0), 200_000_000);
    assert_eq!(timeout_ticks(54_000_000), 108_000_000);
    assert_eq!(drain_step(9, 5, 0), Drain::TimedOut);
    assert_eq!(drain_step(1, 5, 0x4000_0000), Drain::Wait);
    assert_eq!(drain_step(1, 5, 0), Drain::Read);
}

#[test]
fn messages_end_with_zero() {
    for m in [build_probe(), build_attempt(640, 480, 960), build_release()] {
        assert_eq!(m[0] as usize, m.len() * 4);
        assert_eq!(m[m.len() - 1], 0);
    }
    let a = build_attempt(640, 480, 960);
    assert_eq!((a[5], a[6], a[10], a[11]), (640, 480, 640, 960));
    assert_eq!(check_reply(&vec![8, 0x8000_0000]), Ok(()));
    assert_eq!(check_reply(&vec![8, 0x8000_0001]), Err(MboxError::BadCode(0x8000_0001)));
}

#[test]
fn addresses_on_the_bus() {
    let vc = (0x3C00_0000, 0x0400_0000);
    assert_eq!(bus_to_phys(0xFC00_1000, vc), (0x3C00_1000, true, true));
    assert_eq!(bus_to_phys(0xC000_1000, vc), (0x1000, true, false));
    assert_eq!(bus_to_phys(0x7C00_0000, (0x7C00_0000, 0x1000)), (0x7C00_0000, false, true));
}

fn reply(w: u32, h: u32, vh: u32, bus: u32, size: u32, pitch: u32) -> Vec<u32> {
    let mut r = build_attempt(w, h, vh);
    r[1] = 0x8000_0000;
    r[28] = bus;
    r[29] = size;
    r[33] = pitch;
    r
}

#[test]
fn framebuffers_are_cut_to_their_size() {
    let vc = (0, 0);
    let a = read_alloc(&reply(640, 480, 960, 0xC100_0000, 2560 * 700, 2560), vc).unwrap();
    assert_eq!(
        a,
        FbAlloc {
            phys: 0x0100_0000,
            bus: 0xC100_0000,
            size: 2560 * 700,
            width: 640,
            height: 480,
            virt_height: 700,
            pitch: 2560,
            depth: 32
        }
    );
    assert_eq!(a.reserve_len(), 2560 * 700);
    assert_eq!(
        read_alloc(&reply(640, 480, 480, 0, 1, 2560), vc),
        Err(MboxError::NoDisplay)
    );
    assert_eq!(
        read_alloc(&reply(640, 480, 480, 1, 9_999_999, 2559), vc),
        Err(MboxError::TagFailed(0x0004_0008))
    );
    assert_eq!(
        read_alloc(&reply(640, 480, 480, 1, 10, 2560), vc),
        Err(MboxError::TagFailed(0x0004_0001))
    );
    let mut shallow = reply(640, 480, 480, 1, 9_999_999, 2560);
    shallow[20] = 16;
    assert_eq!(read_alloc(&shallow, vc), Err(MboxError::TagFailed(0x0004_8005)));
}

#[test]
fn framebuffers_are_asked_for_in_steps() {
    let (state, m) = match start_framebuffer() {
        FbStep::Send(s, m) => (s, m),
        FbStep::Stop(_) => panic!(),
    };
    assert_eq!(m, build_probe());
    let mut p = build_probe();
    p[23] = 800;
    p[24] = 600;
    assert_eq!(probe(&p).width, 800);
    let (state, m) = match init_framebuffer(state, Ok(p), 1, 1) {
        FbStep::Send(s, m) => (s, m),
        FbStep::Stop(_) => panic!(),
    };
    assert_eq!(m, build_attempt(800, 600, 1200));
    let (state, m) = match init_framebuffer(state, Err(MboxError::Timeout), 1, 1) {
        FbStep::Send(s, m) => (s, m),
        FbStep::Stop(_) => panic!(),
    };
    assert_eq!(m, build_release());
    let (state, m) = match init_framebuffer(state, Err(MboxError::Timeout), 1, 1) {
        FbStep::Send(s, m) => (s, m),
        FbStep::Stop(_) => panic!(),
    };
    assert!(matches!(state, FbRequest::Plain { .. }));
    assert_eq!(m, build_attempt(800, 600, 600));
    let end = init_framebuffer(state, Err(MboxError::Timeout), 1, 1);
    assert!(matches!(end, FbStep::Stop(Err(MboxError::Timeout))));
}

#[test]
fn errors_have_codes() {
    assert_eq!(err_code(MboxError::Timeout), 0xE000_0001);
    assert_eq!(err_code(MboxError::BadCode(0x8000_0001)), 0x8000_0001);
    assert_eq!(err_code(MboxError::TagFailed(0x0004_0008)), 0x0004_0008);
    assert_eq!(err_code(MboxError::BufOutOfRange(7)), 0xE000_0002);
    assert_eq!(err_code(MboxError::NoDisplay), 0xE000_0003);
    assert_eq!(err_code(MboxError::TooLong), 0xE000_0004);
}
