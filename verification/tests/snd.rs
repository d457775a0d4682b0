use drivers::message::Message;
use drivers::pci::ConfigSpace;
use drivers::snd::{
    accepted_features, features_agreed, parse_caps, queue_layout, CtrlWait, SndRequest, VirtQueue,
    VirtioSnd,
};
use drivers::DriverError;

fn ready() -> VirtioSnd {
    let mut s = VirtioSnd::new();
    for q in 0..4 {
        assert!(s.init_vq(q, 256, q).is_ok());
    }
    s.init_done();
    s
}

#[test]
fn queues_need_a_size() {
    let mut s = VirtioSnd::new();
    assert_eq!(s.init_vq(2, 0, 0), Err(DriverError::Unsupported));
    assert_eq!(s.tx_level(0), 0);
    assert_eq!(s.tx_used_idx(9), 0);
}

#[test]
fn card_without_registers() {
    assert_eq!(VirtioSnd::new().registers_found(), Err(DriverError::NotFound));
    assert_eq!(features_agreed(11), Ok(()));
    assert_eq!(features_agreed(3), Err(DriverError::Unsupported));
    assert_eq!(accepted_features(0xFFFF_FFFF), 1);
}

#[test]
fn layout_of_a_queue() {
    let l = queue_layout(0x10_0000);
    assert_eq!((l.desc, l.avail, l.used), (0x10_0000, 0x10_1000, 0x10_1208));
}

#[test]
fn requests_take_descriptors_in_turn() {
    let mut q = VirtQueue::new(2, 0, 3);
    let mut taken = Vec::new();
    while q.num_free >= 3 {
        let (slot, head) = q.submit();
        taken.push((slot, head));
    }
    assert_eq!(taken.len(), 85);
    assert_eq!(taken[84], (84, 252));
    assert_eq!(q.num_free, 1);
    q.reclaim(10);
    assert_eq!(q.num_free, 31);
    assert_eq!(q.submit(), (85, 255));
    assert_eq!(q.free_head, 2);
}

#[test]
fn commands_that_set_up_a_stream() {
    let mut s = ready();
    let c = s.reconfigure_stream(0, 48000, 2);
    assert_eq!(c.len(), 5);
    assert_eq!(c[0], [0x05, 1, 0, 0, 0, 0, 0, 0]);
    assert_eq!(c[1], [0x03, 1, 0, 0, 0, 0, 0, 0]);
    assert_eq!(
        c[2],
        [
            0x01, 1, 0, 0, 0, 0, 0, 0, 0, 0, 1, 0, 0, 0x10, 0, 0, 0, 0, 0, 0, 2, 5, 7, 0
        ]
    );
    assert_eq!(c[3], [0x02, 1, 0, 0, 0, 0, 0, 0]);
    assert_eq!(c[4], [0x04, 1, 0, 0, 0, 0, 0, 0]);
    assert_eq!((s.last_freq, s.last_channels), (48000, 2));
    assert_eq!(s.recover_stream(), c);
}

#[test]
fn rates_of_streams() {
    let mut s = ready();
    for (freq, code) in [(11025, 2), (22050, 4), (44100, 6), (48000, 7), (8000, 6)] {
        assert_eq!(s.reconfigure_stream(1, freq, 1)[2][22], code);
    }
}

#[test]
fn streams_run_if_all_went_well() {
    let mut s = ready();
    s.stream_configured(0x8000, 0x8000, 0x8000);
    assert!(s.stream_active && s.stream_started);
    s.stream_configured(0x8000, 0x8001, 0x8000);
    assert!(!s.stream_active && !s.stream_started);
}

#[test]
fn sound_is_queued_in_chunks() {
    let mut s = VirtioSnd::new();
    assert!(s.send_pcm_data(0, &[1; 10]).is_none());
    let mut s = ready();
    let b = s.send_pcm_data(0, &[7; 600]).unwrap();
    assert_eq!(b.data, vec![7; 512]);
    assert_eq!((b.slot, b.avail_idx), (0, 1));
    assert_eq!((b.fills[0].index, b.fills[0].len, b.fills[0].flags), (0, 4, 1));
    assert_eq!((b.fills[1].index, b.fills[1].len, b.fills[1].flags), (1, 512, 1));
    assert_eq!((b.fills[2].index, b.fills[2].len, b.fills[2].flags), (2, 8, 2));
    let b = s.send_pcm_data(0, &[1, 2, 3]).unwrap();
    assert_eq!(b.data, [1, 2, 3]);
    assert_eq!(b.fills[0].index, 3);
    assert_eq!(s.tx_level(0), 2);
    assert_eq!(s.tx_level(1), 1);
    assert_eq!(s.tx_count, 2);
}

#[test]
fn a_full_queue_takes_no_more() {
    let mut s = ready();
    let mut n = 0;
    while s.send_pcm_data(0, &[0; 512]).is_some() {
        n += 1;
    }
    assert_eq!(n, 85);
    assert!(s.send_pcm_data(1, &[0; 512]).is_some());
    assert!(s.send_pcm_data(1, &[0; 512]).is_none());
}

#[test]
fn silence_fills_the_queue_to_its_mark() {
    let mut s = ready();
    assert!(s.top_up_silence(0).is_none());
    s.stream_configured(0x8000, 0x8000, 0x8000);
    let mut n = 0;
    while let Some(b) = s.top_up_silence(0) {
        assert_eq!(b.data, vec![0; 512]);
        n += 1;
    }
    assert_eq!(n, 32);
    assert_eq!(s.tx_level(0), 32);
    assert!(s.send_pcm_data(0, &[1]).is_some());
}

#[test]
fn control_commands() {
    let mut s = ready();
    let r = s.send_control_cmd(vec![1, 2, 3, 4, 5, 6, 7, 8]);
    assert_eq!((r.slot, r.avail_idx), (0, 1));
    assert_eq!((r.fills[0].index, r.fills[0].len, r.fills[0].flags), (0, 8, 1));
    assert_eq!((r.fills[1].index, r.fills[1].len, r.fills[1].flags), (1, 4, 2));
    assert_eq!(s.control_step(0, 0), CtrlWait::Again);
    assert_eq!(s.control_step(0, 5_000_000), CtrlWait::TimedOut);
    assert_eq!(s.ctrl.unwrap().num_free, 254);
    assert_eq!(s.control_step(1, 7), CtrlWait::Answered);
    assert_eq!(s.ctrl.unwrap().num_free, 256);
}

#[test]
fn register_blocks() {
    let mut words = [0u32; 64];
    words[13] = 0x40;
    words[16] = 0x0110_5009;
    words[17] = 0x0000_0004;
    words[18] = 0x0000_1000;
    words[19] = 0x0000_0800;
    words[20] = 0x0214_0009;
    words[21] = 0x0000_0004;
    words[22] = 0x0000_3000;
    words[23] = 0x0002_0000;
    words[24] = 4;
    words[9] = 1;
    let blocks = parse_caps(&ConfigSpace { words }, &[0, 0, 0, 0, 0xFE00_000C, 1]);
    assert_eq!(blocks.len(), 2);
    assert_eq!((blocks[0].typ, blocks[0].phys), (1, 0x1_FE00_0000));
    assert_eq!((blocks[0].offset, blocks[0].map_size), (0x1000, 0x10000));
    assert_eq!((blocks[1].typ, blocks[1].map_size), (2, 0x23000));
    assert_eq!(blocks[1].multiplier, 4);
    let mut s = VirtioSnd::new();
    s.place_block(&blocks[0], 0x5000_0000);
    s.place_block(&blocks[1], 0x6000_0000);
    assert_eq!(s.common_cfg, 0x5000_1000);
    assert_eq!(s.registers_found(), Ok(()));
    assert_eq!(s.notify_address(2), 0x6000_3008);
}

#[test]
fn register_blocks_at_the_end_of_the_space() {
    let mut words = [0u32; 64];
    words[13] = 0xF0;
    words[60] = 0x0110_0009;
    words[62] = 0x2000;
    words[63] = 0x100;
    let bars = [0xFE00_0000, 0, 0, 0, 0, 0];
    let blocks = parse_caps(&ConfigSpace { words }, &bars);
    assert_eq!(blocks.len(), 1);
    let b = blocks[0];
    assert_eq!((b.typ, b.phys, b.offset, b.multiplier), (1, 0xFE00_0000, 0x2000, 0));
    let mut s = VirtioSnd::new();
    s.place_block(&b, 0x7000_0000);
    assert_eq!(s.registers_found(), Ok(()));
    words[60] = 0x0210_0009;
    assert!(parse_caps(&ConfigSpace { words }, &bars).is_empty());
}

#[test]
fn devices_that_report_too_much() {
    let mut s = ready();
    assert!(s.send_pcm_data(0, &[1; 512]).is_some());
    assert!(s.send_pcm_data(4, &[1; 512]).is_none());
    let q = s.tx.unwrap();
    assert_eq!((q.last_used_idx, q.num_free, s.tx_level(4)), (4, 265, 65533));
    assert!(s.send_pcm_data(4, &[1; 512]).is_none());
    assert!(s.send_pcm_data(3, &[1; 512]).is_none());
    assert_eq!(s.tx.unwrap(), q);
    let mut c = ready();
    c.send_control_cmd(vec![1, 2, 3, 4]);
    assert_eq!(c.control_step(60_000, 0), CtrlWait::Again);
    assert_eq!(c.ctrl.unwrap().last_used_idx, 0);
    assert_eq!(c.control_step(3, 1), CtrlWait::Answered);
    assert_eq!(c.ctrl.unwrap().num_free, 260);
    let r = c.send_control_cmd(vec![5, 6, 7, 8]);
    assert_eq!((r.slot, r.fills[0].index), (1, 2));
}

#[test]
fn sound_messages() {
    let mut s = ready();
    let mut m = Message::empty();
    m.tag = 0x100;
    m.data[0..4].copy_from_slice(&22050u32.to_le_bytes());
    m.data[4] = 1;
    let (r, reply) = s.handle(0, &m);
    assert!(matches!(r, SndRequest::Configure(c) if c[2][20..23] == [1, 5, 4]));
    assert_eq!(reply.tag, 0);
    m.tag = 0x200;
    m.data[0..2].copy_from_slice(&3u16.to_le_bytes());
    m.data[2..5].copy_from_slice(&[9, 8, 7]);
    assert!(matches!(s.handle(0, &m).0, SndRequest::Play(b) if b.data == [9, 8, 7]));
    m.data[0..2].copy_from_slice(&0u16.to_le_bytes());
    assert!(matches!(s.handle(0, &m).0, SndRequest::Nothing));
    m.tag = 0x1000;
    assert_eq!(s.handle(0, &m).1.tag, 0x1001);
    m.tag = 5;
    assert_eq!(s.handle(0, &m).1.tag, 0);
}
