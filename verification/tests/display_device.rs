use drivers::atomic::{
    atomic_head, atomic_presented, atomic_total, commit_cursor_plane, cursor_upload_bytes,
    cursor_uploaded, std_handle_atomic, AtomicHead, AtomicPlaneReq, CursorAction, PipeState,
    Present,
};
use drivers::bo::BoRegistry;
use drivers::console::{drm_scanout_release, scanout_owner, KernelConsole};
use drivers::drm::device::{init_drm, DrmDevice, FramebufferInfo, HardwareFb};
use drivers::drm::objects::{DrmObjectId, IdCounter};
use drivers::drm_device_interface::{
    atomic_client, handle_create_framebuffer, handle_fbioget_vscreeninfo, handle_flip_page,
    handle_get_capabilities, handle_get_mode_safe, handle_ioctl_mmap, handle_set_mode,
    handle_set_plane, plan_dumb, reply_of, request_done, request_of, std_handle_addfb, std_handle_addfb2,
    std_handle_dirtyfb, std_handle_get_cap, std_handle_get_connector, std_handle_get_crtc,
    std_handle_get_encoder, std_handle_get_resources, std_handle_map_dumb, std_handle_page_flip,
    std_handle_rmfb, std_handle_set_crtc, std_handle_version, transfer_result, CallerArray,
    DrmDeviceInterface, DrmDumbBuffer, FbRequest, PageFlip, SetCrtc, TextBuffer,
};
use drivers::drm_ioctl::{ioctl_parts, Ioctl, IoctlParts};
use drivers::flip_events::FlipQueue;
use drivers::kms_props::{
    current_prop_value, fill_array, object_props, prop_def, prop_flags, prop_value_count,
    prop_values, std_handle_get_plane, std_handle_get_plane_resources, std_handle_get_property,
    std_handle_obj_get_properties, PropKind,
};
use drivers::message::Message;
use drivers::prop_blobs::{blob_request_ok, damage_area, Clip, PropBlobs};
use drivers::DriverError;

const INFO: FramebufferInfo = FramebufferInfo { width: 1280, height: 800, pitch: 5120 };
const HW: Option<HardwareFb> =
    Some(HardwareFb { base: 0xF000_0000, width: 1280, height: 800, pitch: 5120 });

fn device(ids: &mut IdCounter) -> DrmDevice {
    let mut d = init_drm(ids, true);
    assert!(d.enable_fb_integration().is_ok());
    d
}

#[test]
fn requests_by_number() {
    assert_eq!(Ioctl::of(0x1004), Some(Ioctl::FlipPage));
    assert_eq!(Ioctl::of(0xC018_64B0), Some(Ioctl::PageFlip));
    assert_eq!(Ioctl::of(0xC040_6442), Some(Ioctl::GpuExecbuffer));
    assert_eq!(Ioctl::of(0xC040_6402), None);
    assert_eq!(
        ioctl_parts(0xC018_6449),
        IoctlParts { dir: 3, size: 24, typ: 0x64, nr: 0x49 }
    );
    assert!(!Ioctl::SetMaster.needs_argument());
    assert!(Ioctl::GetCap.needs_argument());
}

#[test]
fn requests_are_routed() {
    let mut i = DrmDeviceInterface::new();
    let mut c = KernelConsole::new();
    let before = c.enabled;
    assert_eq!(i.handle_ioctl(&mut c, 0xC010_640C, 8, 7).result, Ok(Some(Ioctl::GetCap)));
    assert_eq!(c.enabled, before);
    assert_eq!(
        i.handle_ioctl(&mut c, 0xC010_640C, 0, 7).result,
        Err(DriverError::InvalidParameter)
    );
    assert_eq!(i.handle_ioctl(&mut c, 0x641E, 0, 7).result, Ok(None));
    assert_eq!(
        i.handle_ioctl(&mut c, 0xC00C_642D, 8, 7).result,
        Err(DriverError::Unsupported)
    );
    let r = i.handle_ioctl(&mut c, 0xC008_6499, 8, 7);
    assert_eq!(r.result, Err(DriverError::Unsupported));
    assert_eq!(r.report, Some(IoctlParts { dir: 3, size: 8, typ: 0x64, nr: 0x99 }));
    assert_eq!(i.handle_ioctl(&mut c, 0xC008_6499, 8, 7).report, None);
}

#[test]
fn clients_silence_the_console() {
    let mut i = DrmDeviceInterface::new();
    for cmd in [0x1001, 0x1004, 0xC068_64A2, 0xC018_64B0] {
        let mut c = KernelConsole::new();
        i.handle_ioctl(&mut c, cmd, 0, 7);
        assert!(!c.enabled);
        assert_eq!(scanout_owner(&c), 0);
        i.release(&mut c);
        assert!(c.enabled);
        assert_eq!(scanout_owner(&c), 0);
    }
}

#[test]
fn refused_requests_leave_the_scanout() {
    let mut i = DrmDeviceInterface::new();
    let mut c = KernelConsole::new();
    assert!(i.handle_ioctl(&mut c, 0xC018_64B0, 8, 3).result.is_ok());
    request_done(&mut c, 3, true);
    assert_eq!((scanout_owner(&c), c.enabled), (3, false));
    assert_eq!(
        i.handle_ioctl(&mut c, 0xC018_64B0, 0, 7).result,
        Err(DriverError::InvalidParameter)
    );
    request_done(&mut c, 7, false);
    drm_scanout_release(&mut c, 7);
    assert_eq!((scanout_owner(&c), c.enabled), (3, false));
    i.release(&mut c);
    assert_eq!((scanout_owner(&c), c.enabled), (3, true));
    drm_scanout_release(&mut c, 3);
    assert_eq!((scanout_owner(&c), c.enabled), (0, true));
}

#[test]
fn whoever_presents_scans_out() {
    let mut i = DrmDeviceInterface::new();
    let mut c = KernelConsole::new();
    i.handle_ioctl(&mut c, 0xC038_64BC, 8, 7);
    assert!(c.enabled);
    request_done(&mut c, 7, false);
    assert!(c.enabled);
    request_done(&mut c, 7, true);
    assert!(!c.enabled);
    drm_scanout_release(&mut c, 8);
    assert!(!c.enabled);
    drm_scanout_release(&mut c, 7);
    assert!(c.enabled);
    request_done(&mut c, 0, true);
    assert_eq!(scanout_owner(&c), u32::MAX);
}

#[test]
fn mode_that_is_reported() {
    let mut ids = IdCounter::new();
    let mut d = device(&mut ids);
    assert_eq!(handle_get_mode_safe(&d, INFO), (1280, 800, 60));
    let none = FramebufferInfo { width: 0, height: 0, pitch: 0 };
    assert_eq!(handle_get_mode_safe(&d, none), (640, 480, 60));
    handle_set_mode(&mut d, [1024, 768, 75], HW);
    assert_eq!(handle_get_mode_safe(&d, INFO), (1024, 768, 75));
}

#[test]
fn capabilities_both_ways() {
    let own: Vec<u32> = (0..11).map(handle_get_capabilities).collect();
    assert_eq!(own, [0, 1, 1, 0, 0, 0, 0, 1, 64, 64, 0]);
    for (cap, value) in
        [(1, 1), (5, 3), (6, 1), (7, 0), (8, 64), (9, 64), (0x10, 0), (0x12, 1), (0x99, 0)]
    {
        assert_eq!(std_handle_get_cap(cap), value);
    }
    let mut i = DrmDeviceInterface::new();
    assert!(!atomic_client(&i));
    assert_eq!(i.std_handle_set_client_cap(2, 1), Ok(0));
    assert!(!atomic_client(&i));
    assert_eq!(i.std_handle_set_client_cap(3, 1), Ok(0));
    assert!(atomic_client(&i));
    assert_eq!(i.std_handle_get_magic(), 1);
}

#[test]
fn version_texts() {
    let some = TextBuffer { ptr: 0x1000, room: 13 };
    let v = std_handle_version(some, TextBuffer { ptr: 0, room: 99 }, some);
    assert_eq!((v.major, v.minor, v.patchlevel), (1, 6, 0));
    assert_eq!((v.name.text, v.name.len, v.name.fill), ("leandros-drm\0", 13, true));
    assert_eq!((v.date.text, v.date.len, v.date.fill), ("20261201\0", 9, false));
    assert_eq!((v.desc.len, v.desc.fill), (20, false));
}

#[test]
fn objects_of_the_card() {
    let one = CallerArray { ptr: 8, room: 1 };
    let no = CallerArray { ptr: 0, room: 1 };
    let r = std_handle_get_resources(one, no, CallerArray { ptr: 8, room: 0 });
    assert!(r.fill_crtcs && !r.fill_connectors && !r.fill_encoders);
    assert_eq!((r.id, r.count, r.min_width, r.max_height), (1, 1, 320, 4096));
    assert_eq!(std_handle_get_encoder(), (1, 3, 1, 1));
    let c = std_handle_get_connector(one, no, INFO);
    assert!(c.fill_encoders && c.mode.is_none());
    assert_eq!((c.connector_type, c.connection, c.count_modes), (11, 1, 1));
    let m = std_handle_get_connector(one, one, INFO).mode.unwrap();
    assert_eq!((m.hdisplay, m.hsync_start, m.hsync_end, m.htotal), (1280, 1328, 1360, 1440));
    assert_eq!((m.vdisplay, m.vsync_start, m.vsync_end, m.vtotal), (800, 803, 809, 840));
    assert_eq!((m.clock, m.vrefresh), (72_576, 60));
    assert_eq!((m.hskew, m.vscan, m.flags, m.type_), (0, 0, 0, 0));
    assert_eq!(m.name[..7], *b"Native\0");
    assert!(m.name[7..].iter().all(|b| *b == 0));
}

#[test]
fn dumb_buffers() {
    let mut bos = BoRegistry::new();
    let p = plan_dumb(640, 480, 32);
    assert_eq!((p.pitch, p.size, p.order), (2560, 1_228_800, 9));
    assert_eq!(plan_dumb(3, 1, 12).pitch, 6);
    assert_eq!(
        DrmDumbBuffer::create(&mut bos, 640, 480, 32, p, None),
        Err(DriverError::Io)
    );
    let b = DrmDumbBuffer::create(&mut bos, 640, 480, 32, p, Some(0x80_0000)).unwrap();
    assert_eq!((b.pitch, b.size, b.mmap_offset), (2560, 1_228_800, 0x80_0000));
    assert_eq!(std_handle_map_dumb(&bos, b.handle), Ok(0x80_0000));
    assert_eq!(std_handle_map_dumb(&bos, 99), Err(DriverError::NotFound));
    assert_eq!(handle_ioctl_mmap(&bos, 0x80_0000, 0), Ok(0x80_0000));
    assert_eq!(handle_ioctl_mmap(&bos, 0x90_0000, 0), Err(DriverError::InvalidParameter));
    assert_eq!(handle_ioctl_mmap(&bos, 0, 0), Err(DriverError::NotFound));
    assert_eq!(handle_ioctl_mmap(&bos, 0, 0xF000_0000), Ok(0xF000_0000));
}

#[test]
fn framebuffers_over_buffers() {
    let mut ids = IdCounter::new();
    let mut d = device(&mut ids);
    let mut bos = BoRegistry::new();
    let p = plan_dumb(64, 64, 32);
    let c =
        handle_create_framebuffer(&mut d, &mut ids, &mut bos, 64, 64, p, Some(0x5000), true)
            .unwrap();
    assert_eq!((c.pointer, c.mmap_offset), (0, 0x5000));
    let g = c.backing.unwrap();
    assert_eq!((g.res_id, g.phys, g.bytes), (11, 0x5000, 16_384));
    let fb = d.get_framebuffer(DrmObjectId(c.fb_id)).unwrap();
    assert_eq!((fb.handles[0], fb.pitch, fb.physical_addresses[0]), (11, 256, 0x5000));
    let req = FbRequest { width: 64, height: 32, pitch: 0, handle: 1 };
    let (a, g) = std_handle_addfb(&mut d, &mut ids, &bos, &req, false);
    assert!(g.is_none());
    assert_eq!(d.get_framebuffer(DrmObjectId(a)).unwrap().pitch, 0);
    let (b, _) = std_handle_addfb2(&mut d, &mut ids, &bos, &req, false);
    let fb = d.get_framebuffer(DrmObjectId(b)).unwrap();
    assert_eq!((fb.pitch, fb.physical_addresses[0], fb.handles[0]), (256, 0x5000, 1));
    assert_eq!(std_handle_dirtyfb(&d, b), Some((1, 64, 32)));
    std_handle_rmfb(&mut d, b);
    assert_eq!(std_handle_dirtyfb(&d, b), None);
    let none = handle_create_framebuffer(&mut d, &mut ids, &mut bos, 64, 64, p, None, true);
    assert_eq!(none, Err(DriverError::Io));
}

fn with_fb(ids: &mut IdCounter) -> (DrmDevice, u32) {
    let mut d = device(ids);
    let mut bos = BoRegistry::new();
    let h = bos.add_dumb(0x7000, 4);
    let req = FbRequest { width: 320, height: 200, pitch: 1280, handle: h };
    let (fb, _) = std_handle_addfb(&mut d, ids, &bos, &req, false);
    (d, fb)
}

#[test]
fn flips_cover_the_display() {
    let mut ids = IdCounter::new();
    let (mut d, fb) = with_fb(&mut ids);
    let out = handle_flip_page(&mut d, [fb, 0, 0, 0], INFO, HW);
    assert!(out.result.is_ok());
    assert_eq!(out.copies.len(), 1);
    assert_eq!((out.copies[0].src_phys, out.copies[0].src_w), (0x7000, 320));
    let p = &d.planes[0];
    assert_eq!((p.crtc_w, p.crtc_h, p.src_w, p.src_h), (1280, 800, 320 << 16, 200 << 16));
    assert_eq!(p.fb_id, Some(DrmObjectId(fb)));
    let none = FramebufferInfo { width: 0, height: 0, pitch: 0 };
    assert_eq!(
        handle_flip_page(&mut d, [fb, 0, 0, 0], none, HW).result,
        Err(DriverError::NotFound)
    );
    assert_eq!(
        handle_flip_page(&mut d, [fb + 9, 0, 0, 0], INFO, HW).result,
        Err(DriverError::NotFound)
    );
}

#[test]
fn planes_are_placed() {
    let mut ids = IdCounter::new();
    let (mut d, fb) = with_fb(&mut ids);
    let (plane, crtc) = (d.planes[0].id.0, d.crtcs[0].id.0);
    let words = [plane, crtc, fb, 5, 0xFFFF_FFFF, 30, 40, 1, 2, 3, 4, 0];
    assert!(handle_set_plane(&mut d, words, HW).result.is_ok());
    let p = &d.planes[0];
    assert_eq!((p.crtc_x, p.crtc_y, p.crtc_w, p.crtc_h), (5, -1, 30, 40));
    assert_eq!((p.src_x, p.src_y, p.src_w, p.src_h), (1, 2, 3, 4));
    let off = [plane, 0, 0, 0, 0, 0, 0, 0, 0, 0, 0, 0];
    assert_eq!(handle_set_plane(&mut d, off, HW).result, Err(DriverError::InvalidParameter));
}

#[test]
fn crtcs_show_at_once() {
    let mut ids = IdCounter::new();
    let (mut d, fb) = with_fb(&mut ids);
    let crtc_id = d.crtcs[0].id.0;
    let req = SetCrtc {
        crtc_id,
        fb_id: fb,
        x: 3,
        y: 4,
        hdisplay: 800,
        vdisplay: 600,
        vrefresh: 60,
    };
    let out = std_handle_set_crtc(&mut d, &req, INFO, HW);
    assert!(out.result.is_ok());
    assert_eq!(out.copies.len(), 1);
    assert_eq!(d.planes[0].crtc_w, 800);
    let c = std_handle_get_crtc(&d, crtc_id).unwrap();
    assert_eq!((c.fb_id, c.x, c.y), (fb, 3, 4));
    assert_eq!(c.mode, Some((800, 600, 60)));
    let wrong = SetCrtc { crtc_id: 99, ..req };
    assert_eq!(
        std_handle_set_crtc(&mut d, &wrong, INFO, HW).result,
        Err(DriverError::NotFound)
    );
    assert_eq!(std_handle_get_crtc(&d, 99), Err(DriverError::NotFound));
}

#[test]
fn flips_tell_of_themselves() {
    let mut ids = IdCounter::new();
    let (mut d, fb) = with_fb(&mut ids);
    let mut q = FlipQueue::new();
    let flip = PageFlip { crtc_id: 1, fb_id: fb, flags: 1, user_data: 0xABCD };
    assert!(std_handle_page_flip(&mut d, &mut q, &flip, 250, INFO, HW).result.is_ok());
    assert!(!q.drm_has_events());
    assert!(q.drm_tick(251));
    assert!(q.drm_has_events());
    assert_eq!(q.drm_event_seq(), 1);
    let mut out = [0u8; 40];
    assert_eq!(q.drm_read_events(&mut out), 32);
    assert_eq!(out[0..8], [2, 0, 0, 0, 32, 0, 0, 0]);
    assert_eq!(out[8..16], 0xABCDu64.to_le_bytes());
    assert_eq!(out[16..20], 2u32.to_le_bytes());
    assert_eq!(out[20..24], 500_000u32.to_le_bytes());
    assert_eq!(out[28..32], 1u32.to_le_bytes());
    let quiet = PageFlip { flags: 0, ..flip };
    std_handle_page_flip(&mut d, &mut q, &quiet, 252, INFO, HW);
    let failing = PageFlip { fb_id: 99, ..flip };
    assert!(std_handle_page_flip(&mut d, &mut q, &failing, 252, INFO, HW).result.is_err());
    assert!(!q.drm_tick(253));
}

#[test]
fn events_come_one_a_tick_and_in_order() {
    let mut q = FlipQueue::new();
    for i in 0..3 {
        q.queue_flip_event(1, i, 0);
    }
    assert!(q.drm_tick(5));
    assert!(!q.drm_tick(5));
    assert!(q.drm_tick(6));
    let mut out = [0u8; 31];
    assert_eq!(q.drm_read_events(&mut out), 0);
    let mut out = [0u8; 128];
    assert_eq!(q.drm_read_events(&mut out), 64);
    assert_eq!((out[8], out[40]), (0, 1));
    assert!(q.drm_tick(7));
    assert_eq!(q.drm_read_events(&mut out), 32);
    assert_eq!(out[8], 2);
}

#[test]
fn writes_and_mappings_of_the_device() {
    let mut i = DrmDeviceInterface::new();
    let mut ids = IdCounter::new();
    let (mut d, fb) = with_fb(&mut ids);
    let out = i.handle_write(&mut d, 1000, INFO, HW);
    assert_eq!(out.result, Ok(1000));
    assert_eq!(out.target, Some((0x7000, 1000)));
    assert_eq!(d.planes[0].fb_id, Some(DrmObjectId(fb)));
    assert_eq!(i.handle_write(&mut d, 999_999, INFO, HW).result, Ok(256_000));
    let mut empty = device(&mut ids);
    assert_eq!(
        i.handle_write(&mut empty, 5, INFO, HW).result,
        Err(DriverError::Unsupported)
    );
    std_handle_rmfb(&mut d, fb);
    assert_eq!(i.handle_write(&mut d, 5, INFO, HW).result, Err(DriverError::NotFound));
    let mut buffer = [7u8; 4];
    assert_eq!(i.handle_read(&mut buffer), Ok(0));
    assert_eq!(buffer, [7; 4]);
    assert_eq!(i.handle_mmap(0x5000, 1, 0), Ok(0x5000));
    assert_eq!(i.handle_mmap(0, 1, 0), Err(DriverError::NotFound));
    assert_eq!(i.handle_mmap(0, 0x1000_0001, 9), Err(DriverError::Unsupported));
    assert_eq!(i.handle_mmap(0, 0x1000_0000, 9), Ok(9));
}

#[test]
fn messages_carry_requests() {
    let mut m = Message::empty();
    m.tag = 0x5_0000_1003;
    m.data[0..8].copy_from_slice(&0x1122_3344_5566_7788u64.to_le_bytes());
    assert_eq!(request_of(&m), (0x1003, 0x1122_3344_5566_7788));
    let r = reply_of(Ok(0xDEAD_0000_0001));
    assert_eq!(r.tag, 0);
    assert_eq!(r.data[0..8], 0xDEAD_0000_0001u64.to_le_bytes());
    assert_eq!(reply_of(Err(DriverError::Io)).tag, 1);
    assert_eq!(transfer_result(false), Err(DriverError::NotFound));
    assert_eq!(transfer_result(true), Ok(()));
}

#[test]
fn screen_information() {
    assert_eq!(
        handle_fbioget_vscreeninfo(Some((1, 1920, 1080, 7680))),
        [1920, 1080, 1920, 1080, 0, 0, 32, 0]
    );
    assert_eq!(handle_fbioget_vscreeninfo(None)[0..2], [1280, 800]);
}

#[test]
fn properties_of_objects() {
    assert_eq!(object_props(1, 0xcccc_cccc), [60, 61]);
    assert_eq!(object_props(1, 0xc0c0_c0c0), [70]);
    assert!(object_props(30, 0xeeee_eeee).contains(&51));
    assert!(!object_props(31, 0xeeee_eeee).contains(&51));
    assert!(object_props(99, 0xeeee_eeee).is_empty());
    for id in object_props(30, 0) {
        assert!(prop_def(id).is_some());
    }
    assert!(prop_def(99).is_none());
    assert_eq!(current_prop_value(30, 40), 1);
    assert_eq!(current_prop_value(31, 40), 2);
    let r = std_handle_obj_get_properties(1, 0xcccc_cccc, 8, 8, 2);
    assert!(r.fill);
    assert_eq!(r.ids, [60, 61]);
    assert!(!std_handle_obj_get_properties(1, 0xcccc_cccc, 8, 8, 1).fill);
    assert!(fill_array(8, 2, 2) && !fill_array(0, 2, 2));
}

#[test]
fn definitions_of_properties() {
    assert_eq!(prop_flags(PropKind::Range(0, 1)), 2);
    assert_eq!(prop_flags(PropKind::SignedRange(-1, 1)), 128);
    assert_eq!(prop_flags(PropKind::Object(1)), 64);
    assert_eq!(prop_values(PropKind::SignedRange(-1, 1)), [u64::MAX, 1]);
    assert_eq!(prop_value_count(PropKind::Range(0, 9)), 2);
    assert_eq!(prop_value_count(PropKind::Object(9)), 1);
    assert_eq!(prop_value_count(PropKind::Blob), 0);
    let p = std_handle_get_property(42, 8, 4).unwrap();
    assert_eq!(p.name[0..6], *b"FB_ID\0");
    assert!(std_handle_get_property(99, 8, 4).is_err());
    assert_eq!(std_handle_get_plane_resources(), [30, 31]);
    let primary = std_handle_get_plane(30).unwrap();
    assert_eq!((primary.crtc_id, primary.fb_id), (0, 0));
    assert_eq!((primary.possible_crtcs, primary.gamma_size), (1, 0));
    assert_eq!(primary.formats, [0x3432_5258, 0x3432_5241]);
    assert_eq!(std_handle_get_plane(31).unwrap().formats, [0x3432_5241]);
    assert!(std_handle_get_plane(32).is_err());
}

#[test]
fn property_blobs_read_back() {
    let mut b = PropBlobs::new();
    let id = b.std_handle_create_blob(vec![1, 2, 3]);
    assert_eq!(id, 0x1000);
    assert_eq!(b.std_handle_get_blob(id), Ok(vec![1, 2, 3]));
    assert_eq!(b.std_handle_create_blob(vec![]), 0x1001);
    assert!(b.std_handle_destroy_blob(id).is_ok());
    assert!(b.std_handle_destroy_blob(id).is_err());
    assert!(b.std_handle_get_blob(id).is_err());
    assert!(blob_request_ok(8, 65_536) && !blob_request_ok(8, 65_537));
    assert!(!blob_request_ok(0, 4) && !blob_request_ok(8, 0));
}

fn clip_bytes(c: [i32; 4]) -> Vec<u8> {
    c.iter().flat_map(|v| v.to_le_bytes()).collect()
}

#[test]
fn damage_is_read_from_blobs() {
    let mut b = PropBlobs::new();
    let id = b.std_handle_create_blob(clip_bytes([1, 2, 11, 22]));
    let clips = b.damage_rects(id).unwrap();
    assert_eq!(clips.len(), 1);
    assert_eq!(damage_area(&clips), 200);
    let odd = b.std_handle_create_blob(vec![0; 15]);
    assert!(b.damage_rects(odd).is_none());
    assert!(b.damage_rects(0).is_none());
    assert_eq!(damage_area(&vec![Clip { x1: 5, y1: 0, x2: 1, y2: 9 }]), 0);
}

fn pipe() -> PipeState {
    PipeState {
        crtc_active: 1,
        crtc_mode_blob: 0x1000,
        conn_crtc: 1,
        last_primary_fb: 0,
        last_primary_damage: 0,
        last_cursor_fb: 0,
    }
}

#[test]
fn heads_of_commits() {
    assert!(matches!(atomic_head(0, 0, 0), AtomicHead::Empty));
    assert!(matches!(atomic_head(65, 8, 8), AtomicHead::Malformed));
    assert!(matches!(atomic_head(1, 0, 8), AtomicHead::Malformed));
    assert!(matches!(atomic_head(64, 8, 8), AtomicHead::Read));
    assert_eq!(atomic_total(&vec![3, 4], 8, 8), Ok(7));
    assert!(atomic_total(&vec![1000, 25], 8, 8).is_err());
    assert!(atomic_total(&vec![1], 0, 8).is_err());
    assert_eq!(atomic_total(&vec![0], 0, 0), Ok(0));
}

#[test]
fn commits_present_what_changed() {
    let mut blobs = PropBlobs::new();
    let mode = blobs.std_handle_create_blob(vec![0; 68]);
    let clip = blobs.std_handle_create_blob(clip_bytes([0, 0, 8, 8]));
    assert_eq!(mode, 0x1000);
    let mut p = pipe();
    let (objs, counts, pids) = (vec![30], vec![2], vec![42, 51]);
    let vals = vec![7, clip as u64];
    let plan = std_handle_atomic(&mut p, &blobs, 1, &objs, &counts, &pids, &vals).unwrap();
    assert!(plan.event);
    assert!(matches!(&plan.present, Present::Damaged(7, c) if c.len() == 1));
    atomic_presented(&mut p, &plan);
    assert_eq!((p.last_primary_fb, p.last_primary_damage), (7, clip));
    let again = std_handle_atomic(&mut p, &blobs, 0, &objs, &counts, &pids, &vals).unwrap();
    assert!(matches!(again.present, Present::Unchanged));
    let plain = std_handle_atomic(&mut p, &blobs, 0, &vec![30], &vec![1], &vec![42], &vec![7]);
    assert!(matches!(plain.unwrap().present, Present::Full(7)));
}

#[test]
fn commits_ask_before_they_set_a_mode() {
    let blobs = PropBlobs::new();
    let mut p = pipe();
    let off = |p: &mut PipeState, flags: u32| {
        std_handle_atomic(p, &blobs, flags, &vec![1], &vec![1], &vec![60], &vec![0])
    };
    assert!(off(&mut p, 0).is_err());
    assert_eq!(p, pipe());
    assert!(off(&mut p, 0x0500).unwrap().test_only);
    assert_eq!(p, pipe());
    assert!(off(&mut p, 0x0400).is_ok());
    assert_eq!(p.crtc_active, 0);
    assert!(off(&mut p, 0).is_ok());
    let unknown =
        std_handle_atomic(&mut p, &blobs, 0x400, &vec![1], &vec![1], &vec![61], &vec![0x9999]);
    assert!(unknown.is_err());
}

#[test]
fn cursor_moves_without_pixels() {
    let mut p = pipe();
    let mut req = AtomicPlaneReq::new();
    assert_eq!(commit_cursor_plane(&mut p, &req), CursorAction::Nothing);
    req.fb_id = Some(9);
    req.crtc_x = Some(-5);
    req.crtc_y = Some(6);
    assert_eq!(commit_cursor_plane(&mut p, &req), CursorAction::Upload(9, 0, 6));
    cursor_uploaded(&mut p, 9, true);
    assert_eq!(commit_cursor_plane(&mut p, &req), CursorAction::Move(0, 6));
    req.fb_id = Some(0);
    assert_eq!(commit_cursor_plane(&mut p, &req), CursorAction::Hide);
    assert_eq!(p.last_cursor_fb, 0);
    assert_eq!(cursor_upload_bytes(0, 64, 64), None);
    assert_eq!(cursor_upload_bytes(1, 64, 64), Some(16_384));
    assert_eq!(cursor_upload_bytes(1, 100, 100), Some(16_384));
    assert_eq!(cursor_upload_bytes(1, 8, 8), Some(256));
}
