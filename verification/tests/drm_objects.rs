use drivers::drm::auth::{
    AuthError, AuthManager, DrmAuthToken, DrmCapabilities, DrmCapability, DrmMaster, DrmOperation,
};
use drivers::drm::device::{init_drm, DrmDevice, HardwareFb};
use drivers::drm::framebuffer::{
    DrmDumbBuffer, DrmFormat, DrmFramebuffer, DrmFramebufferRequest,
};
use drivers::drm::modes::{AtomicModeSet, ModeSet, ModeValidator, StandardModes};
use drivers::drm::objects::{
    DrmConnectorStatus, DrmConnectorType, DrmModeInfo, DrmObject, DrmObjectId, DrmObjectType,
    DrmPlane, IdCounter,
};
use drivers::drm::properties::{
    DrmEnumValue, DrmProperty, DrmPropertyType, DrmPropertyValue, PropertyManager,
    StandardProperties,
};
use drivers::drm::scaling::perform_software_scaling;
use drivers::drm_console::DrmContext;
use drivers::drm_driver::{init_drm_driver, DrmDriver, DrmVersion};
use drivers::message::Message;
use drivers::DriverError;

#[test]
fn capabilities_are_bits() {
    let mut c = DrmCapabilities::new(0);
    assert!(!c.has(DrmCapability::ModeSet));
    c.add(DrmCapability::ModeSet);
    assert!(c.has(DrmCapability::ModeSet) && !c.has(DrmCapability::Read));
    c.remove(DrmCapability::ModeSet);
    assert!(!c.has(DrmCapability::ModeSet));
    assert!(DrmCapabilities::all().has(DrmCapability::Advanced));
}

#[test]
fn tokens_take_their_magic_number() {
    let mut magics = IdCounter::new();
    let mut t = DrmAuthToken::new(7, &mut magics);
    assert!(!t.has_capability(DrmCapability::ModeSet));
    assert!(matches!(t.authenticate(t.magic + 1), Err(AuthError::InvalidMagic)));
    let magic = t.magic;
    assert!(t.authenticate(magic).is_ok());
    assert!(t.authenticated && t.has_capability(DrmCapability::ModeSet));
    assert!(t.authenticate(magic).is_ok());
    let m = DrmMaster::new(t);
    assert_eq!(m.token.session_id, 7);
}

#[test]
fn there_is_one_master() {
    let mut magics = IdCounter::new();
    let mut a = AuthManager::new();
    let t = a.create_session(&mut magics);
    let u = a.create_session(&mut magics);
    assert_ne!(t.session_id, u.session_id);
    assert_eq!(a.set_master(t.session_id), Err(AuthError::NotAuthenticated));
    assert!(a.authenticate_session(t.session_id, t.magic).is_ok());
    assert_eq!(a.authenticate_session(99, 1), Err(AuthError::InvalidMagic));
    assert!(!a.can_perform(t.session_id, DrmOperation::ModeSet));
    assert!(a.can_perform(t.session_id, DrmOperation::CreateFramebuffer));
    assert_eq!(a.set_master(t.session_id), Ok(()));
    assert!(a.can_perform(t.session_id, DrmOperation::ModeSet));
    assert!(a.is_master(t.session_id) && !a.is_master(u.session_id));
    assert_eq!(a.authenticate_session(u.session_id, u.magic), Ok(()));
    assert_eq!(a.set_master(u.session_id), Err(AuthError::InsufficientPermissions));
    assert_eq!(a.drop_master(u.session_id), Err(AuthError::InsufficientPermissions));
    a.close_session(t.session_id);
    assert!(!a.is_master(t.session_id));
    assert!(a.get_session(t.session_id).is_none());
    assert!(!a.can_perform(t.session_id, DrmOperation::ModeSet));
}

#[test]
fn codes_of_objects() {
    assert_eq!(DrmObjectType::Crtc.code(), 0xcccc_cccc);
    assert_eq!(DrmObjectType::Plane.code(), 0xeeee_eeee);
    assert_eq!(DrmConnectorStatus::Connected.code(), 1);
    assert_eq!(DrmConnectorType::Hdmi.code(), 11);
    assert_eq!(DrmFormat::Xrgb8888.code(), 0x3432_5258);
    assert_eq!(DrmFormat::Rgb565.bytes_per_pixel(), 2);
    assert!(DrmFormat::Argb8888.has_alpha() && !DrmFormat::Rgb888.has_alpha());
}

#[test]
fn timing_of_a_mode() {
    let m = DrmModeInfo::new(1024, 768, 60);
    assert_eq!((m.htotal, m.vtotal), (1152, 806));
    assert_eq!(m.clock, (1152 * 806 * 60 + 500) / 1000);
    assert_eq!(m.name[0..9], *b"1024x768\0");
}

#[test]
fn coordinated_timing() {
    assert_eq!(ModeValidator::timing_totals(1024, 768), (1270, 780));
    let m = ModeValidator::calculate_mode_timing(1024, 768, 60, 59_436);
    assert_eq!((m.hsync_start, m.hsync_end, m.htotal), (1106, 1188, 1270));
    assert_eq!((m.vsync_start, m.vsync_end, m.vtotal), (771, 774, 780));
    assert_eq!((m.clock, m.flags, m.type_), (59_436, 5, 0x40));
    for w in [1u16, 640, 641, 1366, 4095] {
        let by_floats = ((w as f32 * 8.0 / 100.0) + 0.5) as u16;
        assert_eq!(ModeValidator::timing_totals(w, 1).0, w + 3 * by_floats);
    }
}

#[test]
fn best_modes() {
    assert_eq!(StandardModes::vesa_modes().len(), 21);
    let pick = |w: u32, h: u32, r: u32| {
        let m = StandardModes::find_best_mode(w, h, r).unwrap();
        (m.hdisplay, m.vdisplay, m.vrefresh)
    };
    assert_eq!(pick(1024, 768, 75), (1024, 768, 75));
    assert_eq!(pick(1024, 768, 1), (1024, 768, 60));
    assert_eq!(pick(1920, 1090, 60), (1920, 1080, 60));
    assert_eq!(pick(u32::MAX, u32::MAX, 60).0, 3840);
}

#[test]
fn modes_are_checked() {
    let mut ids = IdCounter::new();
    let d = init_drm(&mut ids, true);
    let crtc = d.crtcs[0].id();
    let m = DrmModeInfo::new(1024, 768, 60);
    assert_eq!(ModeValidator::validate_mode(&d, &m, crtc), Ok(()));
    assert_eq!(
        ModeValidator::validate_mode(&d, &m, DrmObjectId(999)),
        Err(DriverError::NotFound)
    );
    let empty = DrmModeInfo { hdisplay: 0, ..m };
    assert_eq!(
        ModeValidator::validate_mode(&d, &empty, crtc),
        Err(DriverError::Unsupported)
    );
    let fast = DrmModeInfo { vrefresh: 241, ..m };
    assert_eq!(
        ModeValidator::validate_mode(&d, &fast, crtc),
        Err(DriverError::Unsupported)
    );
    let mut s = AtomicModeSet::begin();
    AtomicModeSet::set_crtc_mode(&mut s, crtc, Some(m));
    assert_eq!(AtomicModeSet::test(&d, &s), Ok(()));
    assert_eq!(
        AtomicModeSet::set_plane_scaling(&mut s, crtc, crtc, crtc, 0, 1, 0, 0, 1, 1),
        Err(DriverError::InvalidParameter)
    );
}

#[test]
fn displays_are_set() {
    let mut ids = IdCounter::new();
    let mut d = init_drm(&mut ids, true);
    assert_eq!(ModeSet::get_display_mode(&d), None);
    let hw = Some(HardwareFb { base: 1, width: 800, height: 600, pitch: 3200 });
    ModeSet::set_display_mode(&mut d, 800, 600, 60, hw);
    assert_eq!(ModeSet::get_display_mode(&d), Some((800, 600, 60)));
    assert!(d.crtcs[0].enabled);
    assert_eq!(d.remove_framebuffer(DrmObjectId(77)), Err(DriverError::NotFound));
}

#[test]
fn framebuffers_and_buffers() {
    let mut ids = IdCounter::new();
    let fb = DrmFramebuffer::new(10, 20, DrmFormat::Xrgb8888, 3, 40, &mut ids);
    assert_eq!(fb.size(), 800);
    assert!(fb.is_valid());
    let mut b = DrmDumbBuffer::new(10, 20, 12, &mut ids).unwrap();
    assert_eq!((b.pitch, b.size), (15, 300));
    let before = b;
    assert!(b.map().is_ok());
    assert_ne!(b.address, 0);
    assert!(b.unmap().is_ok());
    assert_eq!(b, before);
    let r = DrmFramebufferRequest::new(4096, 1, DrmFormat::Rgb565);
    assert!(r.validate().is_ok());
    assert!(DrmFramebufferRequest::new(4097, 1, DrmFormat::Rgb565).validate().is_err());
}

#[test]
fn planes_scale_within_limits() {
    let mut ids = IdCounter::new();
    let mut p = DrmPlane::new(1, &mut ids);
    assert!(p.set_scaling(0, 0, 100 << 16, 100 << 16, 1, 2, 100, 100).is_ok());
    assert_eq!((p.crtc_x, p.crtc_y, p.crtc_w), (1, 2, 100));
}

#[test]
fn pictures_are_scaled() {
    let src = [1, 2, 3, 4];
    let mut dst = [0u32; 20];
    perform_software_scaling(&src, 2, 2, &mut dst, 4, 4, 5);
    assert_eq!(dst[0..4], [1, 1, 2, 2]);
    assert_eq!(dst[4], 0);
    assert_eq!(dst[5..9], [1, 1, 2, 2]);
    assert_eq!(dst[15..19], [3, 3, 4, 4]);
}

#[test]
fn properties_keep_their_range() {
    let mut ids = IdCounter::new();
    let mut p = DrmProperty::new_range("x".to_string(), 1, 9, 5, &mut ids);
    assert_eq!(p.property_type.code(), DrmPropertyType::Range.code());
    assert!(p.set_value(DrmPropertyValue::Range(9)).is_ok());
    assert!(p.set_value(DrmPropertyValue::Range(10)).is_err());
    assert!(p.set_value(DrmPropertyValue::Enum(1)).is_err());
    assert!(matches!(p.get_value(), Some(DrmPropertyValue::Range(9))));
    let e = vec![DrmEnumValue { value: 4, name: "four".to_string() }];
    let mut q = DrmProperty::new_enum("e".to_string(), e, 0, &mut ids);
    assert!(q.set_value(DrmPropertyValue::Enum(7)).is_err());
    let mut m = PropertyManager::new();
    let id = m.add_property(p);
    assert!(m.set_property(DrmObjectId(1), id, DrmPropertyValue::Range(2)).is_err());
    m.attach_property(DrmObjectId(1), id);
    assert!(m.set_property(DrmObjectId(1), id, DrmPropertyValue::Range(2)).is_ok());
    assert!(matches!(m.get_property(id), Some(DrmPropertyValue::Range(2))));
    assert_eq!(m.get_object_properties(DrmObjectId(1)), [id]);
    assert!(!StandardProperties::create_plane_properties(&mut ids).is_empty());
}

fn context() -> DrmContext {
    DrmContext {
        device: init_drm(&mut IdCounter::new(), false),
        auth: AuthManager::new(),
        ids: IdCounter::new(),
        magics: IdCounter::new(),
        handles: IdCounter::new(),
        hw: None,
        display_found: false,
    }
}

#[test]
fn modes_are_serialised() {
    let b = DrmModeInfo::new(640, 480, 60).serialize();
    assert_eq!(b.len(), 68);
    assert_eq!(b[4..6], 640u16.to_le_bytes());
    assert_eq!(b[14..16], 480u16.to_le_bytes());
    assert_eq!(b[24..28], 60u32.to_le_bytes());
    assert_eq!(b[36..44], *b"640x480\0");
    let v = DrmVersion {
        version_major: 1,
        version_minor: 6,
        version_patchlevel: 0,
        name: "n",
        date: "d",
        desc: "s",
    };
    assert_eq!(v.serialize()[0..8], [1, 0, 0, 0, 6, 0, 0, 0]);
}

#[test]
fn drivers_answer_once_started() {
    let mut d = context();
    let mut driver = DrmDriver::new();
    let mut m = Message::empty();
    m.tag = 0xFFFF;
    assert_eq!(driver.handle(&mut d, &m).tag, 0);
    assert!(init_drm_driver(&mut driver, &mut d).is_ok());
    assert!(driver.initialized);
    assert_eq!(driver.handle(&mut d, &m).tag, u64::MAX);
    assert!(driver.handle_drm_command(&mut d, 0xFFFF, &[]).is_err());
}

#[test]
fn planar_framebuffers() {
    let mut ids = IdCounter::new();
    let fb = DrmFramebuffer::new_planar(
        4,
        2,
        DrmFormat::Xrgb8888,
        [5, 6, 0, 0],
        [16, 8, 0, 0],
        [0, 32, 0, 0],
        &mut ids,
    );
    assert_eq!((fb.pitch, fb.num_planes()), (16, 1));
    assert_eq!((fb.handles[1], fb.offsets[1]), (6, 32));
    assert_eq!(fb.size(), 32);
}

#[test]
fn objects_are_found_by_number() {
    let mut ids = IdCounter::new();
    let mut d = init_drm(&mut ids, true);
    let crtc = d.crtcs[0].id();
    let connector = d.connectors[0].id();
    let plane = d.planes[0].id();
    let encoder = d.encoders[0].id();
    d.get_crtc_mut(crtc).unwrap().x = 9;
    assert_eq!(d.get_crtc(crtc).unwrap().x, 9);
    d.get_connector_mut(connector).unwrap().set_status(DrmConnectorStatus::Disconnected);
    assert!(matches!(
        d.get_connector(connector).unwrap().status,
        DrmConnectorStatus::Disconnected
    ));
    d.get_plane_mut(plane).unwrap().crtc_x = -3;
    assert_eq!(d.get_plane(plane).unwrap().crtc_x, -3);
    assert!(d.get_encoder(encoder).is_some());
    assert!(d.get_encoder(crtc).is_none() || crtc == encoder);
    assert!(d.get_crtc_mut(DrmObjectId(4000)).is_none());
}

#[test]
fn masters_permit_what_they_may() {
    let mut m = DrmMaster::new(DrmAuthToken::new_authenticated(5));
    assert!(m.can_authorize(DrmOperation::AtomicCommit));
    m.token.capabilities.remove(DrmCapability::Atomic);
    assert!(!m.can_authorize(DrmOperation::AtomicCommit));
    assert!(m.can_authorize(DrmOperation::ModeSet));
    let mut magics = IdCounter::new();
    let mut a = AuthManager::new();
    let t = a.create_session(&mut magics);
    a.get_session_mut(t.session_id).unwrap().authenticated = true;
    assert!(a.get_session(t.session_id).unwrap().authenticated);
}

#[test]
fn masks_and_data_are_properties() {
    let mut ids = IdCounter::new();
    let mut m = DrmProperty::new_bitmask("m".to_string(), vec![0, 3], 1, &mut ids);
    assert!(m.set_value(DrmPropertyValue::Bitmask(9)).is_ok());
    assert!(m.set_value(DrmPropertyValue::Bitmask(2)).is_err());
    let b = DrmProperty::new_blob("b".to_string(), vec![1, 2], &mut ids);
    match b.get_value() {
        Some(DrmPropertyValue::Blob(bytes)) => assert_eq!(*bytes, [1, 2]),
        _ => panic!(),
    }
    assert_eq!(StandardProperties::create_crtc_properties(&mut ids).len(), 2);
    assert_eq!(StandardProperties::create_connector_properties(&mut ids).len(), 2);
    assert_eq!(StandardProperties::create_plane_properties(&mut ids).len(), 11);
}

#[test]
fn crtcs_can_be_tested_off() {
    let mut ids = IdCounter::new();
    let mut d = DrmDevice::new(&mut ids);
    let crtc = d.crtcs[0].id();
    let mut s = AtomicModeSet::begin();
    AtomicModeSet::set_crtc_mode(&mut s, crtc, None);
    assert_eq!(AtomicModeSet::test(&d, &s), Ok(()));
    let out = AtomicModeSet::commit(&mut d, &s, 0, None);
    assert_eq!(out.result, Ok(()));
    assert!(!d.crtcs[0].enabled && d.crtcs[0].mode.is_none());
    AtomicModeSet::set_crtc_mode(&mut s, crtc, Some(DrmModeInfo::new(0, 0, 0)));
    assert_eq!(AtomicModeSet::test(&d, &s), Err(DriverError::Unsupported));
    let mut absent = AtomicModeSet::begin();
    AtomicModeSet::set_crtc_mode(&mut absent, DrmObjectId(999), None);
    assert_eq!(AtomicModeSet::test(&d, &absent), Err(DriverError::NotFound));
}

#[test]
fn new_devices_are_whole() {
    let mut ids = IdCounter::new();
    let d = init_drm(&mut ids, false);
    assert_eq!((d.crtcs[0].gamma_size, d.crtcs[0].possible_crtcs), (256, 1));
    let c = &d.connectors[0];
    assert_eq!((c.connector_type_id, c.possible_crtcs, c.dpms, c.modes.len()), (1, 1, 0, 3));
    assert_eq!((d.encoders[0].possible_crtcs, d.encoders[0].possible_clones), (1, 0));
    for p in &d.planes {
        assert_eq!(p.formats, [0x3432_5258, 0x3432_4752]);
        assert_eq!((p.scaling_supported, p.max_upscale, p.max_downscale), (true, 8, 4));
        assert_eq!((p.crtc_w, p.crtc_h, p.src_w, p.src_h), (0, 0, 0, 0));
    }
    assert!(d.caps.atomic && !d.caps.prime && d.caps.dumb_preferred_depth == 32);
    assert!(d.auth_clients.is_empty() && d.modes.is_empty() && d.framebuffers.is_empty());
}

#[test]
fn tested_states_commit() {
    let mut ids = IdCounter::new();
    let mut d = init_drm(&mut ids, true);
    d.fb_integration = false;
    let crtc = d.crtcs[0].id();
    let plane = d.planes[0].id();
    let first = DrmModeInfo::new(1024, 768, 60);
    let last = DrmModeInfo::new(800, 600, 60);
    let mut s = AtomicModeSet::begin();
    AtomicModeSet::set_crtc_mode(&mut s, crtc, Some(first));
    AtomicModeSet::set_crtc_mode(&mut s, crtc, Some(last));
    AtomicModeSet::set_plane(&mut s, plane, Some(crtc), None, 1, 2, 3, 4, 5, 6, 7, 8);
    AtomicModeSet::set_plane(&mut s, plane, Some(crtc), None, 8, 7, 6, 5, 4, 3, 2, 1);
    assert_eq!(AtomicModeSet::test(&d, &s), Ok(()));
    let out = AtomicModeSet::commit(&mut d, &s, 0, None);
    assert_eq!(out.result, Ok(()));
    assert!(out.copies.is_empty());
    assert_eq!(d.crtcs[0].mode.map(|m| (m.hdisplay, m.vdisplay)), Some((800, 600)));
    let p = d.get_plane(plane).unwrap();
    assert_eq!((p.crtc_x, p.crtc_y, p.crtc_w, p.src_h), (8, 7, 6, 1));
    d.fb_integration = true;
    let out = AtomicModeSet::commit(&mut d, &s, 0, None);
    assert_eq!(out.result, Err(DriverError::InvalidParameter));
    let mut absent = AtomicModeSet::begin();
    AtomicModeSet::set_plane(&mut absent, DrmObjectId(999), None, None, 0, 0, 1, 1, 0, 0, 1, 1);
    assert_eq!(AtomicModeSet::test(&d, &absent), Err(DriverError::NotFound));
}
