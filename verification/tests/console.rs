use drivers::console::{
    console_force_reclaim, drm_scanout_claim, drm_scanout_release, fb_console_size,
    fb_cursor_cell, fb_flush, fb_putc, get_hardware_fb_info, init_kernel_fb, scanout_owner,
    set_boot_framebuffer, set_console_disabled, update_kernel_fb, FlushBatch, KernelConsole,
};
use drivers::console_commands::{
    execute_console_command, handle_function_key, parse_command, parse_mode, Action,
    CommandError, ConsoleCommands,
};
use drivers::console_properties::{ConsoleProperties, ConsoleThemes};
use drivers::drm::auth::AuthManager;
use drivers::drm::device::init_drm;
use drivers::drm::objects::{DrmObjectId, IdCounter};
use drivers::drm::properties::DrmPropertyValue;
use drivers::drm_console::{
    buffer_fits, drm_console_set_mode, drm_console_switch_vt, drm_console_write, DrmConsole,
    DrmContext,
};
use drivers::framebuffer::{alloc_shadow, BootFramebuffer, Framebuffer, ShadowPlan};
use drivers::message::Message;
use drivers::terminal::VirtualTerminal;
use drivers::DriverError;

fn screen(width: usize, height: usize) -> Framebuffer {
    let mut fb = Framebuffer::new();
    fb.attach(vec![0; width * height], width, height, width * 4);
    fb
}

fn put(fb: &mut Framebuffer, text: &str) {
    for b in text.bytes() {
        fb.putc(b);
    }
}

fn lit(fb: &Framebuffer, x0: usize, y0: usize, w: usize, h: usize) -> usize {
    let mut n = 0;
    for y in y0..y0 + h {
        for x in x0..x0 + w {
            if fb.pixel(x, y) != Some(0) {
                n += 1;
            }
        }
    }
    n
}

#[test]
fn pixels_inside_only() {
    let mut fb = screen(64, 32);
    fb.set_pixel(3, 4, 0x123456);
    fb.set_pixel(64, 4, 1);
    assert_eq!(fb.pixel(3, 4), Some(0x123456));
    assert_eq!(fb.pixel(64, 4), None);
    fb.clear(7);
    assert_eq!(fb.pixel(63, 31), Some(7));
}

#[test]
fn text_moves_the_cursor() {
    let mut fb = screen(160, 64);
    put(&mut fb, "AB");
    assert_eq!(fb.cursor_cell(), (1, 3));
    put(&mut fb, "\r\n");
    assert_eq!(fb.cursor_cell(), (2, 1));
    put(&mut fb, "x\x08");
    assert_eq!(fb.cursor_cell(), (2, 1));
}

#[test]
fn sequences_place_and_colour() {
    let mut fb = screen(160, 64);
    put(&mut fb, "\x1b[2;3H");
    assert_eq!(fb.cursor_cell(), (2, 3));
    put(&mut fb, "\x1b[s\x1b[1;1H\x1b[u");
    assert_eq!(fb.cursor_cell(), (2, 3));
    put(&mut fb, "\x1b[2J");
    assert_eq!(lit(&fb, 0, 0, 160, 64), 0);
    put(&mut fb, "\x1b[H\x1b[31mA");
    let mut seen = false;
    for y in 0..16 {
        for x in 0..12 {
            let p = fb.pixel(x, y).unwrap();
            if p != 0 {
                assert_ne!(p & 0xFF0000, 0);
                seen = true;
            }
        }
    }
    assert!(seen);
}

#[test]
fn the_screen_scrolls() {
    let mut fb = screen(120, 100);
    put(&mut fb, "A\r\nB\r\nC\r\nD\r\nE\r\nF\r\nG");
    assert!(fb.cursor_cell().0 <= 5);
    assert_eq!(fb.cursor_cell().1, 2);
    assert!(lit(&fb, 0, 0, 120, 100) > 0);
}

#[test]
fn a_flush_takes_all_that_changed() {
    let mut fb = screen(64, 32);
    fb.take_dirty();
    fb.set_pixel(3, 4, 9);
    fb.set_pixel(10, 20, 9);
    let (x, y, w, h) = fb.take_dirty().unwrap();
    assert!(x <= 3 && y <= 4 && x + w > 10 && y + h > 20);
    assert_eq!(fb.take_dirty(), None);
    let mut out = vec![0u32; 64 * 32];
    fb.blit_to_framebuffer(&mut out, x, y, w, h);
    assert_eq!(out[4 * 64 + 3], 9);
    assert_eq!(out[20 * 64 + 10], 9);
}

#[test]
fn surfaces_of_the_boot_loader() {
    let mut fb = Framebuffer::new();
    assert_eq!(fb.probe(None, vec![]), Err(DriverError::NotFound));
    let info = BootFramebuffer { base: 0x1000, width: 48, height: 40, pitch: 192 };
    assert_eq!(fb.probe(Some(info), vec![0; 48 * 40]), Ok(()));
    assert_eq!(fb.size(), Some((4, 2)));
    let mut boot = None;
    assert_eq!(get_hardware_fb_info(&boot), None);
    set_boot_framebuffer(&mut boot, 0x1000, 16, 16, 64);
    assert_eq!(get_hardware_fb_info(&boot), Some((0x1000, 16, 16, 64)));
}

#[test]
fn shadows_are_kept_if_they_suffice() {
    assert!(matches!(alloc_shadow(4096, None), ShadowPlan::Replace { order: 0, .. }));
    assert!(matches!(alloc_shadow(4096, Some(3)), ShadowPlan::Keep));
}

fn kernel_console() -> KernelConsole {
    let mut c = KernelConsole::new();
    init_kernel_fb(&mut c, vec![0; 160 * 64], 160, 64, 640);
    c.enabled = true;
    c
}

#[test]
fn the_scanout_has_one_owner() {
    let mut c = kernel_console();
    assert_eq!(scanout_owner(&c), 0);
    drm_scanout_claim(&mut c, 5);
    assert_eq!(scanout_owner(&c), 5);
    assert!(!c.enabled);
    drm_scanout_release(&mut c, 6);
    assert_eq!(scanout_owner(&c), 5);
    drm_scanout_release(&mut c, 5);
    assert_eq!(scanout_owner(&c), 0);
    assert!(c.enabled);
    drm_scanout_claim(&mut c, 5);
    console_force_reclaim(&mut c);
    assert!(c.enabled);
}

#[test]
fn the_console_says_that_it_is_back() {
    let mut c = KernelConsole::new();
    init_kernel_fb(&mut c, vec![0; 480 * 200], 480, 200, 1920);
    set_console_disabled(&mut c, true);
    assert!(!c.enabled);
    set_console_disabled(&mut c, false);
    assert!(c.enabled);
    assert_eq!(fb_cursor_cell(&c), (3, 3));
    fb_putc(&mut c, b'A');
    assert_eq!(fb_cursor_cell(&c), (3, 4));
    assert_eq!(fb_console_size(&c), Some((60, 12)));
}

#[test]
fn bursts_flush_at_their_end() {
    let mut c = kernel_console();
    fb_flush(&mut c);
    let outer = FlushBatch::new(&mut c);
    let inner = FlushBatch::new(&mut c);
    fb_putc(&mut c, b'A');
    assert_eq!(fb_flush(&mut c), None);
    assert_eq!(inner.finish(&mut c), None);
    assert!(outer.finish(&mut c).is_some());
}

#[test]
fn terminals_wrap_and_scroll() {
    let mut t = VirtualTerminal::new(1, 32, 32);
    for b in b"abcdef" {
        t.put(*b);
    }
    assert_eq!(t.char_buffer[0], b"abcd");
    assert_eq!((t.cursor_x, t.cursor_y), (2, 1));
    t.put(b'\n');
    assert_eq!(t.char_buffer[0][0..2], *b"ef");
    assert_eq!((t.cursor_x, t.cursor_y), (0, 1));
    t.clear(0);
    assert_eq!((t.cursor_x, t.cursor_y), (0, 0));
}

fn context() -> DrmContext {
    let mut ids = IdCounter::new();
    let device = init_drm(&mut ids, true);
    DrmContext {
        device,
        auth: AuthManager::new(),
        ids,
        magics: IdCounter::new(),
        handles: IdCounter::new(),
        hw: None,
        display_found: true,
    }
}

fn message(tag: u64, bytes: &[u8]) -> Message {
    let mut m = Message::empty();
    m.tag = tag;
    m.data[0..bytes.len()].copy_from_slice(bytes);
    m
}

#[test]
fn only_text_is_written() {
    let mut d = context();
    let mut c = DrmConsole::new();
    c.handle(&mut d, &message(1, b"hi"));
    assert_eq!(c.current_vt().char_buffer[0][0..2], *b"hi");
    let x = c.current_vt().cursor_x;
    c.handle(&mut d, &message(1, &[0x41, 0xFF, 0x42]));
    assert_eq!(c.current_vt().cursor_x, x);
    c.handle(&mut d, &message(1, "Aé".as_bytes()));
    assert_eq!(c.current_vt().cursor_x, x + 1);
}

#[test]
fn terminals_are_switched() {
    let mut d = context();
    let mut c = DrmConsole::new();
    c.handle(&mut d, &message(2, &[3]));
    assert_eq!(c.get_active_vt(), 3);
    c.handle(&mut d, &message(2, &[8]));
    assert_eq!(c.get_active_vt(), 3);
    assert!(drm_console_switch_vt(&mut c, &mut d, 9).result.is_err());
    assert!(drm_console_switch_vt(&mut c, &mut d, 1).result.is_ok());
    drm_console_write(&mut c, &mut d, b"ok");
    assert_eq!(c.current_vt().char_buffer[0][0..2], *b"ok");
}

#[test]
fn modes_need_the_device() {
    let mut d = context();
    let mut c = DrmConsole::new();
    assert!(!c.is_drm_enabled());
    let _ = drm_console_set_mode(&mut c, &mut d, 800, 600, 60);
    let (r, _) = c.handle(&mut d, &message(4, &[]));
    match c.get_current_mode() {
        Some((w, _, _)) => assert_eq!(r.data[0..4], w.to_le_bytes()),
        None => assert_eq!(r.data, [0; 56]),
    }
    assert!(buffer_fits(1024, 768));
    assert!(!buffer_fits(0xFFFF_FFFF, 2));
}

#[test]
fn commands_are_read() {
    assert!(matches!(parse_command("  vt  switch 3 "), Ok(Action::VtSwitch(3))));
    assert!(matches!(parse_command("mode set 800x600@75"), Ok(Action::ModeSet(800, 600, 75))));
    assert!(matches!(parse_command("mode set 800x600"), Ok(Action::ModeSet(800, 600, 60))));
    for (line, e) in [
        ("", CommandError::EmptyCommand),
        ("dance", CommandError::UnknownCommand),
        ("drm x", CommandError::UnknownDrmCommand),
        ("vt switch", CommandError::VtUsage),
        ("vt switch a", CommandError::InvalidVt),
        ("vt x", CommandError::UnknownVtCommand),
        ("mode set", CommandError::ModeUsage),
        ("mode set 5x5@x", CommandError::InvalidRefresh),
        ("mode set 55", CommandError::InvalidResolution),
        ("mode set ax5", CommandError::InvalidWidth),
        ("mode set 5xa", CommandError::InvalidHeight),
        ("mode x", CommandError::UnknownModeCommand),
    ] {
        assert!(matches!(parse_command(line), Err(f) if f == e));
    }
    let chars: Vec<char> = "1x2@3".chars().collect();
    assert_eq!(parse_mode(&chars), Ok((1, 2, 3)));
    assert_eq!(CommandError::InvalidVt.text(), "Invalid VT ID");
}

#[test]
fn commands_are_answered() {
    let mut d = context();
    let mut c = DrmConsole::new();
    let mut say = |line: &str| {
        ConsoleCommands::handle_command(&mut c, &mut d, None, vec![], line).text
    };
    assert_eq!(say("vt list").unwrap(), "Available VTs: 0-7");
    assert_eq!(say("vt switch 5").unwrap(), "Switched to VT 5");
    assert_eq!(say("vt current").unwrap(), "Current VT: 5");
    assert!(matches!(say("vt switch 8"), Err(CommandError::SwitchVtFailed)));
    assert_eq!(say("drm status").unwrap(), "DRM: Disabled (using legacy framebuffer)");
    assert!(matches!(say("drm init"), Err(CommandError::InitFailed)));
    let (text, _) = execute_console_command(&mut c, &mut d, None, vec![], "nonsense");
    assert!(text.contains("Unknown command"));
    let key = handle_function_key(&mut c, &mut d, 200);
    assert!(matches!(key.text, Err(CommandError::UnsupportedKey)));
}

#[test]
fn themes_set_properties() {
    let mut ids = IdCounter::new();
    let (props, mut m) = ConsoleProperties::define(&mut ids);
    let first = props.font_size.0;
    assert!(ConsoleThemes::apply_theme("dark", &mut m, &props).is_err());
    for id in first..first + 14 {
        m.attach_property(DrmObjectId(0), DrmObjectId(id));
    }
    for name in ConsoleThemes::list_themes() {
        assert!(ConsoleThemes::apply_theme(name, &mut m, &props).is_ok());
    }
    assert!(ConsoleThemes::apply_theme("no such", &mut m, &props).is_err());
    assert!(matches!(
        m.get_property(props.text_color),
        Some(DrmPropertyValue::Range(0x808080))
    ));
    let mut c = DrmConsole::new();
    assert!(props.apply_properties(&mut c, &m).is_ok());
    assert!(!props.get_property_info(&m).is_empty());
}

#[test]
fn terminals_keep_their_text() {
    let mut d = context();
    let mut c = DrmConsole::new();
    drm_console_write(&mut c, &mut d, b"one");
    assert!(drm_console_switch_vt(&mut c, &mut d, 4).result.is_ok());
    drm_console_write(&mut c, &mut d, b"four");
    assert_eq!(c.virtual_terminals[0].char_buffer[0][0..4], *b"one ");
    assert!(drm_console_switch_vt(&mut c, &mut d, 0).result.is_ok());
    assert_eq!(c.current_vt().char_buffer[0][0..4], *b"one ");
    assert_eq!(c.current_vt().cursor_x, 3);
    assert_eq!(c.virtual_terminals[4].char_buffer[0][0..4], *b"four");
}

#[test]
fn control_sequences_of_the_console() {
    let mut d = context();
    let mut c = DrmConsole::new();
    drm_console_write(&mut c, &mut d, b"text");
    c.handle_control_sequence(&mut d, b"[H");
    assert_eq!((c.current_vt().cursor_x, c.current_vt().cursor_y), (0, 0));
    assert_eq!(c.current_vt().char_buffer[0][0..4], *b"text");
    c.handle_control_sequence(&mut d, b"[2J");
    assert_eq!(c.current_vt().char_buffer[0][0..4], *b"    ");
    c.handle_control_sequence(&mut d, b"[3");
    assert_eq!(c.get_active_vt(), 2);
    for ignored in [&b"[0"[..], b"[9", b"3", b"[", b"[x"] {
        c.handle_control_sequence(&mut d, ignored);
        assert_eq!(c.get_active_vt(), 2);
    }
}

#[test]
fn consoles_move_without_a_change() {
    let mut c = KernelConsole::new();
    let mut surface = vec![0u32; 160 * 64];
    surface[5] = 0xABCDEF;
    update_kernel_fb(&mut c, surface, 160, 64, 640);
    assert_eq!(c.fb.pixel(5, 0), Some(0xABCDEF));
    assert_eq!(fb_console_size(&c), Some((20, 4)));
}

#[test]
fn consoles_answer_before_they_start() {
    let mut d = context();
    let mut c = DrmConsole::at_boot();
    let mut say = |line: &str| {
        ConsoleCommands::handle_command(&mut c, &mut d, None, vec![], line).text
    };
    assert_eq!(say("drm status").unwrap(), "DRM: Disabled (using legacy framebuffer)");
    assert_eq!(say("vt current").unwrap(), "Current VT: 0");
    assert_eq!(say("mode current").unwrap(), "No mode set");
    assert!(matches!(say("vt switch 0"), Err(CommandError::SwitchVtFailed)));
    assert!(matches!(say("drm reset"), Err(CommandError::ResetFailed)));
    let key = handle_function_key(&mut c, &mut d, 1);
    assert!(matches!(key.text, Err(CommandError::SwitchVtFailed)));
    c.handle_control_sequence(&mut d, b"[3");
    c.handle(&mut d, &message(1, &[0xFF]));
    c.handle(&mut d, &message(2, &[0]));
    assert_eq!(c.get_active_vt(), 0);
    let listed = c.handle(&mut d, &message(5, &[])).0;
    assert_eq!((listed.data[0], listed.data[1]), (3, 0));
}

#[test]
fn saved_cursors_come_back() {
    let mut fb = screen(480, 200);
    put(&mut fb, "ab\n\x1b[sline\nand more\x1b[2J\x1b[u");
    let here = fb.cursor_cell();
    assert_eq!(here, (2, 1));
    put(&mut fb, "\x1b7xyz\n\n\x1b8");
    assert_eq!(fb.cursor_cell(), here);
    fb.handle_csi(b"", b's');
    fb.handle_csi(b"3;7", b'H');
    assert_eq!(fb.cursor_cell(), (3, 7));
    fb.handle_csi(b"", b'u');
    assert_eq!(fb.cursor_cell(), here);
    put(&mut fb, "moved\x1b[u");
    assert_eq!(fb.cursor_cell(), here);
}
