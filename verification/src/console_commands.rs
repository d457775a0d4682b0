//! The console's command line: what a line asks for, carrying it out, and the
//! answer.
use crate::drm::device::{CommitOutcome, PlaneCopy};
use crate::drm_console::{
    available_modes, init_drm_console, mode_ok, mode_set, restarted, vt_switched, DrmConsole,
    DrmContext,
};
use crate::framebuffer::{boot_usable, BootFramebuffer};
use crate::screen::surface_ok;
use crate::words::{
    decimal, is_word, listed, number_of, parse_number, push_decimal, split_words, words,
};
use vstd::prelude::*;
use vstd::string::*;

verus! {

/// What a command line asks for.
#[derive(Debug, Clone, Copy, PartialEq, Eq, Structural)]
pub enum Action {
    DrmHelp,
    DrmStatus,
    DrmInit,
    DrmReset,
    VtHelp,
    VtSwitch(usize),
    VtList,
    VtCurrent,
    ModeHelp,
    ModeSet(u32, u32, u32),
    ModeList,
    ModeCurrent,
    ModeAuto,
    Help,
}

/// Why a command line is refused, or its command failed.
#[derive(Debug, Clone, Copy, PartialEq, Eq, Structural)]
pub enum CommandError {
    EmptyCommand,
    UnknownCommand,
    UnknownDrmCommand,
    InitFailed,
    ResetFailed,
    VtUsage,
    InvalidVt,
    SwitchVtFailed,
    UnknownVtCommand,
    ModeUsage,
    InvalidRefresh,
    InvalidResolution,
    InvalidWidth,
    InvalidHeight,
    SetModeFailed,
    AutoModeFailed,
    NoModes,
    UnknownModeCommand,
    SwitchModeFailed,
    NoAlternateModes,
    UnsupportedKey,
}

impl CommandError {
    /// The words for it.
    pub open spec fn words(self) -> &'static str {
        match self {
            CommandError::EmptyCommand => "Empty command",
            CommandError::UnknownCommand => "Unknown command",
            CommandError::UnknownDrmCommand => "Unknown DRM command",
            CommandError::InitFailed => "Failed to initialize DRM console",
            CommandError::ResetFailed => "Failed to reset mode",
            CommandError::VtUsage => "Usage: vt switch <id>",
            CommandError::InvalidVt => "Invalid VT ID",
            CommandError::SwitchVtFailed => "Failed to switch VT",
            CommandError::UnknownVtCommand => "Unknown VT command",
            CommandError::ModeUsage => "Usage: mode set <width>x<height>[@refresh]",
            CommandError::InvalidRefresh => "Invalid refresh rate",
            CommandError::InvalidResolution => "Invalid resolution format",
            CommandError::InvalidWidth => "Invalid width",
            CommandError::InvalidHeight => "Invalid height",
            CommandError::SetModeFailed => "Failed to set mode",
            CommandError::AutoModeFailed => "Failed to auto-set mode",
            CommandError::NoModes => "No modes available",
            CommandError::UnknownModeCommand => "Unknown mode command",
            CommandError::SwitchModeFailed => "Failed to switch mode",
            CommandError::NoAlternateModes => "No alternate modes available",
            CommandError::UnsupportedKey => "Unsupported function key",
        }
    }

    /// The words for it.
    pub fn text(self) -> (t: &'static str)
        ensures
            t@ == self.words()@,
    {
        match self {
            CommandError::EmptyCommand => "Empty command",
            CommandError::UnknownCommand => "Unknown command",
            CommandError::UnknownDrmCommand => "Unknown DRM command",
            CommandError::InitFailed => "Failed to initialize DRM console",
            CommandError::ResetFailed => "Failed to reset mode",
            CommandError::VtUsage => "Usage: vt switch <id>",
            CommandError::InvalidVt => "Invalid VT ID",
            CommandError::SwitchVtFailed => "Failed to switch VT",
            CommandError::UnknownVtCommand => "Unknown VT command",
            CommandError::ModeUsage => "Usage: mode set <width>x<height>[@refresh]",
            CommandError::InvalidRefresh => "Invalid refresh rate",
            CommandError::InvalidResolution => "Invalid resolution format",
            CommandError::InvalidWidth => "Invalid width",
            CommandError::InvalidHeight => "Invalid height",
            CommandError::SetModeFailed => "Failed to set mode",
            CommandError::AutoModeFailed => "Failed to auto-set mode",
            CommandError::NoModes => "No modes available",
            CommandError::UnknownModeCommand => "Unknown mode command",
            CommandError::SwitchModeFailed => "Failed to switch mode",
            CommandError::NoAlternateModes => "No alternate modes available",
            CommandError::UnsupportedKey => "Unsupported function key",
        }
    }
}

/// Where a character first stands in a text, or the text's length.
pub open spec fn place_of(s: Seq<char>, c: char) -> int
    decreases s.len(),
{
    if s.len() == 0 || s[0] == c {
        0
    } else {
        1 + place_of(s.skip(1), c)
    }
}

/// A mode as a command names it: width, an `x`, height, and perhaps an `@` and
/// a refresh rate, which is 60 otherwise.
pub open spec fn mode_named(s: Seq<char>) -> Result<(u32, u32, u32), CommandError> {
    let at = place_of(s, '@');
    let refresh = if at < s.len() { number_of(s.skip(at + 1), u32::MAX as int) } else { Some(60) };
    let size = s.take(at);
    let x = place_of(size, 'x');
    let width = number_of(size.take(x), u32::MAX as int);
    let height = number_of(size.skip(x + 1), u32::MAX as int);
    match refresh {
        None => Err(CommandError::InvalidRefresh),
        Some(r) => if x >= size.len() {
            Err(CommandError::InvalidResolution)
        } else {
            match (width, height) {
                (None, _) => Err(CommandError::InvalidWidth),
                (Some(_), None) => Err(CommandError::InvalidHeight),
                (Some(w), Some(h)) => Ok((w as u32, h as u32, r as u32)),
            }
        },
    }
}

/// What the words of a line ask for.
pub open spec fn asked(w: Seq<Seq<char>>) -> Result<Action, CommandError> {
    if w.len() == 0 {
        Err(CommandError::EmptyCommand)
    } else if w[0] == "drm"@ {
        if w.len() == 1 {
            Ok(Action::DrmHelp)
        } else if w[1] == "status"@ {
            Ok(Action::DrmStatus)
        } else if w[1] == "init"@ {
            Ok(Action::DrmInit)
        } else if w[1] == "reset"@ {
            Ok(Action::DrmReset)
        } else {
            Err(CommandError::UnknownDrmCommand)
        }
    } else if w[0] == "vt"@ {
        if w.len() == 1 {
            Ok(Action::VtHelp)
        } else if w[1] == "switch"@ {
            if w.len() == 2 {
                Err(CommandError::VtUsage)
            } else {
                match number_of(w[2], usize::MAX as int) {
                    Some(n) => Ok(Action::VtSwitch(n as usize)),
                    None => Err(CommandError::InvalidVt),
                }
            }
        } else if w[1] == "list"@ {
            Ok(Action::VtList)
        } else if w[1] == "current"@ {
            Ok(Action::VtCurrent)
        } else {
            Err(CommandError::UnknownVtCommand)
        }
    } else if w[0] == "mode"@ {
        if w.len() == 1 {
            Ok(Action::ModeHelp)
        } else if w[1] == "set"@ {
            if w.len() == 2 {
                Err(CommandError::ModeUsage)
            } else {
                match mode_named(w[2]) {
                    Ok(m) => Ok(Action::ModeSet(m.0, m.1, m.2)),
                    Err(e) => Err(e),
                }
            }
        } else if w[1] == "list"@ {
            Ok(Action::ModeList)
        } else if w[1] == "current"@ {
            Ok(Action::ModeCurrent)
        } else if w[1] == "auto"@ {
            Ok(Action::ModeAuto)
        } else {
            Err(CommandError::UnknownModeCommand)
        }
    } else if w[0] == "help"@ {
        Ok(Action::Help)
    } else {
        Err(CommandError::UnknownCommand)
    }
}

/// Finds a character in part of a word.
fn find(s: &Vec<char>, end: usize, c: char) -> (at: usize)
    requires
        end <= s@.len(),
    ensures
        at == place_of(s@.take(end as int), c),
        at <= end,
{
    let ghost text = s@.take(end as int);
    let mut i: usize = 0;
    assert(text.skip(0) =~= text);
    while i < end && s[i] != c
        invariant
            i <= end <= s@.len(),
            text == s@.take(end as int),
            i + place_of(text.skip(i as int), c) == place_of(text, c),
        decreases end - i,
    {
        proof {
            assert(text.skip(i as int)[0] == s@[i as int]);
            assert(text.skip(i as int).skip(1) =~= text.skip(i + 1));
        }
        i = i + 1;
    }
    proof {
        if i < end {
            assert(text.skip(i as int)[0] == c);
        }
    }
    i
}

/// Reads a mode from a word.
pub fn parse_mode(s: &Vec<char>) -> (r: Result<(u32, u32, u32), CommandError>)
    ensures
        r == mode_named(s@),
{
    let n = s.len();
    assert(s@.take(n as int) =~= s@);
    let at = find(s, n, '@');
    let refresh: u32 = if at < n {
        assert(s@.subrange(at + 1, n as int) =~= s@.skip(at + 1));
        match parse_number(s, at + 1, n, u32::MAX as u64) {
            Some(v) => v as u32,
            None => {
                return Err(CommandError::InvalidRefresh);
            },
        }
    } else {
        60
    };
    let x = find(s, at, 'x');
    if x >= at {
        return Err(CommandError::InvalidResolution);
    }
    assert(s@.subrange(0, x as int) =~= s@.take(at as int).take(x as int));
    assert(s@.subrange(x + 1, at as int) =~= s@.take(at as int).skip(x + 1));
    let width = match parse_number(s, 0, x, u32::MAX as u64) {
        Some(v) => v as u32,
        None => {
            return Err(CommandError::InvalidWidth);
        },
    };
    let height = match parse_number(s, x + 1, at, u32::MAX as u64) {
        Some(v) => v as u32,
        None => {
            return Err(CommandError::InvalidHeight);
        },
    };
    Ok((width, height, refresh))
}

/// Reads a command line.
pub fn parse_command(command: &str) -> (r: Result<Action, CommandError>)
    ensures
        r == asked(words(command@)),
{
    let w = split_words(command);
    let n = w.len();
    assert(listed(w@).len() == n);
    if n == 0 {
        return Err(CommandError::EmptyCommand);
    }
    assert(listed(w@)[0] == w@[0]@);
    assert(n > 1 ==> listed(w@)[1] == w@[1]@);
    assert(n > 2 ==> listed(w@)[2] == w@[2]@);
    if is_word(&w[0], "drm") {
        if n == 1 {
            Ok(Action::DrmHelp)
        } else if is_word(&w[1], "status") {
            Ok(Action::DrmStatus)
        } else if is_word(&w[1], "init") {
            Ok(Action::DrmInit)
        } else if is_word(&w[1], "reset") {
            Ok(Action::DrmReset)
        } else {
            Err(CommandError::UnknownDrmCommand)
        }
    } else if is_word(&w[0], "vt") {
        if n == 1 {
            Ok(Action::VtHelp)
        } else if is_word(&w[1], "switch") {
            if n == 2 {
                Err(CommandError::VtUsage)
            } else {
                let len = w[2].len();
                assert(w@[2]@.subrange(0, len as int) =~= w@[2]@);
                match parse_number(&w[2], 0, len, usize::MAX as u64) {
                    Some(v) => Ok(Action::VtSwitch(v as usize)),
                    None => Err(CommandError::InvalidVt),
                }
            }
        } else if is_word(&w[1], "list") {
            Ok(Action::VtList)
        } else if is_word(&w[1], "current") {
            Ok(Action::VtCurrent)
        } else {
            Err(CommandError::UnknownVtCommand)
        }
    } else if is_word(&w[0], "mode") {
        if n == 1 {
            Ok(Action::ModeHelp)
        } else if is_word(&w[1], "set") {
            if n == 2 {
                Err(CommandError::ModeUsage)
            } else {
                match parse_mode(&w[2]) {
                    Ok(m) => Ok(Action::ModeSet(m.0, m.1, m.2)),
                    Err(e) => Err(e),
                }
            }
        } else if is_word(&w[1], "list") {
            Ok(Action::ModeList)
        } else if is_word(&w[1], "current") {
            Ok(Action::ModeCurrent)
        } else if is_word(&w[1], "auto") {
            Ok(Action::ModeAuto)
        } else {
            Err(CommandError::UnknownModeCommand)
        }
    } else if is_word(&w[0], "help") {
        Ok(Action::Help)
    } else {
        Err(CommandError::UnknownCommand)
    }
}

/// The list of commands.
pub const HELP: &'static str = "DRM Console Commands:\ndrm status       - Show DRM status\ndrm init         - Reinitialize DRM\ndrm reset        - Reset to safe mode\nvt switch <id>   - Switch virtual terminal (0-7)\nvt list          - List available VTs\nvt current       - Show current VT\nmode set WxH[@R] - Set display mode (e.g., 1920x1080@60)\nmode list        - List available modes\nmode current     - Show current mode\nmode auto        - Auto-select best mode\nhelp             - Show this help\n";

/// A mode in words.
pub open spec fn mode_label(m: (u32, u32, u32)) -> Seq<char> {
    decimal(m.0 as int) + "x"@ + decimal(m.1 as int) + "@"@ + decimal(m.2 as int) + "Hz"@
}

/// A mode in words, or that there is none.
pub open spec fn mode_or_none(m: Option<(u32, u32, u32)>) -> Seq<char> {
    match m {
        Some(m) => mode_label(m),
        None => "No mode set"@,
    }
}

/// The first `k` modes of a list, one per line.
pub open spec fn mode_lines(modes: Seq<(u32, u32, u32)>, k: int) -> Seq<char>
    decreases k,
{
    if k <= 0 {
        Seq::empty()
    } else {
        mode_lines(modes, k - 1) + "  "@ + mode_label(modes[k - 1]) + "\n"@
    }
}

/// An answer, and what has to be copied to the screen.
pub struct CommandReply {
    pub text: Result<String, CommandError>,
    pub copies: Vec<PlaneCopy>,
}

impl CommandReply {
    /// The answer is the given text.
    pub open spec fn says(self, text: Seq<char>) -> bool {
        self.text matches Ok(t) && t@ == text
    }

    /// The answer is the given text after success, and the given error after
    /// failure.
    pub open spec fn reports(self, out: CommitOutcome, text: Seq<char>, e: CommandError) -> bool {
        &&& self.copies == out.copies
        &&& if out.result is Ok {
            self.says(text)
        } else {
            self.text == Err::<String, CommandError>(e)
        }
    }

    /// The answer is the given text, and nothing was done.
    pub open spec fn only_says(
        self,
        a: DrmConsole,
        da: DrmContext,
        b: DrmConsole,
        db: DrmContext,
        text: Seq<char>,
    ) -> bool {
        self.says(text) && b == a && db == da && self.copies@.len() == 0
    }
}

/// What an action does to the console and how it is answered.
pub open spec fn performed(
    a: DrmConsole,
    da: DrmContext,
    b: DrmConsole,
    db: DrmContext,
    info: Option<BootFramebuffer>,
    surface: Seq<u32>,
    action: Action,
    reply: CommandReply,
) -> bool {
    match action {
        Action::DrmHelp => reply.only_says(a, da, b, db, "DRM commands: status, init, reset"@),
        Action::DrmStatus => reply.only_says(
            a,
            da,
            b,
            db,
            if a.drm_enabled {
                "DRM: Enabled, Mode: "@ + mode_or_none(a.current_mode)
            } else {
                "DRM: Disabled (using legacy framebuffer)"@
            },
        ),
        Action::DrmInit => exists|o: CommitOutcome| #[trigger]
            restarted(da, b, db, info, surface, o) && reply.reports(
                o,
                "DRM console reinitialized"@,
                CommandError::InitFailed,
            ),
        Action::DrmReset => exists|o: CommitOutcome| #[trigger]
            mode_set(a, da, b, db, 1024, 768, 60, o) && reply.reports(
                o,
                "Reset to 1024x768@60Hz"@,
                CommandError::ResetFailed,
            ),
        Action::VtHelp => reply.only_says(a, da, b, db, "VT commands: switch <id>, list, current"@),
        Action::VtSwitch(n) => exists|o: CommitOutcome| #[trigger]
            vt_switched(a, da, b, db, n as int, o) && reply.reports(
                o,
                "Switched to VT "@ + decimal(n as int),
                CommandError::SwitchVtFailed,
            ),
        Action::VtList => reply.only_says(a, da, b, db, "Available VTs: 0-7"@),
        Action::VtCurrent => reply.only_says(
            a,
            da,
            b,
            db,
            "Current VT: "@ + decimal(a.active_vt as int),
        ),
        Action::ModeHelp => reply.only_says(
            a,
            da,
            b,
            db,
            "Mode commands: set <width>x<height>[@refresh], list, current"@,
        ),
        Action::ModeSet(w, h, r) => exists|o: CommitOutcome| #[trigger]
            mode_set(a, da, b, db, w, h, r, o) && reply.reports(
                o,
                "Set mode to "@ + mode_label((w, h, r)),
                CommandError::SetModeFailed,
            ),
        Action::ModeList => reply.only_says(
            a,
            da,
            b,
            db,
            "Available modes:\n"@ + mode_lines(
                available_modes(a, da),
                available_modes(a, da).len() as int,
            ),
        ),
        Action::ModeCurrent => reply.only_says(
            a,
            da,
            b,
            db,
            match a.current_mode {
                Some(m) => "Current mode: "@ + mode_label(m),
                None => "No mode set"@,
            },
        ),
        Action::ModeAuto => {
            let modes = available_modes(a, da);
            if modes.len() > 0 {
                let m = modes[0];
                exists|o: CommitOutcome| #[trigger]
                    mode_set(a, da, b, db, m.0, m.1, m.2, o) && reply.reports(
                        o,
                        "Auto-set mode to "@ + mode_label(m),
                        CommandError::AutoModeFailed,
                    )
            } else {
                &&& reply.text == Err::<String, CommandError>(CommandError::NoModes)
                &&& b == a
                &&& db == da
                &&& reply.copies@.len() == 0
            }
        },
        Action::Help => reply.only_says(a, da, b, db, HELP@),
    }
}

fn say(text: &str) -> (r: CommandReply)
    ensures
        r.says(text@),
        r.copies@.len() == 0,
{
    CommandReply { text: Ok(text.to_owned()), copies: Vec::new() }
}

fn say_string(text: String) -> (r: CommandReply)
    ensures
        r.says(text@),
        r.copies@.len() == 0,
{
    CommandReply { text: Ok(text), copies: Vec::new() }
}

fn refuse(e: CommandError) -> (r: CommandReply)
    ensures
        r.text == Err::<String, CommandError>(e),
        r.copies@.len() == 0,
{
    CommandReply { text: Err(e), copies: Vec::new() }
}

fn report(out: CommitOutcome, text: String, e: CommandError) -> (r: CommandReply)
    ensures
        r.reports(out, text@, e),
{
    match out.result {
        Ok(()) => CommandReply { text: Ok(text), copies: out.copies },
        Err(_) => CommandReply { text: Err(e), copies: out.copies },
    }
}

fn push_mode(out: &mut String, m: (u32, u32, u32))
    ensures
        final(out)@ == old(out)@ + mode_label(m),
{
    let ghost before = out@;
    push_decimal(out, m.0 as u64);
    out.append("x");
    push_decimal(out, m.1 as u64);
    out.append("@");
    push_decimal(out, m.2 as u64);
    out.append("Hz");
    assert(out@ =~= before + mode_label(m));
}

/// A text and a mode behind it.
fn with_mode(text: &str, m: (u32, u32, u32)) -> (r: String)
    ensures
        r@ == text@ + mode_label(m),
{
    let mut out = text.to_owned();
    push_mode(&mut out, m);
    out
}

/// A text and a number behind it.
fn with_number(text: &str, n: usize) -> (r: String)
    ensures
        r@ == text@ + decimal(n as int),
{
    let mut out = text.to_owned();
    push_decimal(&mut out, n as u64);
    out
}

/// The modes of a list, one per line.
fn list_modes(modes: &Vec<(u32, u32, u32)>) -> (r: String)
    ensures
        r@ == "Available modes:\n"@ + mode_lines(modes@, modes@.len() as int),
{
    let mut out = "Available modes:\n".to_owned();
    let ghost head = out@;
    let mut i: usize = 0;
    assert(out@ =~= head + mode_lines(modes@, 0));
    while i < modes.len()
        invariant
            i <= modes@.len(),
            out@ == head + mode_lines(modes@, i as int),
        decreases modes@.len() - i,
    {
        out.append("  ");
        push_mode(&mut out, modes[i]);
        out.append("\n");
        i = i + 1;
        assert(out@ =~= head + mode_lines(modes@, i as int));
    }
    out
}

/// Carries an action out.
pub fn perform(
    console: &mut DrmConsole,
    drm: &mut DrmContext,
    info: Option<BootFramebuffer>,
    surface: Vec<u32>,
    action: Action,
) -> (reply: CommandReply)
    requires
        ready(*old(console), *old(drm), info, surface@),
    ensures
        final(console).wf(),
        mode_ok(final(console).current_mode) ==> final(console).modes_ok(),
        performed(
            *old(console),
            *old(drm),
            *final(console),
            *final(drm),
            info,
            surface@,
            action,
            reply,
        ),
{
    match action {
        Action::DrmHelp => say("DRM commands: status, init, reset"),
        Action::DrmStatus => {
            if console.is_drm_enabled() {
                match console.get_current_mode() {
                    Some(m) => say_string(with_mode("DRM: Enabled, Mode: ", m)),
                    None => {
                        let mut text = "DRM: Enabled, Mode: ".to_owned();
                        text.append("No mode set");
                        say_string(text)
                    },
                }
            } else {
                say("DRM: Disabled (using legacy framebuffer)")
            }
        },
        Action::DrmInit => {
            let out = init_drm_console(console, drm, info, surface);
            report(out, "DRM console reinitialized".to_owned(), CommandError::InitFailed)
        },
        Action::DrmReset => {
            let out = console.set_mode(drm, 1024, 768, 60);
            report(out, "Reset to 1024x768@60Hz".to_owned(), CommandError::ResetFailed)
        },
        Action::VtHelp => say("VT commands: switch <id>, list, current"),
        Action::VtSwitch(n) => {
            let out = console.switch_vt(drm, n);
            report(out, with_number("Switched to VT ", n), CommandError::SwitchVtFailed)
        },
        Action::VtList => say("Available VTs: 0-7"),
        Action::VtCurrent => say_string(with_number("Current VT: ", console.get_active_vt())),
        Action::ModeHelp => say("Mode commands: set <width>x<height>[@refresh], list, current"),
        Action::ModeSet(w, h, r) => {
            let out = console.set_mode(drm, w, h, r);
            report(out, with_mode("Set mode to ", (w, h, r)), CommandError::SetModeFailed)
        },
        Action::ModeList => {
            let modes = console.get_available_modes(drm);
            say_string(list_modes(&modes))
        },
        Action::ModeCurrent => match console.get_current_mode() {
            Some(m) => say_string(with_mode("Current mode: ", m)),
            None => say("No mode set"),
        },
        Action::ModeAuto => {
            let modes = console.get_available_modes(drm);
            if modes.len() > 0 {
                let m = modes[0];
                let out = console.set_mode(drm, m.0, m.1, m.2);
                report(out, with_mode("Auto-set mode to ", m), CommandError::AutoModeFailed)
            } else {
                refuse(CommandError::NoModes)
            }
        },
        Action::Help => say(HELP),
    }
}

/// What has to hold before a command is carried out: a console in order, ids
/// left for new objects, and a surface that is as reported.
pub open spec fn ready(
    a: DrmConsole,
    da: DrmContext,
    info: Option<BootFramebuffer>,
    surface: Seq<u32>,
) -> bool {
    &&& a.wf()
    &&& a.modes_ok()
    &&& da.ids.next + 5 <= u32::MAX
    &&& da.auth@.next_id < u32::MAX
    &&& da.magics.next < u32::MAX
    &&& boot_usable(info) ==> surface_ok(
        surface.len(),
        info->0.width as int,
        info->0.height as int,
        info->0.pitch as int,
    )
}

/// The console's commands.
pub struct ConsoleCommands;

/// What a command line does and how it is answered.
pub open spec fn commanded(
    a: DrmConsole,
    da: DrmContext,
    b: DrmConsole,
    db: DrmContext,
    info: Option<BootFramebuffer>,
    surface: Seq<u32>,
    line: Seq<char>,
    reply: CommandReply,
) -> bool {
    match asked(words(line)) {
        Ok(action) => performed(a, da, b, db, info, surface, action, reply),
        Err(e) => {
            &&& reply.text == Err::<String, CommandError>(e)
            &&& b == a
            &&& db == da
            &&& reply.copies@.len() == 0
        },
    }
}

impl ConsoleCommands {
    /// Reads a command line and carries it out.
    pub fn handle_command(
        console: &mut DrmConsole,
        drm: &mut DrmContext,
        info: Option<BootFramebuffer>,
        surface: Vec<u32>,
        command: &str,
    ) -> (reply: CommandReply)
        requires
            ready(*old(console), *old(drm), info, surface@),
        ensures
            final(console).wf(),
            mode_ok(final(console).current_mode) ==> final(console).modes_ok(),
            commanded(
                *old(console),
                *old(drm),
                *final(console),
                *final(drm),
                info,
                surface@,
                command@,
                reply,
            ),
    {
        match parse_command(command) {
            Ok(action) => perform(console, drm, info, surface, action),
            Err(e) => refuse(e),
        }
    }
}

/// Carries a command line out and gives the answer as text.
pub fn execute_console_command(
    console: &mut DrmConsole,
    drm: &mut DrmContext,
    info: Option<BootFramebuffer>,
    surface: Vec<u32>,
    command_line: &str,
) -> (r: (String, Vec<PlaneCopy>))
    requires
        ready(*old(console), *old(drm), info, surface@),
    ensures
        final(console).wf(),
        mode_ok(final(console).current_mode) ==> final(console).modes_ok(),
        exists|reply: CommandReply| #[trigger]
            commanded(
                *old(console),
                *old(drm),
                *final(console),
                *final(drm),
                info,
                surface@,
                command_line@,
                reply,
            ) && r.1 == reply.copies && r.0@ == answer(reply.text),
{
    let reply = ConsoleCommands::handle_command(console, drm, info, surface, command_line);
    match reply.text {
        Ok(text) => (text, reply.copies),
        Err(e) => {
            let mut text = "Error: ".to_owned();
            text.append(e.text());
            (text, reply.copies)
        },
    }
}

/// An answer as text: an error is marked as one.
pub open spec fn answer(text: Result<String, CommandError>) -> Seq<char> {
    match text {
        Ok(t) => t@,
        Err(e) => "Error: "@ + e.words()@,
    }
}

/// What a function key does and how it is answered: the first eight switch
/// terminals, the ninth takes the second of the modes, the tenth tells the
/// state.
pub open spec fn key_pressed(
    a: DrmConsole,
    da: DrmContext,
    b: DrmConsole,
    db: DrmContext,
    key_code: u8,
    reply: CommandReply,
) -> bool {
    let modes = available_modes(a, da);
    if 1 <= key_code <= 8 {
        exists|o: CommitOutcome| #[trigger]
            vt_switched(a, da, b, db, key_code - 1, o) && reply.reports(
                o,
                "Switched to VT "@ + decimal(key_code - 1),
                CommandError::SwitchVtFailed,
            )
    } else if key_code == 9 && modes.len() > 1 {
        exists|o: CommitOutcome| #[trigger]
            mode_set(a, da, b, db, modes[1].0, modes[1].1, modes[1].2, o) && reply.reports(
                o,
                "Switched to "@ + mode_label(modes[1]),
                CommandError::SwitchModeFailed,
            )
    } else if key_code == 10 {
        reply.only_says(
            a,
            da,
            b,
            db,
            if a.drm_enabled {
                "DRM: ON, VT: "@ + decimal(a.active_vt as int) + ", Mode: "@ + mode_or_none(
                    a.current_mode,
                )
            } else {
                "DRM: OFF (Legacy mode)"@
            },
        )
    } else {
        &&& reply.text == Err::<String, CommandError>(
            if key_code == 9 {
                CommandError::NoAlternateModes
            } else {
                CommandError::UnsupportedKey
            },
        )
        &&& b == a
        &&& db == da
        &&& reply.copies@.len() == 0
    }
}

/// Carries out what a function key stands for.
pub fn handle_function_key(console: &mut DrmConsole, drm: &mut DrmContext, key_code: u8) -> (reply:
    CommandReply)
    requires
        old(console).wf(),
        old(console).modes_ok(),
        old(drm).ids.next < u32::MAX,
    ensures
        final(console).wf(),
        mode_ok(final(console).current_mode) ==> final(console).modes_ok(),
        key_pressed(*old(console), *old(drm), *final(console), *final(drm), key_code, reply),
{
    if key_code >= 1 && key_code <= 8 {
        let vt_id = (key_code - 1) as usize;
        let out = console.switch_vt(drm, vt_id);
        return report(out, with_number("Switched to VT ", vt_id), CommandError::SwitchVtFailed);
    }
    if key_code == 9 {
        let modes = console.get_available_modes(drm);
        if modes.len() > 1 {
            let m = modes[1];
            let out = console.set_mode(drm, m.0, m.1, m.2);
            return report(out, with_mode("Switched to ", m), CommandError::SwitchModeFailed);
        }
        return refuse(CommandError::NoAlternateModes);
    }
    if key_code == 10 {
        if console.is_drm_enabled() {
            let mut text = with_number("DRM: ON, VT: ", console.get_active_vt());
            text.append(", Mode: ");
            match console.get_current_mode() {
                Some(m) => push_mode(&mut text, m),
                None => text.append("No mode set"),
            }
            return say_string(text);
        }
        return say("DRM: OFF (Legacy mode)");
    }
    refuse(CommandError::UnsupportedKey)
}

} // verus!
