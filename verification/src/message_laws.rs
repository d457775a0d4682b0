//! What the messages, keys, sequences and commands of the console come to.
use crate::bytes::{le32, lemma_read_of_write32, u32_at};
use crate::console_commands::{asked, key_pressed, Action, CommandError, CommandReply};
use crate::drm::device::CommitOutcome;
use crate::drm_console::{
    controlled, handled, mode_bytes, resized, updated, vt_switched, written, DrmConsole, DrmContext,
};
use crate::message::{padded, Message};
use crate::terminal::VirtualTerminal;
use crate::terminal_laws::shows;
use crate::words::{decimal, lemma_decimal_reads_back};
use vstd::prelude::*;

verus! {

/// Bringing the display up to date changes neither which terminal is active nor the
/// text of any.
proof fn lemma_update_keeps_the_text(
    a: DrmConsole,
    da: DrmContext,
    b: DrmConsole,
    db: DrmContext,
    out: CommitOutcome,
)
    requires
        updated(a, da, b, db, out),
        a.active_vt < a.virtual_terminals@.len(),
    ensures
        b.active_vt == a.active_vt,
        b.virtual_terminals@.len() == a.virtual_terminals@.len(),
        b.current_mode == a.current_mode,
        b.active()@.chars == a.active()@.chars,
        b.active()@.colors == a.active()@.colors,
        b.active()@.cursor_x == a.active()@.cursor_x,
        b.active()@.cursor_y == a.active()@.cursor_y,
{
}

/// A switch to a terminal that there is makes it the active one; any other switch
/// changes nothing.
pub proof fn lemma_a_switch_makes_active(
    a: DrmConsole,
    da: DrmContext,
    b: DrmConsole,
    db: DrmContext,
    n: int,
    out: CommitOutcome,
)
    requires
        vt_switched(a, da, b, db, n, out),
        0 <= n,
        a.active_vt < a.virtual_terminals@.len(),
    ensures
        n < a.virtual_terminals@.len() ==> b.active_vt == n && b.virtual_terminals@.len()
            == a.virtual_terminals@.len(),
        n >= a.virtual_terminals@.len() ==> b == a && db == da && out.result is Err,
{
    if n < a.virtual_terminals@.len() && a.drm_enabled {
        let c = choose|c: DrmConsole| #[trigger]
            crate::drm_console::switched(a, c, n) && updated(c, da, b, db, out);
        lemma_update_keeps_the_text(c, da, b, db, out);
    }
}

/// What is written goes to the active terminal, byte by byte, and to no other place.
pub proof fn lemma_what_is_written_is_in_the_terminal(
    a: DrmConsole,
    da: DrmContext,
    b: DrmConsole,
    db: DrmContext,
    bytes: Seq<u8>,
    out: CommitOutcome,
)
    requires
        written(a, da, b, db, bytes, out),
        a.active_vt < a.virtual_terminals@.len(),
    ensures
        ({
            let t = a.active()@.puts(bytes);
            &&& b.active_vt == a.active_vt
            &&& b.active()@.chars == t.chars
            &&& b.active()@.colors == t.colors
            &&& b.active()@.cursor_x == t.cursor_x
            &&& b.active()@.cursor_y == t.cursor_y
        }),
{
    let c = choose|c: DrmConsole| #[trigger]
        crate::drm_console::active_became(a, c, a.active()@.puts(bytes)) && updated(
            c,
            da,
            b,
            db,
            out,
        );
    lemma_update_keeps_the_text(c, da, b, db, out);
}

/// Message 2 switches to the terminal whose number is its first byte, counted from
/// zero.
pub proof fn lemma_a_message_switches(
    a: DrmConsole,
    da: DrmContext,
    b: DrmConsole,
    db: DrmContext,
    msg: Message,
    reply: Message,
    copies: Seq<crate::drm::device::PlaneCopy>,
)
    requires
        handled(a, da, b, db, msg, reply, copies),
        a.active_vt < a.virtual_terminals@.len(),
        msg.tag == 2,
    ensures
        msg.data@[0] < a.virtual_terminals@.len() ==> b.active_vt == msg.data@[0],
        msg.data@[0] >= a.virtual_terminals@.len() ==> b == a,
{
    let o = choose|o: CommitOutcome| #[trigger]
        vt_switched(a, da, b, db, msg.data@[0] as int, o) && o.copies@ == copies;
    lemma_a_switch_makes_active(a, da, b, db, msg.data@[0] as int, o);
}

/// Message 4 is answered with the mode that the console has: its width, its height
/// and its rate, or zeros if it has none.
pub proof fn lemma_a_message_tells_the_mode(
    a: DrmConsole,
    da: DrmContext,
    b: DrmConsole,
    db: DrmContext,
    msg: Message,
    reply: Message,
    copies: Seq<crate::drm::device::PlaneCopy>,
)
    requires
        handled(a, da, b, db, msg, reply, copies),
        msg.tag == 4,
    ensures
        b == a,
        a.current_mode matches Some(m) ==> {
            &&& u32_at(reply.data@, 0) == m.0
            &&& u32_at(reply.data@, 4) == m.1
            &&& u32_at(reply.data@, 8) == m.2
        },
        a.current_mode is None ==> u32_at(reply.data@, 0) == 0 && u32_at(reply.data@, 4) == 0
            && u32_at(reply.data@, 8) == 0,
{
    if let Some(m) = a.current_mode {
        let (x, y, z) = (le32(m.0), le32(m.1), le32(m.2));
        let none = Seq::<u8>::empty();
        let all = mode_bytes(m);
        assert(all =~= none + x + (y + z));
        lemma_read_of_write32(m.0, none, y + z);
        assert(all =~= x + y + z);
        lemma_read_of_write32(m.1, x, z);
        assert(all =~= (x + y) + z + none);
        lemma_read_of_write32(m.2, x + y, none);
        assert forall|i: int| 0 <= i < 12 implies #[trigger] padded(all)[i] == all[i] by {}
        let r = reply.data@;
        assert(r[0] == all[0] && r[1] == all[1] && r[2] == all[2] && r[3] == all[3] && r[4] == all[4]
            && r[5] == all[5] && r[6] == all[6] && r[7] == all[7] && r[8] == all[8] && r[9]
            == all[9] && r[10] == all[10] && r[11] == all[11]);
    }
}

/// Message 3 asks for the mode that it names by three numbers: the console then has
/// that mode, or is as it was.
pub proof fn lemma_a_message_sets_the_mode(
    a: DrmConsole,
    da: DrmContext,
    b: DrmConsole,
    db: DrmContext,
    msg: Message,
    reply: Message,
    copies: Seq<crate::drm::device::PlaneCopy>,
)
    requires
        handled(a, da, b, db, msg, reply, copies),
        msg.tag == 3,
    ensures
        b == a || b.current_mode == Some(
            (u32_at(msg.data@, 0), u32_at(msg.data@, 4), u32_at(msg.data@, 8)),
        ),
        !a.drm_enabled ==> b == a,
{
}

/// A terminal that follows a mode has as many rows and columns of 8 by 16 pixels as fit
/// into it, all of them blank in the colour of text.
pub proof fn lemma_a_terminal_follows_the_mode(
    a: VirtualTerminal,
    b: VirtualTerminal,
    width: u32,
    height: u32,
    refresh: u32,
)
    requires
        resized(a, b, width, height, refresh),
        height >= 16,
    ensures
        16 * b@.rows() <= height < 16 * b@.rows() + 16,
        8 * b@.cols() <= width < 8 * b@.cols() + 8,
        forall|x: int, y: int|
            0 <= x < b@.cols() && 0 <= y < b@.rows() ==> #[trigger] shows(
                b@,
                x,
                y,
                0x20,
                0xFFFFFF,
            ),
        b.mode == Some((width, height, refresh)),
{
    assert(b@.chars[0].len() == width as int / 8);
}

/// A sequence of a bracket and a digit switches to the terminal with that number,
/// counted from one; `[H` goes to the first cell and leaves the text; `[2J` blanks every
/// cell and goes there too.
pub proof fn lemma_what_a_sequence_does(
    a: DrmConsole,
    da: DrmContext,
    b: DrmConsole,
    db: DrmContext,
    s: Seq<u8>,
    out: CommitOutcome,
)
    requires
        controlled(a, da, b, db, s, out),
        a.active_vt < a.virtual_terminals@.len(),
        a.active()@.wf(),
    ensures
        forall|n: u8|
            1 <= n <= 9 && s == seq![0x5bu8, (0x30 + n) as u8] && n <= a.virtual_terminals@.len()
                ==> b.active_vt == #[trigger] (n - 1),
        s == seq![0x5bu8, 0x48u8] ==> {
            &&& b.active()@.chars == a.active()@.chars
            &&& b.active()@.cursor_x == 0
            &&& b.active()@.cursor_y == 0
        },
        s == seq![0x5bu8, 0x32u8, 0x4au8] ==> {
            &&& forall|x: int, y: int|
                0 <= x < a.active()@.cols() && 0 <= y < a.active()@.rows() ==> (
                #[trigger] b.active()@.chars[y][x]) == 0x20
            &&& b.active()@.cursor_x == 0
            &&& b.active()@.cursor_y == 0
        },
{
    assert(seq![0x5bu8, 0x48u8].len() == 2 && seq![0x5bu8, 0x32u8, 0x4au8].len() == 3);
    if s.len() == 2 && s[0] == 0x5b && 0x31 <= s[1] <= 0x39 {
        assert(s[1] != 0x48);
        assert(s != seq![0x5bu8, 0x48u8]) by {
            assert(seq![0x5bu8, 0x48u8][1] == 0x48u8);
        }
        let o = choose|o: CommitOutcome| #[trigger]
            vt_switched(a, da, b, db, s[1] - 0x31, o) && o.copies == out.copies;
        lemma_a_switch_makes_active(a, da, b, db, s[1] - 0x31, o);
    }
    assert forall|n: u8|
        1 <= n <= 9 && s == seq![0x5bu8, (0x30 + n) as u8] && n
            <= a.virtual_terminals@.len() implies b.active_vt == #[trigger] (n - 1) by {
        assert(s.len() == 2 && s[0] == 0x5b && s[1] == 0x30 + n);
    }
}

/// The first eight function keys switch to the terminals in order.
pub proof fn lemma_function_keys_switch(
    a: DrmConsole,
    da: DrmContext,
    b: DrmConsole,
    db: DrmContext,
    key: u8,
    reply: CommandReply,
)
    requires
        key_pressed(a, da, b, db, key, reply),
        1 <= key <= 8,
        a.active_vt < a.virtual_terminals@.len(),
    ensures
        key <= a.virtual_terminals@.len() ==> b.active_vt == key - 1,
        key > a.virtual_terminals@.len() ==> b == a,
{
    let o = choose|o: CommitOutcome| #[trigger]
        vt_switched(a, da, b, db, key - 1, o) && reply.reports(
            o,
            "Switched to VT "@ + decimal(key - 1),
            CommandError::SwitchVtFailed,
        );
    lemma_a_switch_makes_active(a, da, b, db, key - 1, o);
}

/// `vt switch n` asks for terminal `n`, and `mode set` for the mode that is named.
pub proof fn lemma_commands_with_numbers(n: usize, w: u32, h: u32, r: u32)
    ensures
        asked(seq!["vt"@, "switch"@, decimal(n as int)]) == Ok::<Action, CommandError>(
            Action::VtSwitch(n),
        ),
        asked(
            seq![
                "mode"@,
                "set"@,
                decimal(w as int) + seq!['x'] + decimal(h as int) + seq!['@'] + decimal(r as int),
            ],
        ) == Ok::<Action, CommandError>(Action::ModeSet(w, h, r)),
{
    lemma_words_differ();
    lemma_decimal_reads_back(n as int, usize::MAX as int);
    crate::command_laws::lemma_a_mode_is_named(w, h, r);
}

/// The words of commands are different words.
proof fn lemma_words_differ()
    ensures
        "vt"@ != "drm"@,
        "mode"@ != "drm"@,
        "mode"@ != "vt"@,
        "help"@ != "drm"@,
        "help"@ != "vt"@,
        "help"@ != "mode"@,
        "status"@ != "init"@,
        "status"@ != "reset"@,
        "init"@ != "reset"@,
        "switch"@ != "list"@,
        "switch"@ != "current"@,
        "list"@ != "current"@,
        "set"@ != "list"@,
        "set"@ != "current"@,
        "set"@ != "auto"@,
        "list"@ != "auto"@,
        "current"@ != "auto"@,
{
    reveal_strlit("vt");
    reveal_strlit("drm");
    reveal_strlit("mode");
    reveal_strlit("help");
    reveal_strlit("status");
    reveal_strlit("init");
    reveal_strlit("reset");
    reveal_strlit("switch");
    reveal_strlit("list");
    reveal_strlit("current");
    reveal_strlit("set");
    reveal_strlit("auto");
    assert("vt"@[0] == 'v' && "drm"@[0] == 'd' && "mode"@[0] == 'm' && "help"@[0] == 'h');
    assert("status"@[0] == 's' && "init"@[0] == 'i' && "reset"@[0] == 'r');
    assert("switch"@[0] == 's' && "set"@[0] == 's' && "list"@[0] == 'l' && "current"@[0] == 'c'
        && "auto"@[0] == 'a');
}

/// The commands for the device, each by its words; the word alone asks for help with
/// it.
pub proof fn lemma_device_commands()
    ensures
        asked(seq!["help"@]) == Ok::<Action, CommandError>(Action::Help),
        asked(seq!["drm"@]) == Ok::<Action, CommandError>(Action::DrmHelp),
        asked(seq!["drm"@, "status"@]) == Ok::<Action, CommandError>(Action::DrmStatus),
        asked(seq!["drm"@, "init"@]) == Ok::<Action, CommandError>(Action::DrmInit),
        asked(seq!["drm"@, "reset"@]) == Ok::<Action, CommandError>(Action::DrmReset),
{
    lemma_words_differ();
}

/// The commands for terminals without a number, each by its words.
pub proof fn lemma_terminal_commands()
    ensures
        asked(seq!["vt"@]) == Ok::<Action, CommandError>(Action::VtHelp),
        asked(seq!["vt"@, "list"@]) == Ok::<Action, CommandError>(Action::VtList),
        asked(seq!["vt"@, "current"@]) == Ok::<Action, CommandError>(Action::VtCurrent),
{
    lemma_words_differ();
}

/// The commands for modes without a number, each by its words.
pub proof fn lemma_mode_commands()
    ensures
        asked(seq!["mode"@]) == Ok::<Action, CommandError>(Action::ModeHelp),
        asked(seq!["mode"@, "list"@]) == Ok::<Action, CommandError>(Action::ModeList),
        asked(seq!["mode"@, "current"@]) == Ok::<Action, CommandError>(Action::ModeCurrent),
        asked(seq!["mode"@, "auto"@]) == Ok::<Action, CommandError>(Action::ModeAuto),
{
    lemma_words_differ();
}

} // verus!
