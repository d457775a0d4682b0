//! The cursor that a program saves, and what gives it back.
use crate::screen::{is_private, EscState, Screen};
use vstd::prelude::*;

verus! {

/// The cursor that was saved comes back: CSI u puts it where it was at CSI s, and
/// ESC 8 where it was at ESC 7, if nothing was saved in between. What is saved
/// stays saved.
pub proof fn lemma_restore_brings_back(s: Screen, t: Screen, params: Seq<u8>, again: Seq<u8>)
    requires
        s.cols() > 0 && s.rows() > 0,
        t.cols() > 0 && t.rows() > 0,
        !is_private(params) && !is_private(again),
    ensures
        ({
            let kept = s.control(params, 0x73).saved;
            let back = t.control(again, 0x75);
            t.saved == kept ==> {
                &&& (back.cursor_x, back.cursor_y) == (s.cursor_x, s.cursor_y)
                &&& back.saved == kept
            }
        }),
        ({
            let kept = s.escape(0x37).saved;
            let back = t.escape(0x38);
            t.saved == kept ==> {
                &&& (back.cursor_x, back.cursor_y) == (s.cursor_x, s.cursor_y)
                &&& back.saved == kept
            }
        }),
{
}

/// The byte `c` saves the cursor.
pub open spec fn saves(s: Screen, c: u8) -> bool {
    s.esc == EscState::Esc && c == 0x37 || s.esc == EscState::Csi && c == 0x73
}

/// Nothing that is written changes the saved cursor, but for ESC 7 and CSI s.
pub proof fn lemma_only_saving_changes_what_is_saved(s: Screen, c: u8)
    requires
        !saves(s, c),
    ensures
        s.putc(c).saved == s.saved,
{
}

/// What a program writes between saving the cursor and restoring it does not
/// matter, if it saves nothing itself: the cursor comes back to where it was.
pub proof fn lemma_output_between_save_and_restore(s: Screen, bytes: Seq<u8>)
    requires
        s.ready && s.esc == EscState::Ground,
        s.cols() > 0 && s.rows() > 0,
        ({
            let kept = s.putc(0x1b).putc(0x5b).putc(0x73);
            let moved = kept.puts(bytes);
            &&& moved.ready && moved.esc == EscState::Ground
            &&& moved.cols() > 0 && moved.rows() > 0
            &&& forall|i: int|
                0 <= i < bytes.len() ==> !saves(kept.puts(bytes.take(i)), #[trigger] bytes[i])
        }),
    ensures
        ({
            let moved = s.putc(0x1b).putc(0x5b).putc(0x73).puts(bytes);
            let back = moved.putc(0x1b).putc(0x5b).putc(0x75);
            (back.cursor_x, back.cursor_y) == (s.cursor_x, s.cursor_y)
        }),
{
    let kept = s.putc(0x1b).putc(0x5b).putc(0x73);
    let moved = kept.puts(bytes);
    lemma_save(s);
    lemma_saved_through(kept, bytes);
    lemma_restore(moved);
}

/// CSI s saves the cursor.
proof fn lemma_save(s: Screen)
    requires
        s.ready && s.esc == EscState::Ground,
        s.cols() > 0 && s.rows() > 0,
    ensures
        s.putc(0x1b).putc(0x5b).putc(0x73).saved == (s.cursor_x, s.cursor_y),
{
    let opened = lemma_opened(s);
    let ground = Screen { esc: EscState::Ground, ..opened };
    assert(opened.putc(0x73) == ground.control(Seq::empty(), 0x73));
}

/// CSI u restores the cursor.
proof fn lemma_restore(s: Screen)
    requires
        s.ready && s.esc == EscState::Ground,
        s.cols() > 0 && s.rows() > 0,
    ensures
        ({
            let back = s.putc(0x1b).putc(0x5b).putc(0x75);
            (back.cursor_x, back.cursor_y) == s.saved
        }),
{
    let opened = lemma_opened(s);
    let ground = Screen { esc: EscState::Ground, ..opened };
    assert(opened.putc(0x75) == ground.control(Seq::empty(), 0x75));
}

/// ESC and a bracket open a control sequence.
proof fn lemma_opened(s: Screen) -> (opened: Screen)
    requires
        s.ready && s.esc == EscState::Ground,
    ensures
        opened == s.putc(0x1b).putc(0x5b),
        opened == (Screen { esc: EscState::Csi, params: Seq::empty(), ..s }),
{
    let esc = Screen { esc: EscState::Esc, params: Seq::empty(), ..s };
    assert(s.putc(0x1b) == esc);
    assert(esc.putc(0x5b) == esc.escape(0x5b));
    esc.putc(0x5b)
}

proof fn lemma_saved_through(s: Screen, bytes: Seq<u8>)
    requires
        forall|i: int| 0 <= i < bytes.len() ==> !saves(s.puts(bytes.take(i)), #[trigger] bytes[i]),
    ensures
        s.puts(bytes).saved == s.saved,
    decreases bytes.len(),
{
    if bytes.len() > 0 {
        let rest = bytes.drop_last();
        assert forall|i: int| 0 <= i < rest.len() implies !saves(
            s.puts(rest.take(i)),
            #[trigger] rest[i],
        ) by {
            assert(rest.take(i) =~= bytes.take(i));
            assert(!saves(s.puts(bytes.take(i)), bytes[i]));
        }
        lemma_saved_through(s, rest);
        assert(bytes.take(bytes.len() - 1) =~= rest);
        assert(!saves(s.puts(bytes.take(bytes.len() - 1)), bytes[bytes.len() - 1]));
        lemma_only_saving_changes_what_is_saved(s.puts(rest), bytes.last());
    }
}

} // verus!
