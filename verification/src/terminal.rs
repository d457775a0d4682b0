//! Virtual terminals: grids of characters with a cursor.
use crate::drm::objects::DrmObjectId;
use vstd::prelude::*;

verus! {

/// Size of a character cell in pixels.
pub const CELL_WIDTH: usize = 8;

pub const CELL_HEIGHT: usize = 16;

/// The colour of text.
pub const TEXT_COLOR: u32 = 0xFFFFFF;

/// Distance of tab stops.
pub const TAB_STOP: usize = 8;

/// A terminal: its grid of characters and of colours, and its cursor.
#[derive(Debug)]
pub struct VirtualTerminal {
    pub id: u32,
    pub active: bool,
    pub framebuffer_id: Option<DrmObjectId>,
    /// Width, height and refresh rate, where the terminal has a mode.
    pub mode: Option<(u32, u32, u32)>,
    pub cursor_x: usize,
    pub cursor_y: usize,
    pub char_buffer: Vec<Vec<u8>>,
    pub color_buffer: Vec<Vec<u32>>,
    /// Whether the grid has changed since it was last shown.
    pub dirty: bool,
}

/// A terminal's grid and cursor as values.
#[verifier::ext_equal]
pub struct Terminal {
    pub chars: Seq<Seq<u8>>,
    pub colors: Seq<Seq<u32>>,
    pub cursor_x: int,
    pub cursor_y: int,
    pub dirty: bool,
}

/// A grid with every cell the same.
pub open spec fn uniform<T>(rows: int, cols: int, v: T) -> Seq<Seq<T>> {
    Seq::new(rows as nat, |y: int| Seq::new(cols as nat, |x: int| v))
}

/// Every row has the same length.
pub open spec fn even<T>(grid: Seq<Seq<T>>, cols: int) -> bool {
    forall|y: int| 0 <= y < grid.len() ==> (#[trigger] grid[y]).len() == cols
}

/// The grid moved up by one row, with `blank` in the last one.
pub open spec fn shifted<T>(grid: Seq<Seq<T>>, cols: int, blank: T) -> Seq<Seq<T>> {
    Seq::new(
        grid.len(),
        |y: int|
            if y + 1 < grid.len() {
                grid[y + 1]
            } else {
                Seq::new(cols as nat, |x: int| blank)
            },
    )
}

impl Terminal {
    pub open spec fn rows(self) -> int {
        self.chars.len() as int
    }

    /// The columns, as the first row has them.
    pub open spec fn cols(self) -> int {
        if self.chars.len() > 0 {
            self.chars[0].len() as int
        } else {
            0
        }
    }

    /// The grid is a rectangle, of characters and of colours alike.
    pub open spec fn wf(self) -> bool {
        &&& self.cols() <= usize::MAX / 8
        &&& self.rows() <= usize::MAX / 16
        &&& self.colors.len() == self.chars.len()
        &&& even(self.chars, self.cols())
        &&& even(self.colors, self.cols())
        &&& 0 <= self.cursor_x < usize::MAX / 8
        &&& 0 <= self.cursor_y < usize::MAX / 16
    }

    /// The cursor is on a cell.
    pub open spec fn cursor_in_grid(self) -> bool {
        self.cursor_x < self.cols() && self.cursor_y < self.rows()
    }

    /// A cell set, where the grid has it.
    pub open spec fn write_char(self, x: int, y: int, c: u8, color: u32) -> Terminal {
        if 0 <= y < self.rows() && 0 <= x < self.chars[y].len() {
            Terminal {
                chars: self.chars.update(y, self.chars[y].update(x, c)),
                colors: self.colors.update(y, self.colors[y].update(x, color)),
                dirty: true,
                ..self
            }
        } else {
            self
        }
    }

    pub open spec fn clear(self, color: u32) -> Terminal {
        Terminal {
            chars: uniform(self.rows(), self.cols(), 0x20),
            colors: uniform(self.rows(), self.cols(), color),
            cursor_x: 0,
            cursor_y: 0,
            dirty: true,
        }
    }

    pub open spec fn scroll_up(self) -> Terminal {
        Terminal {
            chars: shifted(self.chars, self.cols(), 0x20),
            colors: shifted(self.colors, self.cols(), TEXT_COLOR),
            dirty: true,
            ..self
        }
    }

    /// The cursor at the start of the next line; the text moves up where that
    /// would be below the grid.
    pub open spec fn new_line(self) -> Terminal {
        if self.cursor_y + 1 >= self.rows() {
            Terminal { cursor_x: 0, cursor_y: self.rows() - 1, ..self.scroll_up() }
        } else {
            Terminal { cursor_x: 0, cursor_y: self.cursor_y + 1, ..self }
        }
    }

    /// The cursor on the next line where it has run off this one.
    pub open spec fn wrapped(self) -> Terminal {
        if self.cursor_x >= self.cols() {
            self.new_line()
        } else {
            self
        }
    }

    /// One byte of output: printable characters, line feed, carriage return,
    /// tab and backspace. Other bytes change nothing.
    pub open spec fn put(self, c: u8) -> Terminal {
        let t = if c == 0x0a {
            self.new_line()
        } else if c == 0x0d {
            Terminal { cursor_x: 0, ..self }
        } else if c == 0x09 {
            Terminal {
                cursor_x: (self.cursor_x + TAB_STOP) / 8 * 8,
                ..self
            }.wrapped()
        } else if c == 0x08 {
            if self.cursor_x > 0 {
                Terminal { cursor_x: self.cursor_x - 1, ..self }.write_char(
                    self.cursor_x - 1,
                    self.cursor_y,
                    0x20,
                    TEXT_COLOR,
                )
            } else {
                self
            }
        } else if 0x20 <= c <= 0x7e {
            let drawn = self.write_char(self.cursor_x, self.cursor_y, c, TEXT_COLOR);
            Terminal { cursor_x: drawn.cursor_x + 1, ..drawn }.wrapped()
        } else {
            self
        };
        Terminal { dirty: true, ..t }
    }

    /// A run of output.
    pub open spec fn puts(self, bytes: Seq<u8>) -> Terminal
        decreases bytes.len(),
    {
        if bytes.len() == 0 {
            self
        } else {
            self.puts(bytes.drop_last()).put(bytes.last())
        }
    }
}

/// A grid of `rows` rows of `cols` cells.
fn filled<T: Copy>(rows: usize, cols: usize, v: T) -> (grid: Vec<Vec<T>>)
    ensures
        grid@.map_values(|r: Vec<T>| r@) == uniform(rows as int, cols as int, v),
{
    let mut grid: Vec<Vec<T>> = Vec::new();
    let mut y: usize = 0;
    while y < rows
        invariant
            y <= rows,
            grid@.len() == y,
            forall|k: int|
                0 <= k < y ==> (#[trigger] grid@[k])@ == Seq::new(cols as nat, |x: int| v),
        decreases rows - y,
    {
        let row = filled_row(cols, v);
        grid.push(row);
        y = y + 1;
    }
    assert(grid@.map_values(|r: Vec<T>| r@) =~= uniform(rows as int, cols as int, v));
    grid
}

/// A row of `cols` cells.
fn filled_row<T: Copy>(cols: usize, v: T) -> (row: Vec<T>)
    ensures
        row@ == Seq::new(cols as nat, |x: int| v),
{
    let mut row: Vec<T> = Vec::new();
    let mut x: usize = 0;
    while x < cols
        invariant
            x <= cols,
            row@.len() == x,
            forall|k: int| 0 <= k < x ==> #[trigger] row@[k] == v,
        decreases cols - x,
    {
        row.push(v);
        x = x + 1;
    }
    assert(row@ =~= Seq::new(cols as nat, |x: int| v));
    row
}

impl View for VirtualTerminal {
    type V = Terminal;

    open spec fn view(&self) -> Terminal {
        Terminal {
            chars: self.char_buffer@.map_values(|r: Vec<u8>| r@),
            colors: self.color_buffer@.map_values(|r: Vec<u32>| r@),
            cursor_x: self.cursor_x as int,
            cursor_y: self.cursor_y as int,
            dirty: self.dirty,
        }
    }
}

impl VirtualTerminal {
    /// Everything but the grid and the cursor is the same.
    pub open spec fn same_terminal(&self, other: &VirtualTerminal) -> bool {
        &&& self.id == other.id
        &&& self.active == other.active
        &&& self.framebuffer_id == other.framebuffer_id
        &&& self.mode == other.mode
    }

    /// A terminal of the given size in pixels: empty, and to be shown.
    pub fn new(id: u32, width: usize, height: usize) -> (t: VirtualTerminal)
        ensures
            t@.wf(),
            t@ == (Terminal {
                chars: uniform(height as int / 16, width as int / 8, 0x20),
                colors: uniform(height as int / 16, width as int / 8, TEXT_COLOR),
                cursor_x: 0,
                cursor_y: 0,
                dirty: true,
            }),
            16 * t@.rows() <= height < 16 * t@.rows() + 16,
            height >= 16 ==> 8 * t@.cols() <= width < 8 * t@.cols() + 8,
            t.id == id,
            !t.active,
            t.framebuffer_id is None,
            t.mode is None,
    {
        let rows = height / CELL_HEIGHT;
        let cols = width / CELL_WIDTH;
        let t = VirtualTerminal {
            id,
            active: false,
            framebuffer_id: None,
            mode: None,
            cursor_x: 0,
            cursor_y: 0,
            char_buffer: filled(rows, cols, 0x20u8),
            color_buffer: filled(rows, cols, TEXT_COLOR),
            dirty: true,
        };
        t
    }

    fn columns(&self) -> (n: usize)
        requires
            self@.wf(),
        ensures
            n == self@.cols(),
    {
        if self.char_buffer.len() > 0 {
            assert(self@.chars[0] == self.char_buffer@[0]@);
            self.char_buffer[0].len()
        } else {
            0
        }
    }

    /// Sets a cell, where the grid has it.
    pub fn write_char(&mut self, x: usize, y: usize, c: u8, color: u32)
        requires
            old(self)@.wf(),
        ensures
            final(self)@.wf(),
            final(self)@ == old(self)@.write_char(x as int, y as int, c, color),
            final(self).same_terminal(old(self)),
    {
        let cols = self.columns();
        if y < self.char_buffer.len() && x < cols {
            let ghost before = self@;
            assert(before.chars[y as int].len() == cols && before.colors[y as int].len() == cols);
            self.char_buffer[y].set(x, c);
            self.color_buffer[y].set(x, color);
            self.dirty = true;
            assert(self@ =~= before.write_char(x as int, y as int, c, color));
            assert(self@.cols() == before.cols());
        } else {
            assert(y < self@.rows() ==> self@.chars[y as int].len() == cols);
        }
    }

    /// Empties the grid, in one colour, and homes the cursor.
    pub fn clear(&mut self, color: u32)
        requires
            old(self)@.wf(),
        ensures
            final(self)@.wf(),
            final(self)@ == old(self)@.clear(color),
            final(self).same_terminal(old(self)),
    {
        let cols = self.columns();
        let rows = self.char_buffer.len();
        self.char_buffer = filled(rows, cols, 0x20u8);
        self.color_buffer = filled(rows, cols, color);
        self.cursor_x = 0;
        self.cursor_y = 0;
        self.dirty = true;
        assert(self@ =~= old(self)@.clear(color));
    }

    /// Moves the text up by one line.
    pub fn scroll_up(&mut self)
        requires
            old(self)@.wf(),
        ensures
            final(self)@.wf(),
            final(self)@.rows() == old(self)@.rows(),
            final(self)@.cols() == old(self)@.cols(),
            final(self)@ == old(self)@.scroll_up(),
            final(self).same_terminal(old(self)),
    {
        let cols = self.columns();
        let ghost before = self@;
        if self.char_buffer.len() > 0 {
            let _ = self.char_buffer.remove(0);
            let _ = self.color_buffer.remove(0);
            self.char_buffer.push(filled_row(cols, 0x20u8));
            self.color_buffer.push(filled_row(cols, TEXT_COLOR));
        }
        self.dirty = true;
        assert(self@.chars =~= before.scroll_up().chars);
        assert(self@.colors =~= before.scroll_up().colors);
        assert(self@ =~= before.scroll_up());
        proof {
            if before.rows() > 1 {
                assert(before.chars[1].len() == before.cols());
            }
        }
    }

    /// Moves the cursor to the start of the next line.
    fn new_line(&mut self)
        requires
            old(self)@.wf(),
            old(self)@.rows() > 0,
        ensures
            final(self)@.wf(),
            final(self)@.rows() == old(self)@.rows(),
            final(self)@.cols() == old(self)@.cols(),
            final(self)@ == old(self)@.new_line(),
            final(self).same_terminal(old(self)),
    {
        let rows = self.char_buffer.len();
        let y = self.cursor_y;
        if y + 1 >= rows {
            self.scroll_up();
            self.cursor_x = 0;
            self.cursor_y = rows - 1;
        } else {
            self.cursor_x = 0;
            self.cursor_y = y + 1;
        }
        assert(self@ =~= old(self)@.new_line());
    }

    /// Takes one byte of output.
    pub fn put(&mut self, c: u8)
        requires
            old(self)@.wf(),
            old(self)@.rows() > 0,
        ensures
            final(self)@.wf(),
            final(self)@.rows() == old(self)@.rows(),
            final(self)@.cols() == old(self)@.cols(),
            final(self)@ == old(self)@.put(c),
            final(self).same_terminal(old(self)),
    {
        let cols = self.columns();
        let ghost before = self@;
        match c {
            0x0a => self.new_line(),
            0x0d => self.cursor_x = 0,
            0x09 => {
                self.cursor_x = (self.cursor_x + TAB_STOP) / 8 * 8;
                if self.cursor_x >= cols {
                    let ghost moved = self@;
                    self.cursor_x = 0;
                    self.new_line();
                    assert(self@ =~= moved.new_line());
                }
            },
            0x08 => {
                if self.cursor_x > 0 {
                    self.cursor_x = self.cursor_x - 1;
                    let x = self.cursor_x;
                    let y = self.cursor_y;
                    self.write_char(x, y, 0x20, TEXT_COLOR);
                }
            },
            _ => {
                if c >= 0x20 && c <= 0x7e {
                    let x = self.cursor_x;
                    let y = self.cursor_y;
                    self.write_char(x, y, c, TEXT_COLOR);
                    let ghost drawn = self@;
                    assert(drawn.cols() == before.cols());
                    if x + 1 >= cols {
                        self.new_line();
                        assert(self@ =~= Terminal { cursor_x: x + 1, ..drawn }.new_line());
                    } else {
                        self.cursor_x = x + 1;
                    }
                }
            },
        }
        self.dirty = true;
        assert(self@ =~= before.put(c));
    }

    /// Gives the terminal an empty grid of another size, and its mode. The
    /// cursor stays.
    pub fn resize(&mut self, width: u32, height: u32, refresh: u32)
        requires
            old(self)@.wf(),
        ensures
            final(self)@.wf(),
            final(self)@ == (Terminal {
                chars: uniform(height as int / 16, width as int / 8, 0x20),
                colors: uniform(height as int / 16, width as int / 8, TEXT_COLOR),
                dirty: true,
                ..old(self)@
            }),
            final(self).mode == Some((width, height, refresh)),
            final(self).id == old(self).id,
            final(self).active == old(self).active,
            final(self).framebuffer_id == old(self).framebuffer_id,
    {
        let rows = height as usize / CELL_HEIGHT;
        let cols = width as usize / CELL_WIDTH;
        self.char_buffer = filled(rows, cols, 0x20u8);
        self.color_buffer = filled(rows, cols, TEXT_COLOR);
        self.mode = Some((width, height, refresh));
        self.dirty = true;
    }
}

/// A cursor on the grid stays on it, and the grid keeps its shape, whatever is
/// written.
pub proof fn lemma_cursor_stays_in_grid(t: Terminal, c: u8)
    requires
        t.wf(),
        t.cursor_in_grid(),
    ensures
        t.put(c).wf(),
        t.put(c).rows() == t.rows(),
        t.put(c).cols() == t.cols(),
        t.put(c).cursor_in_grid(),
{
    assert(t.chars[t.cursor_y].len() == t.cols());
    if t.rows() > 1 {
        assert(t.chars[1].len() == t.cols());
    }
}

/// A cursor that a change of size left outside the grid is brought back by the
/// next line feed.
pub proof fn lemma_line_feed_brings_back(t: Terminal)
    requires
        t.wf(),
        t.rows() > 0,
        t.cols() > 0,
    ensures
        t.put(0x0a).cursor_in_grid(),
{
    if t.rows() > 1 {
        assert(t.chars[1].len() == t.cols());
    }
}

} // verus!
