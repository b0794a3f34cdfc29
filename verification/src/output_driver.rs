//! The output driver: cursor state, attribute state, glyph writes into
//! the grid, line wrapping and scrolling.

use vstd::prelude::*;
use vstd::string::StringSliceAdditionalSpecFns;

use crate::cell::Character;
use crate::cell::cell_code;
use crate::screen::BUFFER_HEIGHT;
use crate::screen::BUFFER_WIDTH;
use crate::screen::Buffer;
use crate::visuals::Visuals;
use crate::visuals::default_visuals;
use crate::visuals::visuals_code;

verus! {

/// The mathematical state of the driver: the grid's packed cells in
/// row-major order, the cursor, and the attribute byte under which new
/// cells are written.
#[verifier::ext_equal]
pub ghost struct DriverState {
    pub cells: Seq<u16>,
    pub row: int,
    pub col: int,
    pub attr: u8,
}

/// A well-formed driver state: a full grid and a cursor in bounds.
pub open spec fn wf_state(s: DriverState) -> bool {
    &&& s.cells.len() == 2000
    &&& 0 <= s.row < 25
    &&& 0 <= s.col < 80
}

/// The row-major index of the cell at `row`, `col`.
pub open spec fn cell_index(row: int, col: int) -> int {
    row * 80 + col
}

/// Whether the hardware renders a byte as itself: the printable ASCII
/// range 0x20 to 0x7E.
pub open spec fn printable(b: u8) -> bool {
    0x20 <= b && b <= 0x7e
}

/// The glyph a byte renders as: itself when printable, the designated
/// unprintable glyph 0xFE otherwise.
pub open spec fn glyph_of(b: u8) -> u8 {
    if printable(b) {
        b
    } else {
        0xfe
    }
}

/// A line-wrap: the cursor moves to the start of the next row. From the
/// last row the grid scrolls instead: every row's content moves up one
/// row, the old top row is discarded, the freed bottom row is cleared
/// under the current attribute, and the cursor stays on the last row.
pub open spec fn new_line_spec(s: DriverState) -> DriverState {
    if s.row + 1 < 25 {
        DriverState { row: s.row + 1, col: 0, ..s }
    } else {
        DriverState {
            cells: Seq::new(
                2000,
                |i: int|
                    if i < 1920 {
                        s.cells[i + 80]
                    } else {
                        cell_code(s.attr, 0)
                    },
            ),
            row: 24,
            col: 0,
            attr: s.attr,
        }
    }
}

/// The cursor advance after a glyph write: one column to the right, or
/// a line-wrap when that would leave the row.
pub open spec fn advance_spec(s: DriverState) -> DriverState {
    if s.col + 1 < 80 {
        DriverState { col: s.col + 1, ..s }
    } else {
        new_line_spec(s)
    }
}

/// Writing one byte's glyph: its encoded cell lands at the cursor under
/// the current attribute, then the cursor advances.
pub open spec fn put_spec(s: DriverState, b: u8) -> DriverState {
    advance_spec(
        DriverState {
            cells: s.cells.update(cell_index(s.row, s.col), cell_code(s.attr, glyph_of(b))),
            ..s
        },
    )
}

/// One byte of input: a newline wraps the line, any other byte writes
/// its glyph.
pub open spec fn write_byte_spec(s: DriverState, b: u8) -> DriverState {
    if b == 0x0a {
        new_line_spec(s)
    } else {
        put_spec(s, b)
    }
}

/// A whole byte sequence, first byte first.
pub open spec fn print_spec(s: DriverState, text: Seq<u8>) -> DriverState
    decreases text.len(),
{
    if text.len() == 0 {
        s
    } else {
        print_spec(write_byte_spec(s, text[0]), text.drop_first())
    }
}

/// Appending one byte to the input prints it after the rest.
proof fn lemma_print_spec_snoc(s: DriverState, text: Seq<u8>, b: u8)
    ensures
        print_spec(s, text.push(b)) == write_byte_spec(print_spec(s, text), b),
    decreases text.len(),
{
    if text.len() == 0 {
        assert(text.push(b)[0] == b);
        assert(text.push(b).drop_first() =~= Seq::<u8>::empty());
        assert(print_spec(write_byte_spec(s, b), Seq::<u8>::empty()) == write_byte_spec(s, b));
        assert(print_spec(s, text.push(b)) == write_byte_spec(s, b));
        assert(print_spec(s, text) == s);
    } else {
        assert(text.push(b)[0] == text[0]);
        assert(text.push(b).drop_first() =~= text.drop_first().push(b));
        lemma_print_spec_snoc(write_byte_spec(s, text[0]), text.drop_first(), b);
    }
}

/// Printing one more byte of a sequence is one more step of the state
/// machine.
proof fn lemma_print_spec_take_succ(s: DriverState, text: Seq<u8>, i: int)
    requires
        0 <= i < text.len(),
    ensures
        print_spec(s, text.take(i + 1)) == write_byte_spec(print_spec(s, text.take(i)), text[i]),
{
    assert(text.take(i + 1) =~= text.take(i).push(text[i]));
    lemma_print_spec_snoc(s, text.take(i), text[i]);
}

/// Printing a run of printable bytes that fits in the current row moves
/// the cursor right by the run's length, writes the bytes' encoded
/// cells there, and changes nothing else.
proof fn lemma_print_printable_run(s: DriverState, text: Seq<u8>)
    requires
        wf_state(s),
        forall|k: int| 0 <= k < text.len() ==> printable(#[trigger] text[k]),
        s.col + text.len() < 80,
    ensures
        print_spec(s, text).row == s.row,
        print_spec(s, text).col == s.col + text.len(),
        print_spec(s, text).attr == s.attr,
        print_spec(s, text).cells.len() == 2000,
        forall|k: int|
            0 <= k < text.len() ==> print_spec(s, text).cells[cell_index(s.row, s.col + k)]
                == cell_code(s.attr, #[trigger] text[k]),
        forall|i: int|
            0 <= i < 2000 && !(cell_index(s.row, s.col) <= i < cell_index(s.row, s.col)
                + text.len()) ==> #[trigger] print_spec(s, text).cells[i] == s.cells[i],
    decreases text.len(),
{
    if text.len() > 0 {
        let s1 = write_byte_spec(s, text[0]);
        let rest = text.drop_first();
        assert(!(text[0] == 0x0a));
        assert(glyph_of(text[0]) == text[0]);
        assert(s1.cells == s.cells.update(cell_index(s.row, s.col), cell_code(s.attr, text[0])));
        assert(s1.row == s.row && s1.col == s.col + 1 && s1.attr == s.attr);
        lemma_print_printable_run(s1, rest);
        let t = print_spec(s1, rest);
        assert(print_spec(s, text) == t);
        assert forall|k: int|
            0 <= k < text.len() implies print_spec(s, text).cells[cell_index(s.row, s.col + k)]
            == cell_code(s.attr, #[trigger] text[k]) by {
            if k == 0 {
                assert(cell_index(s.row, s.col) < cell_index(s1.row, s1.col));
                assert(t.cells[cell_index(s.row, s.col)] == s1.cells[cell_index(s.row, s.col)]);
            } else {
                assert(rest[k - 1] == text[k]);
                assert(t.cells[cell_index(s1.row, s1.col + (k - 1))] == cell_code(
                    s1.attr,
                    rest[k - 1],
                ));
                assert(cell_index(s1.row, s1.col + (k - 1)) == cell_index(s.row, s.col + k));
            }
        }
        assert forall|i: int|
            0 <= i < 2000 && !(cell_index(s.row, s.col) <= i < cell_index(s.row, s.col)
                + text.len()) implies #[trigger] print_spec(s, text).cells[i] == s.cells[i] by {
            assert(t.cells[i] == s1.cells[i]);
            assert(s1.cells[i] == s.cells[i]);
        }
    }
}

/// Law: printing fewer than 80 printable bytes from column 0 leaves the
/// row and the attribute unchanged and the cursor at the byte count,
/// writes exactly those bytes' encoded cells into that row from column
/// 0, and leaves every other cell as it was.
pub proof fn lemma_print_short_line(s: DriverState, text: Seq<u8>)
    requires
        wf_state(s),
        s.col == 0,
        text.len() < 80,
        forall|k: int| 0 <= k < text.len() ==> printable(#[trigger] text[k]),
    ensures
        print_spec(s, text).row == s.row,
        print_spec(s, text).col == text.len(),
        print_spec(s, text).attr == s.attr,
        forall|k: int|
            0 <= k < text.len() ==> print_spec(s, text).cells[cell_index(s.row, k)] == cell_code(
                s.attr,
                #[trigger] text[k],
            ),
        forall|i: int|
            0 <= i < 2000 && !(cell_index(s.row, 0) <= i < cell_index(s.row, 0) + text.len())
                ==> #[trigger] print_spec(s, text).cells[i] == s.cells[i],
{
    lemma_print_printable_run(s, text);
}

/// Law: printing exactly 80 printable bytes from column 0 of a row above
/// the last wraps exactly once: the cursor ends at the start of the next
/// row, the filled row holds the 80 encoded cells, and no other cell
/// changes.
pub proof fn lemma_print_full_line(s: DriverState, text: Seq<u8>)
    requires
        wf_state(s),
        s.col == 0,
        s.row + 1 < 25,
        text.len() == 80,
        forall|k: int| 0 <= k < text.len() ==> printable(#[trigger] text[k]),
    ensures
        print_spec(s, text).row == s.row + 1,
        print_spec(s, text).col == 0,
        print_spec(s, text).attr == s.attr,
        forall|k: int|
            0 <= k < 80 ==> print_spec(s, text).cells[cell_index(s.row, k)] == cell_code(
                s.attr,
                #[trigger] text[k],
            ),
        forall|i: int|
            0 <= i < 2000 && !(cell_index(s.row, 0) <= i < cell_index(s.row, 0) + 80)
                ==> #[trigger] print_spec(s, text).cells[i] == s.cells[i],
{
    let pre = text.take(79);
    lemma_print_printable_run(s, pre);
    let s79 = print_spec(s, pre);
    lemma_print_spec_take_succ(s, text, 79);
    assert(text.take(80) =~= text);
    let s80 = write_byte_spec(s79, text[79]);
    assert(s80 == print_spec(s, text));
    assert(s80.cells == s79.cells.update(cell_index(s.row, 79), cell_code(s.attr, text[79])));
    assert(forall|k: int|
        0 <= k < 79 ==> s80.cells[cell_index(s.row, k)] == cell_code(s.attr, #[trigger] text[k]));
}

/// Law: a wrap on the last row scrolls. With the triggering glyph (if
/// any) written at the corner, every row's content moves up one row,
/// the old top row's content is discarded, the freed bottom row is
/// blank under the current attribute, and the cursor ends at the start
/// of the last row.
pub proof fn lemma_wrap_on_last_row_scrolls(s: DriverState, b: u8)
    requires
        wf_state(s),
        s.row == 24,
        b == 0x0a || (printable(b) && s.col == 79),
    ensures
        write_byte_spec(s, b).row == 24,
        write_byte_spec(s, b).col == 0,
        write_byte_spec(s, b).attr == s.attr,
        write_byte_spec(s, b).cells.len() == 2000,
        forall|i: int|
            0 <= i < 1920 ==> #[trigger] write_byte_spec(s, b).cells[i] == (if b == 0x0a {
                s.cells
            } else {
                s.cells.update(1999, cell_code(s.attr, b))
            })[i + 80],
        forall|i: int|
            1920 <= i < 2000 ==> #[trigger] write_byte_spec(s, b).cells[i] == cell_code(s.attr, 0),
{
    if b != 0x0a {
        assert(cell_index(s.row, s.col) == 1999);
        assert(glyph_of(b) == b);
    }
}

/// Law: a byte outside the printable range and other than newline is
/// rendered as the unprintable glyph 0xFE, not as itself: the cell that
/// takes the write holds the 0xFE encoding (when the write lands on the
/// last row's last column the scroll carries it one row up).
pub proof fn lemma_unprintable_renders_fe(s: DriverState, b: u8)
    requires
        wf_state(s),
        !printable(b),
        b != 0x0a,
    ensures
        write_byte_spec(s, b).cells[
            if s.col == 79 && s.row == 24 {
                cell_index(s.row, s.col) - 80
            } else {
                cell_index(s.row, s.col)
            }
        ] == cell_code(s.attr, 0xfe),
{
    assert(glyph_of(b) == 0xfe);
}

/// The output driver. It owns the one display grid for the life of the
/// process and keeps its cursor inside it after every operation.
pub struct Output {
    column: usize,
    row: usize,
    current_visuals: Visuals,
    buffer: Buffer,
}

impl View for Output {
    type V = DriverState;

    closed spec fn view(&self) -> DriverState {
        DriverState {
            cells: self.buffer@,
            row: self.row as int,
            col: self.column as int,
            attr: visuals_code(self.current_visuals),
        }
    }
}

impl Output {
    /// The driver's invariant: the grid is full-sized and the cursor is
    /// in bounds.
    pub open spec fn wf(&self) -> bool {
        wf_state(self@)
    }

    /// A fresh driver: cursor at the origin, default attribute, every
    /// cell empty under it.
    pub fn new() -> (out: Output)
        ensures
            out.wf(),
            out@.row == 0,
            out@.col == 0,
            out@.attr == visuals_code(default_visuals()),
            forall|i: int|
                0 <= i < 2000 ==> out@.cells[i] == cell_code(visuals_code(default_visuals()), 0),
    {
        Output { column: 0, row: 0, current_visuals: Visuals::default(), buffer: Buffer::new() }
    }

    /// The cursor's row.
    pub fn cursor_row(&self) -> (r: usize)
        ensures
            r as int == self@.row,
    {
        self.row
    }

    /// The cursor's column.
    pub fn cursor_column(&self) -> (c: usize)
        ensures
            c as int == self@.col,
    {
        self.column
    }

    /// The visual attribute under which the driver writes.
    pub fn visuals(&self) -> (v: Visuals)
        ensures
            visuals_code(v) == self@.attr,
    {
        self.current_visuals
    }

    /// Read-back of the packed cell at `row`, `col`, for self-checks.
    pub fn cell_at(&self, row: usize, col: usize) -> (x: u16)
        requires
            self.wf(),
            row < 25,
            col < 80,
        ensures
            x == self@.cells[cell_index(row as int, col as int)],
    {
        self.buffer.read_cell(row, col)
    }

    /// Replaces the attribute used for subsequent writes; cells already
    /// written keep theirs, and the cursor does not move.
    pub fn change_visuals(&mut self, visuals: Visuals)
        ensures
            final(self)@ == (DriverState { attr: visuals_code(visuals), ..old(self)@ }),
            old(self).wf() ==> final(self).wf(),
    {
        self.current_visuals = visuals;
    }

    /// Clears one row to empty cells under the current attribute.
    fn clear_row(&mut self, row: usize)
        requires
            old(self).wf(),
            row < 25,
        ensures
            final(self).wf(),
            final(self)@.row == old(self)@.row,
            final(self)@.col == old(self)@.col,
            final(self)@.attr == old(self)@.attr,
            final(self)@.cells.len() == 2000,
            forall|i: int|
                row as int * 80 <= i < row as int * 80 + 80 ==> final(self)@.cells[i] == cell_code(
                    old(self)@.attr,
                    0,
                ),
            forall|i: int|
                0 <= i < 2000 && !(row as int * 80 <= i < row as int * 80 + 80)
                    ==> final(self)@.cells[i] == old(self)@.cells[i],
    {
        let ghost s0 = self@;
        let code: u16 = Character::empty(self.current_visuals).code();
        let mut col: usize = 0;
        while col < BUFFER_WIDTH
            invariant
                col <= 80,
                row < 25,
                self.wf(),
                self@.row == s0.row,
                self@.col == s0.col,
                self@.attr == s0.attr,
                code == cell_code(s0.attr, 0),
                forall|i: int|
                    row as int * 80 <= i < row as int * 80 + col ==> self@.cells[i] == cell_code(
                        s0.attr,
                        0,
                    ),
                forall|i: int|
                    0 <= i < 2000 && !(row as int * 80 <= i < row as int * 80 + col)
                        ==> self@.cells[i] == s0.cells[i],
            decreases 80 - col,
        {
            self.buffer.write_cell(row, col, code);
            col = col + 1;
        }
    }

    /// Moves the cursor to the start of the next row, scrolling the
    /// grid when the cursor already sits on the last row.
    fn new_line(&mut self)
        requires
            old(self).wf(),
        ensures
            final(self).wf(),
            final(self)@ == new_line_spec(old(self)@),
    {
        let ghost s0 = self@;
        if self.row + 1 < BUFFER_HEIGHT {
            self.row = self.row + 1;
            self.column = 0;
            proof {
                assert(self@ =~= new_line_spec(s0));
            }
        } else {
            let mut r: usize = 1;
            while r < BUFFER_HEIGHT
                invariant
                    1 <= r <= 25,
                    self.wf(),
                    self@.row == s0.row,
                    self@.col == s0.col,
                    self@.attr == s0.attr,
                    s0.cells.len() == 2000,
                    forall|i: int|
                        0 <= i < (r - 1) * 80 ==> self@.cells[i] == s0.cells[i + 80],
                    forall|i: int|
                        (r - 1) * 80 <= i < 2000 ==> self@.cells[i] == s0.cells[i],
                decreases 25 - r,
            {
                let mut c: usize = 0;
                while c < BUFFER_WIDTH
                    invariant
                        1 <= r < 25,
                        c <= 80,
                        self.wf(),
                        self@.row == s0.row,
                        self@.col == s0.col,
                        self@.attr == s0.attr,
                        s0.cells.len() == 2000,
                        forall|i: int|
                            0 <= i < (r - 1) * 80 + c ==> self@.cells[i] == s0.cells[i + 80],
                        forall|i: int|
                            (r - 1) * 80 + c <= i < 2000 ==> self@.cells[i] == s0.cells[i],
                    decreases 80 - c,
                {
                    let x: u16 = self.buffer.read_cell(r, c);
                    self.buffer.write_cell(r - 1, c, x);
                    c = c + 1;
                }
                r = r + 1;
            }
            self.clear_row(BUFFER_HEIGHT - 1);
            self.column = 0;
            proof {
                assert(self@.cells =~= new_line_spec(s0).cells);
                assert(self@ =~= new_line_spec(s0));
            }
        }
    }

    /// Moves the cursor one column to the right, wrapping to a new line
    /// at the end of the row.
    fn move_cursor(&mut self)
        requires
            old(self).wf(),
        ensures
            final(self).wf(),
            final(self)@ == advance_spec(old(self)@),
    {
        if self.column + 1 < BUFFER_WIDTH {
            self.column = self.column + 1;
            proof {
                assert(self@ =~= advance_spec(old(self)@));
            }
        } else {
            self.new_line();
        }
    }

    /// Writes one byte at the cursor: a newline wraps the line, any
    /// other byte writes its glyph and advances the cursor.
    fn write_char(&mut self, byte: u8)
        requires
            old(self).wf(),
        ensures
            final(self).wf(),
            final(self)@ == write_byte_spec(old(self)@, byte),
    {
        if byte == 0x0a {
            self.new_line();
        } else {
            let glyph: u8 = if 0x20 <= byte && byte <= 0x7e {
                byte
            } else {
                0xfe
            };
            let code: u16 = Character::new(glyph, self.current_visuals).code();
            self.buffer.write_cell(self.row, self.column, code);
            proof {
                assert(self@.cells =~= old(self)@.cells.update(
                    cell_index(old(self)@.row, old(self)@.col),
                    cell_code(old(self)@.attr, glyph_of(byte)),
                ));
            }
            self.move_cursor();
        }
    }

    /// Prints a byte sequence: each printable byte writes its glyph,
    /// each newline wraps the line, and any other byte writes the
    /// unprintable glyph 0xFE; the grid wraps and scrolls as it fills.
    pub fn print_bytes(&mut self, text: &[u8])
        requires
            old(self).wf(),
        ensures
            final(self).wf(),
            final(self)@ == print_spec(old(self)@, text@),
    {
        let ghost s0 = self@;
        let mut i: usize = 0;
        while i < text.len()
            invariant
                i <= text@.len(),
                self.wf(),
                self@ == print_spec(s0, text@.take(i as int)),
            decreases text@.len() - i,
        {
            proof {
                lemma_print_spec_take_succ(s0, text@, i as int);
            }
            let b: u8 = text[i];
            self.write_char(b);
            i = i + 1;
        }
        proof {
            assert(text@.take(text@.len() as int) =~= text@);
        }
    }

    /// Prints the UTF-8 bytes of a string through the byte printer.
    pub fn print(&mut self, text: &str)
        requires
            old(self).wf(),
        ensures
            final(self).wf(),
            final(self)@ == print_spec(old(self)@, text.spec_bytes()),
    {
        self.print_bytes(text.as_bytes());
    }

    /// Prints a string and then wraps the line, as a trailing newline
    /// byte would.
    pub fn print_line(&mut self, text: &str)
        requires
            old(self).wf(),
        ensures
            final(self).wf(),
            final(self)@ == write_byte_spec(print_spec(old(self)@, text.spec_bytes()), 0x0a),
    {
        self.print(text);
        self.write_char(0x0a);
    }

    /// Overwrites every cell of every row with the empty cell under the
    /// current attribute. The cursor does not move: resetting it is the
    /// caller's choice.
    pub fn clear(&mut self)
        requires
            old(self).wf(),
        ensures
            final(self).wf(),
            final(self)@.row == old(self)@.row,
            final(self)@.col == old(self)@.col,
            final(self)@.attr == old(self)@.attr,
            final(self)@.cells.len() == 2000,
            forall|i: int|
                0 <= i < 2000 ==> final(self)@.cells[i] == cell_code(old(self)@.attr, 0),
    {
        let ghost s0 = self@;
        let mut row: usize = 0;
        while row < BUFFER_HEIGHT
            invariant
                row <= 25,
                self.wf(),
                self@.row == s0.row,
                self@.col == s0.col,
                self@.attr == s0.attr,
                forall|i: int|
                    0 <= i < row as int * 80 ==> self@.cells[i] == cell_code(s0.attr, 0),
                forall|i: int|
                    row as int * 80 <= i < 2000 ==> self@.cells[i] == s0.cells[i],
            decreases 25 - row,
        {
            self.clear_row(row);
            row = row + 1;
        }
    }
}

} // verus!
