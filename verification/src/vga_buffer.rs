//! The text screen writer as data: a grid of characters with a
//! cursor in its last row, scrolling one line up when the row fills
//! or a line break arrives. The memory-mapped screen the running
//! kernel writes through is hardware; the grid held here is plain
//! values, and every movement of characters through it is checked.

use vstd::prelude::*;

verus! {

/// Rows on the text screen.
pub const BUFFER_HEIGHT: usize = 25;

/// Columns on the text screen.
pub const BUFFER_WIDTH: usize = 80;

/// The sixteen colors of the text screen's palette.
#[derive(Clone, Copy, PartialEq, Eq, Structural, Debug)]
pub enum Color {
    Black,
    Blue,
    Green,
    Cyan,
    Red,
    Magenta,
    Brown,
    LightGray,
    DarkGray,
    LightBlue,
    LightGreen,
    LightCyan,
    LightRed,
    Pink,
    Yellow,
    White,
}

impl Color {
    /// The palette index of each color.
    pub open spec fn spec_u8(self) -> u8 {
        match self {
            Color::Black => 0,
            Color::Blue => 1,
            Color::Green => 2,
            Color::Cyan => 3,
            Color::Red => 4,
            Color::Magenta => 5,
            Color::Brown => 6,
            Color::LightGray => 7,
            Color::DarkGray => 8,
            Color::LightBlue => 9,
            Color::LightGreen => 10,
            Color::LightCyan => 11,
            Color::LightRed => 12,
            Color::Pink => 13,
            Color::Yellow => 14,
            Color::White => 15,
        }
    }

    pub fn as_u8(self) -> (r: u8)
        ensures
            r == self.spec_u8(),
            r < 16,
    {
        match self {
            Color::Black => 0,
            Color::Blue => 1,
            Color::Green => 2,
            Color::Cyan => 3,
            Color::Red => 4,
            Color::Magenta => 5,
            Color::Brown => 6,
            Color::LightGray => 7,
            Color::DarkGray => 8,
            Color::LightBlue => 9,
            Color::LightGreen => 10,
            Color::LightCyan => 11,
            Color::LightRed => 12,
            Color::Pink => 13,
            Color::Yellow => 14,
            Color::White => 15,
        }
    }
}

/// A full color byte: the background color in the high four bits,
/// the foreground color in the low four.
#[derive(Clone, Copy, PartialEq, Eq, Structural, Debug)]
pub struct ColorCode(pub u8);

impl ColorCode {
    pub fn new(foreground: Color, background: Color) -> (r: ColorCode)
        ensures
            r.0 == background.spec_u8() * 16 + foreground.spec_u8(),
    {
        let fg = foreground.as_u8();
        let bg = background.as_u8();
        proof {
            assert((bg << 4) | fg == bg * 16 + fg) by (bit_vector)
                requires
                    bg < 16,
                    fg < 16,
            {}
        }
        ColorCode((bg << 4) | fg)
    }
}

/// One screen cell: a character byte and its colors.
#[derive(Clone, Copy, PartialEq, Eq, Structural, Debug)]
pub struct ScreenChar {
    pub ascii_character: u8,
    pub color_code: ColorCode,
}

/// The cell a cleared position shows: a space in the writer's
/// colors.
pub open spec fn spec_blank(color: ColorCode) -> ScreenChar {
    ScreenChar { ascii_character: 0x20, color_code: color }
}

/// A whole cleared row.
pub open spec fn spec_blank_row(color: ColorCode) -> Seq<ScreenChar> {
    Seq::new(BUFFER_WIDTH as nat, |c: int| spec_blank(color))
}

/// The screen after scrolling: every row moves one line up and the
/// last row is cleared.
pub open spec fn spec_new_line(rows: Seq<Seq<ScreenChar>>, color: ColorCode) -> Seq<
    Seq<ScreenChar>,
> {
    Seq::new(BUFFER_HEIGHT as nat, |r: int| if r < BUFFER_HEIGHT - 1 {
        rows[r + 1]
    } else {
        spec_blank_row(color)
    })
}

/// The screen and cursor after writing one byte: a line break
/// scrolls, a full row scrolls first, and anything else lands in the
/// last row at the cursor.
pub open spec fn spec_write_byte(rows: Seq<Seq<ScreenChar>>, col: int, color: ColorCode,
    byte: u8) -> (Seq<Seq<ScreenChar>>, int) {
    if byte == 0x0a {
        (spec_new_line(rows, color), 0)
    } else {
        let (rows1, col1) = if col >= BUFFER_WIDTH {
            (spec_new_line(rows, color), 0int)
        } else {
            (rows, col)
        };
        (rows1.update(BUFFER_HEIGHT - 1, rows1[BUFFER_HEIGHT - 1].update(col1, ScreenChar {
            ascii_character: byte,
            color_code: color,
        })), col1 + 1)
    }
}

/// The bytes the screen can show directly: the printable range and
/// the line break.
pub open spec fn spec_printable(byte: u8) -> bool {
    0x20 <= byte <= 0x7e || byte == 0x0a
}

/// The screen and cursor after writing a whole string, byte by
/// byte, with each unprintable byte replaced by the solid-block
/// placeholder.
pub open spec fn spec_write_string(rows: Seq<Seq<ScreenChar>>, col: int, color: ColorCode,
    s: Seq<u8>) -> (Seq<Seq<ScreenChar>>, int)
    decreases s.len(),
{
    if s.len() == 0 {
        (rows, col)
    } else {
        let byte = if spec_printable(s[0]) {
            s[0]
        } else {
            0xfe
        };
        let (rows1, col1) = spec_write_byte(rows, col, color, byte);
        spec_write_string(rows1, col1, color, s.drop_first())
    }
}

/// Writes into the last line of the screen grid, scrolling lines up
/// when a line is full.
pub struct Writer {
    column_position: usize,
    color_code: ColorCode,
    buffer: Vec<Vec<ScreenChar>>,
}

impl Writer {
    /// The screen contents, top row first.
    pub closed spec fn rows(self) -> Seq<Seq<ScreenChar>> {
        self.buffer@.map_values(|r: Vec<ScreenChar>| r@)
    }

    /// The cursor's column in the last row.
    pub closed spec fn col(self) -> int {
        self.column_position as int
    }

    /// The colors new characters are written with.
    pub closed spec fn color(self) -> ColorCode {
        self.color_code
    }

    pub open spec fn wf(self) -> bool {
        &&& self.rows().len() == BUFFER_HEIGHT
        &&& forall|r: int| 0 <= r < BUFFER_HEIGHT ==> (#[trigger] self.rows()[r]).len()
            == BUFFER_WIDTH
        &&& 0 <= self.col() <= BUFFER_WIDTH
    }

    /// A writer over a cleared screen, with the cursor at the start
    /// of the last row.
    pub fn new(color_code: ColorCode) -> (r: Writer)
        ensures
            r.wf(),
            r.rows() =~~= Seq::new(BUFFER_HEIGHT as nat, |q: int| spec_blank_row(
                color_code)),
            r.col() == 0,
            r.color() == color_code,
    {
        let mut buffer: Vec<Vec<ScreenChar>> = Vec::new();
        let mut row: usize = 0;
        while row < BUFFER_HEIGHT
            invariant
                row <= BUFFER_HEIGHT,
                buffer@.len() == row,
                forall|q: int| 0 <= q < row ==> (#[trigger] buffer@[q])@ =~= spec_blank_row(
                    color_code),
            decreases BUFFER_HEIGHT - row,
        {
            let mut line: Vec<ScreenChar> = Vec::new();
            let mut column: usize = 0;
            while column < BUFFER_WIDTH
                invariant
                    column <= BUFFER_WIDTH,
                    line@.len() == column,
                    forall|c: int| 0 <= c < column ==> line@[c] == spec_blank(color_code),
                decreases BUFFER_WIDTH - column,
            {
                line.push(ScreenChar { ascii_character: 0x20, color_code });
                column = column + 1;
            }
            proof {
                assert(line@ =~= spec_blank_row(color_code));
            }
            buffer.push(line);
            row = row + 1;
        }
        let w = Writer { column_position: 0, color_code, buffer };
        proof {
            assert forall|q: int| 0 <= q < BUFFER_HEIGHT implies (#[trigger] w.rows()[q])
                =~= spec_blank_row(color_code) by {
                assert(w.rows()[q] == buffer@[q]@);
            }
        }
        w
    }

    /// Clears a row by overwriting all its characters with spaces.
    fn clear_row(&mut self, row: usize)
        requires
            old(self).wf(),
            row < BUFFER_HEIGHT,
        ensures
            final(self).wf(),
            final(self).rows() == old(self).rows().update(row as int, spec_blank_row(
                old(self).color())),
            final(self).col() == old(self).col(),
            final(self).color() == old(self).color(),
    {
        let blank = ScreenChar { ascii_character: 0x20, color_code: self.color_code };
        let mut column: usize = 0;
        while column < BUFFER_WIDTH
            invariant
                old(self).wf(),
                self.wf(),
                column <= BUFFER_WIDTH,
                row < BUFFER_HEIGHT,
                blank == spec_blank(old(self).color()),
                self.color() == old(self).color(),
                self.col() == old(self).col(),
                forall|q: int| 0 <= q < BUFFER_HEIGHT && q != row ==> #[trigger] self
                    .rows()[q] == old(self).rows()[q],
                forall|c: int| 0 <= c < column ==> #[trigger] self.rows()[row as int][c]
                    == blank,
                forall|c: int| column <= c < BUFFER_WIDTH ==> #[trigger] self.rows()[
                    row as int][c] == old(self).rows()[row as int][c],
            decreases BUFFER_WIDTH - column,
        {
            let ghost snap = *self;
            proof {
                assert(self.buffer@.len() == self.rows().len());
                assert(self.buffer@[row as int]@ == self.rows()[row as int]);
            }
            self.buffer[row][column] = blank;
            proof {
                assert(self.rows() =~= snap.rows().update(row as int, snap.rows()[
                    row as int].update(column as int, blank)));
            }
            column = column + 1;
        }
        proof {
            assert(self.rows()[row as int] =~= spec_blank_row(old(self).color()));
            assert(self.rows() =~= old(self).rows().update(row as int, spec_blank_row(
                old(self).color())));
        }
    }

    /// Scrolls: moves every character one row up, clears the last
    /// row, and returns the cursor to the start.
    fn new_line(&mut self)
        requires
            old(self).wf(),
        ensures
            final(self).wf(),
            final(self).rows() == spec_new_line(old(self).rows(), old(self).color()),
            final(self).col() == 0,
            final(self).color() == old(self).color(),
    {
        let mut row: usize = 1;
        while row < BUFFER_HEIGHT
            invariant
                old(self).wf(),
                self.wf(),
                1 <= row <= BUFFER_HEIGHT,
                self.color() == old(self).color(),
                self.col() == old(self).col(),
                forall|q: int| 0 <= q < row - 1 ==> #[trigger] self.rows()[q] == old(
                    self).rows()[q + 1],
                forall|q: int| row - 1 <= q < BUFFER_HEIGHT ==> #[trigger] self.rows()[q]
                    == old(self).rows()[q],
            decreases BUFFER_HEIGHT - row,
        {
            let mut column: usize = 0;
            while column < BUFFER_WIDTH
                invariant
                    old(self).wf(),
                    self.wf(),
                    1 <= row < BUFFER_HEIGHT,
                    column <= BUFFER_WIDTH,
                    self.color() == old(self).color(),
                    self.col() == old(self).col(),
                    forall|q: int| 0 <= q < row - 1 ==> #[trigger] self.rows()[q] == old(
                        self).rows()[q + 1],
                    forall|q: int| row <= q < BUFFER_HEIGHT ==> #[trigger] self.rows()[q]
                        == old(self).rows()[q],
                    forall|c: int| 0 <= c < column ==> #[trigger] self.rows()[row - 1][c]
                        == old(self).rows()[row as int][c],
                    forall|c: int| column <= c < BUFFER_WIDTH ==> #[trigger] self.rows()[
                        row - 1][c] == old(self).rows()[row - 1][c],
                decreases BUFFER_WIDTH - column,
            {
                let ghost snap = *self;
                proof {
                    assert(self.buffer@.len() == self.rows().len());
                    assert(self.buffer@[row as int]@ == self.rows()[row as int]);
                    assert(self.buffer@[row - 1]@ == self.rows()[row - 1]);
                }
                let character = self.buffer[row][column];
                self.buffer[row - 1][column] = character;
                proof {
                    assert(character == old(self).rows()[row as int][column as int]);
                    assert(self.rows() =~= snap.rows().update(row - 1, snap.rows()[row
                        - 1].update(column as int, character)));
                }
                column = column + 1;
            }
            row = row + 1;
        }
        self.clear_row(BUFFER_HEIGHT - 1);
        self.column_position = 0;
        proof {
            assert(self.rows() =~~= spec_new_line(old(self).rows(), old(self).color()));
        }
    }

    /// Writes one byte at the cursor: a line break scrolls, a full
    /// line scrolls first, and the byte lands in the last row.
    pub fn write_byte(&mut self, byte: u8)
        requires
            old(self).wf(),
        ensures
            final(self).wf(),
            (final(self).rows(), final(self).col()) == spec_write_byte(old(self).rows(),
                old(self).col(), old(self).color(), byte),
            final(self).color() == old(self).color(),
    {
        if byte == 0x0a {
            self.new_line();
        } else {
            if self.column_position >= BUFFER_WIDTH {
                self.new_line();
            }
            let ghost mid = *self;
            let row = BUFFER_HEIGHT - 1;
            let column = self.column_position;
            let color_code = self.color_code;
            proof {
                assert(self.buffer@.len() == self.rows().len());
                assert(self.buffer@[row as int]@ == self.rows()[row as int]);
            }
            self.buffer[row][column] = ScreenChar { ascii_character: byte, color_code };
            self.column_position = column + 1;
            proof {
                assert(self.rows() =~= mid.rows().update(row as int, mid.rows()[
                    row as int].update(column as int, ScreenChar {
                    ascii_character: byte,
                    color_code,
                })));
            }
        }
    }

    /// Writes a string byte by byte, showing a solid block for any
    /// byte the screen cannot print.
    pub fn write_string(&mut self, s: &[u8])
        requires
            old(self).wf(),
        ensures
            final(self).wf(),
            (final(self).rows(), final(self).col()) == spec_write_string(old(self).rows(),
                old(self).col(), old(self).color(), s@),
            final(self).color() == old(self).color(),
    {
        let mut i: usize = 0;
        proof {
            assert(s@.skip(0) =~= s@);
        }
        while i < s.len()
            invariant
                self.wf(),
                i <= s@.len(),
                self.color() == old(self).color(),
                spec_write_string(self.rows(), self.col(), self.color(), s@.skip(i as int))
                    == spec_write_string(old(self).rows(), old(self).col(), old(self)
                    .color(), s@),
            decreases s@.len() - i,
        {
            let ghost before = *self;
            let byte = s[i];
            if 0x20 <= byte && byte <= 0x7e || byte == 0x0a {
                self.write_byte(byte);
            } else {
                self.write_byte(0xfe);
            }
            proof {
                assert(s@.skip(i as int)[0] == s@[i as int]);
                assert(s@.skip(i as int).drop_first() =~= s@.skip(i as int + 1));
            }
            i = i + 1;
        }
        proof {
            assert(s@.skip(s@.len() as int).len() == 0);
        }
    }

    /// The cell shown at a position.
    pub fn char_at(&self, row: usize, column: usize) -> (r: ScreenChar)
        requires
            self.wf(),
            row < BUFFER_HEIGHT,
            column < BUFFER_WIDTH,
        ensures
            r == self.rows()[row as int][column as int],
    {
        proof {
            assert(self.buffer@.len() == self.rows().len());
            assert(self.buffer@[row as int]@ == self.rows()[row as int]);
        }
        self.buffer[row][column]
    }

    /// The cursor's column.
    pub fn column(&self) -> (r: usize)
        ensures
            r == self.col(),
    {
        self.column_position
    }
}

} // verus!
