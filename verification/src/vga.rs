//! The text screen: a model of the 80x25 VGA character buffer and the writer
//! that scrolls it. The program around the library copies the model to the
//! memory-mapped buffer after each write.

use vstd::prelude::*;
use vstd::string::StringSliceAdditionalSpecFns;

verus! {

/// The width of the text buffer in characters.
pub const BUFFER_WIDTH: usize = 80;

/// The height of the text buffer in lines.
pub const BUFFER_HEIGHT: usize = 25;

/// The number of cells of the text buffer.
pub const BUFFER_CELLS: usize = 2000;

/// The physical address at which the hardware maps the text buffer.
pub const BUFFER_ADDRESS: u64 = 0xb8000;

/// VGA foreground and background colors.
#[derive(Debug, Clone, Copy, PartialEq, Eq, Structural)]
pub enum Color {
    Black,
    Blue,
    Green,
    Cyan,
    Red,
    Magenta,
    Brown,
    LightGray,
    DarkGray,
    LightBlue,
    LightGreen,
    LightCyan,
    LightRed,
    Pink,
    Yellow,
    White,
}

impl Color {
    /// The four-bit hardware number of the color.
    pub open spec fn spec_code(self) -> u8 {
        match self {
            Color::Black => 0,
            Color::Blue => 1,
            Color::Green => 2,
            Color::Cyan => 3,
            Color::Red => 4,
            Color::Magenta => 5,
            Color::Brown => 6,
            Color::LightGray => 7,
            Color::DarkGray => 8,
            Color::LightBlue => 9,
            Color::LightGreen => 10,
            Color::LightCyan => 11,
            Color::LightRed => 12,
            Color::Pink => 13,
            Color::Yellow => 14,
            Color::White => 15,
        }
    }

    /// The four-bit hardware number of the color.
    #[verifier::when_used_as_spec(spec_code)]
    pub fn code(self) -> (c: u8)
        ensures
            c == self.spec_code(),
            c < 16,
    {
        match self {
            Color::Black => 0,
            Color::Blue => 1,
            Color::Green => 2,
            Color::Cyan => 3,
            Color::Red => 4,
            Color::Magenta => 5,
            Color::Brown => 6,
            Color::LightGray => 7,
            Color::DarkGray => 8,
            Color::LightBlue => 9,
            Color::LightGreen => 10,
            Color::LightCyan => 11,
            Color::LightRed => 12,
            Color::Pink => 13,
            Color::Yellow => 14,
            Color::White => 15,
        }
    }
}

/// An 8-bit code holding a foreground color in its low half and a background
/// color in its high half.
#[derive(Debug, Clone, Copy, PartialEq, Eq, Structural)]
pub struct ColorCode(pub u8);

impl ColorCode {
    /// Packs the two colors into one byte.
    pub fn new(foreground: Color, background: Color) -> (code: ColorCode)
        ensures
            code.0 == background.code() * 16 + foreground.code(),
    {
        let fg: u8 = foreground.code();
        let bg: u8 = background.code();
        assert((bg << 4) | fg == bg * 16 + fg) by (bit_vector)
            requires
                fg < 16,
                bg < 16,
        ;
        ColorCode((bg << 4) | fg)
    }
}

/// A character paired with a color code: one cell of the text buffer.
#[derive(Debug, Clone, Copy, PartialEq, Eq, Structural)]
pub struct ScreenChar {
    pub ascii_char: u8,
    pub color_code: ColorCode,
}

/// The blank cell that clearing writes: a space in the given color.
pub open spec fn blank_char(color: ColorCode) -> ScreenChar {
    ScreenChar { ascii_char: 0x20, color_code: color }
}

/// The byte that is shown for `byte`: printable ASCII and the line feed stand
/// for themselves, every other byte is shown as the block character `0xfe`.
pub open spec fn lossy_byte(byte: u8) -> u8 {
    if (0x20 <= byte && byte <= 0x7e) || byte == 0x0a {
        byte
    } else {
        0xfe
    }
}

/// The index of the cell at (`row`, `col`) in the row-major cell sequence.
pub open spec fn cell_index(row: int, col: int) -> int {
    row * 80 + col
}

/// What a writer shows: the cells of the buffer in row-major order, the column
/// at which the next character lands in the last line, and the color in use.
pub struct Screen {
    pub column: nat,
    pub color: ColorCode,
    pub cells: Seq<ScreenChar>,
}

impl Screen {
    /// The buffer has all its cells and the cursor is on the last line or
    /// just past its end.
    pub open spec fn wf(self) -> bool {
        &&& self.cells.len() == 2000
        &&& self.column <= 80
    }

    /// The cell at (`row`, `col`).
    pub open spec fn char_at(self, row: int, col: int) -> ScreenChar {
        self.cells[cell_index(row, col)]
    }

    /// The screen after line `row` was overwritten with blanks; a row that the
    /// buffer does not have leaves the screen as it is.
    pub open spec fn clear_row(self, row: int) -> Screen {
        if 0 <= row < 25 {
            Screen {
                cells: Seq::new(
                    2000,
                    |i: int|
                        if cell_index(row, 0) <= i < cell_index(row + 1, 0) {
                            blank_char(self.color)
                        } else {
                            self.cells[i]
                        },
                ),
                ..self
            }
        } else {
            self
        }
    }

    /// The screen after a line break: every line moves up by one, the first
    /// line is lost, the last line is blank and the cursor is at its start.
    pub open spec fn new_line(self) -> Screen {
        Screen {
            column: 0,
            color: self.color,
            cells: self.cells.subrange(80, 2000) + Seq::new(80, |i: int| blank_char(self.color)),
        }
    }

    /// The screen after one byte was written: a line feed breaks the line;
    /// any other byte is placed at the cursor in the last line, after a line
    /// break if the line is full, and the cursor moves right by one.
    pub open spec fn write_byte(self, byte: u8) -> Screen {
        if byte == 0x0a {
            self.new_line()
        } else {
            let s = if self.column >= 80 {
                self.new_line()
            } else {
                self
            };
            Screen {
                column: s.column + 1,
                color: s.color,
                cells: s.cells.update(
                    cell_index(24, s.column as int),
                    ScreenChar { ascii_char: byte, color_code: s.color },
                ),
            }
        }
    }

    /// The screen after each of `bytes` was written in turn, each shown as
    /// `lossy_byte` gives it.
    pub open spec fn write_bytes(self, bytes: Seq<u8>) -> Screen
        decreases bytes.len(),
    {
        if bytes.len() == 0 {
            self
        } else {
            self.write_bytes(bytes.drop_last()).write_byte(lossy_byte(bytes.last()))
        }
    }
}

/// The error of formatted writing, which a writer to the screen never
/// returns.
#[verifier::external_type_specification]
#[verifier::external_body]
pub struct ExFmtError(core::fmt::Error);

/// The text buffer: 25 lines of 80 cells.
pub struct Buffer {
    cells: Vec<ScreenChar>,
}

impl View for Buffer {
    type V = Seq<ScreenChar>;

    closed spec fn view(&self) -> Seq<ScreenChar> {
        self.cells@
    }
}

impl Buffer {
    /// The buffer has exactly its 2000 cells.
    pub open spec fn wf(&self) -> bool {
        self@.len() == 2000
    }

    /// A buffer whose every cell holds `fill`.
    pub fn filled(fill: ScreenChar) -> (buffer: Buffer)
        ensures
            buffer.wf(),
            buffer@ == Seq::new(2000, |i: int| fill),
    {
        let mut cells: Vec<ScreenChar> = Vec::new();
        let mut i: usize = 0;
        while i < BUFFER_CELLS
            invariant
                i <= 2000,
                cells@.len() == i,
                forall|j: int| 0 <= j < i ==> cells@[j] == fill,
            decreases 2000 - i,
        {
            cells.push(fill);
            i += 1;
        }
        Buffer { cells }
    }

    /// Reads the cell at (`row`, `col`).
    pub fn read(&self, row: usize, col: usize) -> (c: ScreenChar)
        requires
            self.wf(),
            row < 25,
            col < 80,
        ensures
            c == self@[cell_index(row as int, col as int)],
    {
        self.cells[row * BUFFER_WIDTH + col]
    }

    /// Overwrites the cell at (`row`, `col`).
    pub fn write(&mut self, row: usize, col: usize, c: ScreenChar)
        requires
            old(self).wf(),
            row < 25,
            col < 80,
        ensures
            final(self).wf(),
            final(self)@ == old(self)@.update(cell_index(row as int, col as int), c),
    {
        self.cells.set(row * BUFFER_WIDTH + col, c);
    }
}

/// The writer of the text screen. It appends to the last line and scrolls the
/// buffer up by one line at each line break.
pub struct Writer {
    column_position: usize,
    color_code: ColorCode,
    buffer: Buffer,
}

impl View for Writer {
    type V = Screen;

    closed spec fn view(&self) -> Screen {
        Screen {
            column: self.column_position as nat,
            color: self.color_code,
            cells: self.buffer@,
        }
    }
}

impl Writer {
    /// The writer's screen is well formed.
    pub open spec fn wf(&self) -> bool {
        self@.wf()
    }

    /// A writer over `buffer` that starts at the left of the last line and
    /// writes in yellow on black.
    pub fn new(buffer: Buffer) -> (writer: Writer)
        requires
            buffer.wf(),
        ensures
            writer.wf(),
            writer@.column == 0,
            writer@.color.0 == 14,
            writer@.cells == buffer@,
    {
        Writer {
            column_position: 0,
            color_code: ColorCode::new(Color::Yellow, Color::Black),
            buffer,
        }
    }

    /// The column at which the next character lands.
    pub fn column_position(&self) -> (column: usize)
        ensures
            column == self@.column,
    {
        self.column_position
    }

    /// The color code in which the writer writes.
    pub fn color_code(&self) -> (color: ColorCode)
        ensures
            color == self@.color,
    {
        self.color_code
    }

    /// The cell shown at (`row`, `col`), or `None` where the screen has no
    /// such cell.
    pub fn char_at(&self, row: usize, col: usize) -> (c: Option<ScreenChar>)
        requires
            self.wf(),
        ensures
            c == if row < 25 && col < 80 {
                Some(self@.char_at(row as int, col as int))
            } else {
                None
            },
    {
        if row < BUFFER_HEIGHT && col < BUFFER_WIDTH {
            Some(self.buffer.read(row, col))
        } else {
            None
        }
    }

    /// Writes one byte at the cursor. A line feed breaks the line; any other
    /// byte goes to the last line, after a line break if that line is full.
    pub fn write_byte(&mut self, byte: u8)
        requires
            old(self).wf(),
        ensures
            final(self).wf(),
            final(self)@ == old(self)@.write_byte(byte),
    {
        if byte == 0x0a {
            self.write_new_line();
        } else {
            if self.column_position >= BUFFER_WIDTH {
                self.write_new_line();
            }
            let row: usize = BUFFER_HEIGHT - 1;
            let col: usize = self.column_position;
            self.buffer.write(row, col, ScreenChar { ascii_char: byte, color_code: self.color_code });
            self.column_position += 1;
        }
    }

    /// Breaks the line: moves every line up by one, blanks the last line and
    /// puts the cursor at its start.
    pub fn write_new_line(&mut self)
        requires
            old(self).wf(),
        ensures
            final(self).wf(),
            final(self)@ == old(self)@.new_line(),
    {
        let mut row: usize = 1;
        while row < BUFFER_HEIGHT
            invariant
                1 <= row <= 25,
                self.wf(),
                self@.column == old(self)@.column,
                self@.color == old(self)@.color,
                forall|i: int| 0 <= i < cell_index(row - 1, 0) ==> self@.cells[i] == old(self)@.cells[i + 80],
                forall|i: int| cell_index(row - 1, 0) <= i < 2000 ==> self@.cells[i] == old(self)@.cells[i],
            decreases 25 - row,
        {
            let mut col: usize = 0;
            while col < BUFFER_WIDTH
                invariant
                    1 <= row < 25,
                    col <= 80,
                    self.wf(),
                    self@.column == old(self)@.column,
                    self@.color == old(self)@.color,
                    forall|i: int| 0 <= i < cell_index(row - 1, col as int) ==> self@.cells[i] == old(self)@.cells[i + 80],
                    forall|i: int| cell_index(row - 1, col as int) <= i < 2000 ==> self@.cells[i] == old(self)@.cells[i],
                decreases 80 - col,
            {
                let c: ScreenChar = self.buffer.read(row, col);
                self.buffer.write(row - 1, col, c);
                col += 1;
            }
            row += 1;
        }
        self.clear_row(BUFFER_HEIGHT - 1);
        self.column_position = 0;
        assert(self@.cells =~= old(self)@.new_line().cells);
    }

    /// Overwrites line `row` with blanks in the writer's color. A row that
    /// the screen does not have is left alone.
    pub fn clear_row(&mut self, row: usize)
        requires
            old(self).wf(),
        ensures
            final(self).wf(),
            final(self)@ == old(self)@.clear_row(row as int),
    {
        if row >= BUFFER_HEIGHT {
            return ;
        }
        let blank: ScreenChar = ScreenChar { ascii_char: 0x20, color_code: self.color_code };
        let mut col: usize = 0;
        while col < BUFFER_WIDTH
            invariant
                row < 25,
                col <= 80,
                self.wf(),
                self@.column == old(self)@.column,
                self@.color == old(self)@.color,
                blank == blank_char(old(self)@.color),
                forall|i: int| 0 <= i < 2000 ==> self@.cells[i] == if cell_index(row as int, 0) <= i
                    < cell_index(row as int, col as int) {
                    blank
                } else {
                    old(self)@.cells[i]
                },
            decreases 80 - col,
        {
            self.buffer.write(row, col, blank);
            col += 1;
        }
        assert(self@.cells =~= old(self)@.clear_row(row as int).cells);
    }

    /// Writes the bytes of `s` in turn; a byte that is neither printable
    /// ASCII nor a line feed is shown as the block character `0xfe`.
    pub fn write_str_lossy(&mut self, s: &str)
        requires
            old(self).wf(),
        ensures
            final(self).wf(),
            final(self)@ == old(self)@.write_bytes(s.spec_bytes()),
    {
        let bytes: &[u8] = s.as_bytes();
        let mut i: usize = 0;
        while i < bytes.len()
            invariant
                i <= bytes@.len(),
                bytes@ == s.spec_bytes(),
                self.wf(),
                self@ == old(self)@.write_bytes(bytes@.take(i as int)),
            decreases bytes@.len() - i,
        {
            let byte: u8 = bytes[i];
            proof {
                assert(bytes@.take(i + 1).drop_last() =~= bytes@.take(i as int));
                assert(bytes@.take(i + 1).last() == byte);
            }
            if (0x20 <= byte && byte <= 0x7e) || byte == 0x0a {
                self.write_byte(byte);
            } else {
                self.write_byte(0xfe);
            }
            i += 1;
        }
        assert(bytes@.take(i as int) =~= bytes@);
    }

    /// Writes `s` as `write_str_lossy` does. Writing to the screen cannot
    /// fail.
    pub fn write_str(&mut self, s: &str) -> (done: Result<(), core::fmt::Error>)
        requires
            old(self).wf(),
        ensures
            done is Ok,
            final(self).wf(),
            final(self)@ == old(self)@.write_bytes(s.spec_bytes()),
    {
        self.write_str_lossy(s);
        Ok(())
    }
}

} // verus!
