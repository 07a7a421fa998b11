use vstd::prelude::*;

verus! {

/// Height of the VGA text screen, in rows.
pub const BUFFER_HEIGHT: usize = 25;

/// Width of the VGA text screen, in columns.
pub const BUFFER_WIDTH: usize = 80;

/// The sixteen colours of the VGA text mode palette.
#[derive(Debug, Clone, Copy, PartialEq, Eq, Structural)]
pub enum Color {
    Black,
    Blue,
    Green,
    Cyan,
    Red,
    Magenta,
    Brown,
    LightGray,
    DarkGray,
    LightBlue,
    LightGreen,
    LightCyan,
    LightRed,
    Pink,
    Yellow,
    White,
}

impl Color {
    /// The palette index of the colour, as the hardware reads it.
    pub open spec fn spec_code(self) -> u8 {
        match self {
            Color::Black => 0,
            Color::Blue => 1,
            Color::Green => 2,
            Color::Cyan => 3,
            Color::Red => 4,
            Color::Magenta => 5,
            Color::Brown => 6,
            Color::LightGray => 7,
            Color::DarkGray => 8,
            Color::LightBlue => 9,
            Color::LightGreen => 10,
            Color::LightCyan => 11,
            Color::LightRed => 12,
            Color::Pink => 13,
            Color::Yellow => 14,
            Color::White => 15,
        }
    }

    /// The palette index of the colour (0 to 15).
    pub fn code(self) -> (r: u8)
        ensures
            r == self.spec_code(),
            r < 16,
    {
        match self {
            Color::Black => 0,
            Color::Blue => 1,
            Color::Green => 2,
            Color::Cyan => 3,
            Color::Red => 4,
            Color::Magenta => 5,
            Color::Brown => 6,
            Color::LightGray => 7,
            Color::DarkGray => 8,
            Color::LightBlue => 9,
            Color::LightGreen => 10,
            Color::LightCyan => 11,
            Color::LightRed => 12,
            Color::Pink => 13,
            Color::Yellow => 14,
            Color::White => 15,
        }
    }
}

/// A VGA attribute byte: background colour in the high nibble,
/// foreground colour in the low nibble.
#[derive(Debug, Clone, Copy, PartialEq, Eq, Structural)]
pub struct ColorCode(pub u8);

impl ColorCode {
    /// The attribute byte for the given foreground and background colours.
    pub fn new(foreground: Color, background: Color) -> (r: ColorCode)
        ensures
            r.0 == background.spec_code() * 16 + foreground.spec_code(),
            r.0 % 16 == foreground.spec_code(),
            r.0 / 16 == background.spec_code(),
    {
        let bg = background.code();
        let fg = foreground.code();
        let r = (bg << 4u8) | fg;
        assert(r == bg * 16 + fg) by (bit_vector)
            requires
                bg < 16,
                fg < 16,
                r == (bg << 4u8) | fg,
        ;
        ColorCode(r)
    }
}


/// The code page 866 byte for `c`: the Cyrillic capitals \u{410}..\u{42f}
/// become 128..159, the small letters \u{430}..\u{43f} become 160..175 and
/// \u{440}..\u{44f} become 224..239, \u{401} becomes 240 and \u{451} 241;
/// ASCII stays as it is and every other character becomes `?`.
pub open spec fn cp866_spec(c: char) -> u8 {
    let u = c as u32;
    if 0x410 <= u <= 0x42f {
        (u - 0x410 + 128) as u8
    } else if 0x430 <= u <= 0x43f {
        (u - 0x430 + 160) as u8
    } else if 0x440 <= u <= 0x44f {
        (u - 0x440 + 224) as u8
    } else if u == 0x451 {
        241
    } else if u == 0x401 {
        240
    } else if u < 0x80 {
        u as u8
    } else {
        0x3f
    }
}

/// The letters of the Russian alphabet: \u{410}..\u{44f}, \u{401} and
/// \u{451}.
pub open spec fn is_russian_letter(c: char) -> bool {
    let u = c as u32;
    (0x410 <= u <= 0x44f) || u == 0x401 || u == 0x451
}

/// The translation to code page 866 keeps ASCII as it is, sends the Russian
/// letters to distinct bytes from 128 up (so never to ASCII), puts a small
/// letter 32 (\u{430}..\u{43f}) or 80 (\u{440}..\u{44f}) above its capital,
/// and sends every other character to `?`.
pub proof fn lemma_cp866_laws(c: char, d: char)
    ensures
        (c as u32) < 0x80 ==> cp866_spec(c) as u32 == c as u32,
        is_russian_letter(c) ==> cp866_spec(c) >= 128,
        is_russian_letter(c) && is_russian_letter(d) && (c as u32) != (d as u32) ==> cp866_spec(c)
            != cp866_spec(d),
        0x410 <= (c as u32) < 0x420 && (d as u32) == (c as u32) + 0x20 ==> cp866_spec(d) as int
            == cp866_spec(c) + 32,
        0x420 <= (c as u32) < 0x430 && (d as u32) == (c as u32) + 0x20 ==> cp866_spec(d) as int
            == cp866_spec(c) + 80,
        (c as u32) == 0x401 && (d as u32) == 0x451 ==> cp866_spec(d) as int == cp866_spec(c) + 1,
        !is_russian_letter(c) && (c as u32) >= 0x80 ==> cp866_spec(c) == 0x3f,
{
}

/// Translates a character to its code page 866 byte (see `cp866_spec`).
pub fn utf8_to_cp866(c: char) -> (r: u8)
    ensures
        r == cp866_spec(c),
        (c as u32) < 0x80 ==> r as u32 == c as u32,
{
    let u = c as u32;
    if 0x410 <= u && u <= 0x42f {
        (u - 0x410 + 128) as u8
    } else if 0x430 <= u && u <= 0x43f {
        (u - 0x430 + 160) as u8
    } else if 0x440 <= u && u <= 0x44f {
        (u - 0x440 + 224) as u8
    } else if u == 0x451 {
        241
    } else if u == 0x401 {
        240
    } else if u < 0x80 {
        u as u8
    } else {
        0x3f
    }
}

/// One cell of the VGA text screen: a code-page byte and its attribute.
#[derive(Debug, Clone, Copy, PartialEq, Eq, Structural)]
pub struct ScreenChar {
    pub ascii_character: u8,
    pub color_code: ColorCode,
}

/// The blank cell drawn in the given colour.
pub open spec fn blank(color: ColorCode) -> ScreenChar {
    ScreenChar { ascii_character: 0x20, color_code: color }
}

/// What a writer consists of, seen from outside: the cursor column, the
/// current colour and the screen's cells, row after row.
pub struct WriterView {
    pub column: nat,
    pub color: ColorCode,
    pub cells: Seq<ScreenChar>,
}

/// Index of the cell at `row`, `col` in the row-major screen.
pub open spec fn cell_index(row: int, col: int) -> int {
    row * BUFFER_WIDTH + col
}

/// The screen scrolled up by one row, the new bottom row blank in `color`.
pub open spec fn scrolled(cells: Seq<ScreenChar>, color: ColorCode) -> Seq<ScreenChar> {
    cells.subrange(BUFFER_WIDTH as int, (BUFFER_HEIGHT * BUFFER_WIDTH) as int) + Seq::new(
        BUFFER_WIDTH as nat,
        |i: int| blank(color),
    )
}

/// A line feed: scroll up and put the cursor at the start of the bottom row.
pub open spec fn new_line_spec(v: WriterView) -> WriterView {
    WriterView { column: 0, color: v.color, cells: scrolled(v.cells, v.color) }
}

/// The effect of writing one byte: a line feed for `\n`, else the byte is
/// put at the cursor on the bottom row (after a line feed if the row is full)
/// and the cursor moves one column right.
pub open spec fn write_byte_spec(v: WriterView, byte: u8) -> WriterView {
    if byte == 10 {
        new_line_spec(v)
    } else {
        let w = if v.column >= BUFFER_WIDTH { new_line_spec(v) } else { v };
        WriterView {
            column: w.column + 1,
            color: w.color,
            cells: w.cells.update(
                cell_index(BUFFER_HEIGHT - 1, w.column as int),
                ScreenChar { ascii_character: byte, color_code: w.color },
            ),
        }
    }
}

/// Whether `c` is printable ASCII (space to tilde).
pub open spec fn is_printable(c: char) -> bool {
    ' ' <= c && c <= '~'
}

/// The effect of writing one character of a string: `\n` is a line feed,
/// printable ASCII is written as itself, anything else as `?`.
pub open spec fn write_char_spec(v: WriterView, c: char) -> WriterView {
    if c == '\n' {
        new_line_spec(v)
    } else if is_printable(c) {
        write_byte_spec(v, c as u8)
    } else {
        write_byte_spec(v, 0x3f)
    }
}

/// The effect of writing the characters of `s` one after another.
pub open spec fn write_chars_spec(v: WriterView, s: Seq<char>) -> WriterView
    decreases s.len(),
{
    if s.len() == 0 {
        v
    } else {
        write_char_spec(write_chars_spec(v, s.drop_last()), s.last())
    }
}

/// Text without line feeds that fits in the rest of the bottom row appears
/// there at the cursor, in the current colour; the cursor moves past it and
/// no other cell changes.
pub proof fn lemma_write_fits_row(v: WriterView, s: Seq<char>)
    requires
        v.cells.len() == BUFFER_HEIGHT * BUFFER_WIDTH,
        v.column + s.len() <= BUFFER_WIDTH,
        forall|i: int| 0 <= i < s.len() ==> is_printable(#[trigger] s[i]),
    ensures
        write_chars_spec(v, s).column == v.column + s.len(),
        write_chars_spec(v, s).color == v.color,
        write_chars_spec(v, s).cells.len() == v.cells.len(),
        forall|k: int|
            0 <= k < s.len() ==> write_chars_spec(v, s).cells[cell_index(
                BUFFER_HEIGHT - 1,
                v.column + k,
            )] == (ScreenChar { ascii_character: s[k] as u8, color_code: v.color }),
        forall|i: int|
            0 <= i < v.cells.len() && !(cell_index(BUFFER_HEIGHT - 1, v.column as int) <= i
                < cell_index(BUFFER_HEIGHT - 1, (v.column + s.len()) as int)) ==> #[trigger] write_chars_spec(
                v,
                s,
            ).cells[i] == v.cells[i],
    decreases s.len(),
{
    if s.len() > 0 {
        let init = s.drop_last();
        assert forall|i: int| 0 <= i < init.len() implies is_printable(#[trigger] init[i]) by {
            assert(init[i] == s[i]);
        }
        lemma_write_fits_row(v, init);
        let w = write_chars_spec(v, init);
        assert(s.last() != '\n');
        assert(is_printable(s[s.len() - 1]));
        let n = s.len() - 1;
        assert forall|k: int| 0 <= k < s.len() implies write_chars_spec(v, s).cells[cell_index(
            BUFFER_HEIGHT - 1,
            v.column + k,
        )] == (ScreenChar { ascii_character: s[k] as u8, color_code: v.color }) by {
            if k < n {
                assert(init[k] == s[k]);
                assert(cell_index(BUFFER_HEIGHT - 1, v.column + k) != cell_index(
                    BUFFER_HEIGHT - 1,
                    w.column as int,
                ));
            }
        }
    }
}

/// Writing one printable character: with room left on the bottom row it
/// lands at the cursor and nothing else changes; at the end of the row the
/// screen first scrolls up one row (the new bottom row blank) and the
/// character lands at the start of the bottom row. The cursor ends one past
/// the character.
pub proof fn lemma_write_printable_char(v: WriterView, c: char)
    requires
        v.cells.len() == 2000,
        v.column <= 80,
        ' ' <= c <= '~',
    ensures
        write_chars_spec(v, seq![c]).color == v.color,
        write_chars_spec(v, seq![c]).cells.len() == 2000,
        v.column < 80 ==> {
            &&& write_chars_spec(v, seq![c]).column == v.column + 1
            &&& write_chars_spec(v, seq![c]).cells[1920 + v.column as int] == (ScreenChar {
                ascii_character: c as u8,
                color_code: v.color,
            })
            &&& forall|i: int|
                0 <= i < 2000 && i != 1920 + v.column ==> #[trigger] write_chars_spec(
                    v,
                    seq![c],
                ).cells[i] == v.cells[i]
        },
        v.column >= 80 ==> {
            &&& write_chars_spec(v, seq![c]).column == 1
            &&& write_chars_spec(v, seq![c]).cells[1920] == (ScreenChar {
                ascii_character: c as u8,
                color_code: v.color,
            })
            &&& forall|i: int|
                0 <= i < 1920 ==> #[trigger] write_chars_spec(v, seq![c]).cells[i] == v.cells[i
                    + 80]
            &&& forall|i: int|
                1920 < i < 2000 ==> #[trigger] write_chars_spec(v, seq![c]).cells[i] == (ScreenChar {
                    ascii_character: 32,
                    color_code: v.color,
                })
        },
{
    let s = seq![c];
    assert(s.drop_last() =~= Seq::<char>::empty());
    assert(s.last() == c);
    assert(write_chars_spec(v, Seq::<char>::empty()) == v);
    assert(write_chars_spec(v, s.drop_last()) == v);
    assert(write_chars_spec(v, s) == write_char_spec(v, c));
}

/// Writing printable text never loses a character: after `n > 0` printable
/// characters from column `c0` the cursor is at `(c0 + n - 1) % 80 + 1`, one
/// column per character, wrapping to the next row after column 80.
pub proof fn lemma_cursor_advance(v: WriterView, s: Seq<char>)
    requires
        v.cells.len() == 2000,
        v.column <= 80,
        forall|i: int| 0 <= i < s.len() ==> ' ' <= #[trigger] s[i] <= '~',
    ensures
        write_chars_spec(v, s).column == if s.len() == 0 {
            v.column as int
        } else {
            (v.column + s.len() - 1) % 80 + 1
        },
        write_chars_spec(v, s).cells.len() == 2000,
        write_chars_spec(v, s).color == v.color,
    decreases s.len(),
{
    if s.len() > 0 {
        let init = s.drop_last();
        assert forall|i: int| 0 <= i < init.len() implies ' ' <= #[trigger] init[i] <= '~' by {
            assert(init[i] == s[i]);
        }
        lemma_cursor_advance(v, init);
        let w = write_chars_spec(v, init);
        let c = s.last();
        assert(' ' <= s[s.len() - 1] <= '~');
        assert(is_printable(c));
        let c0 = v.column as int;
        let n = s.len() as int;
        if n == 1 {
            assert((c0 + n - 1) % 80 + 1 == if c0 == 80 { 1 } else { c0 + 1 }) by (nonlinear_arith)
                requires
                    0 <= c0 <= 80,
                    n == 1,
            ;
        } else {
            let x = c0 + n - 2;
            assert((x + 1) % 80 + 1 == if x % 80 + 1 >= 80 { 1 } else { x % 80 + 2 })
                by (nonlinear_arith)
                requires
                    x >= 0,
            ;
        }
    }
}

/// `n` line feeds.
pub open spec fn line_feeds(n: nat) -> Seq<char> {
    Seq::new(n, |i: int| '\n')
}

proof fn lemma_line_feeds_shift(v: WriterView, n: nat)
    requires
        v.cells.len() == BUFFER_HEIGHT * BUFFER_WIDTH,
        n <= BUFFER_HEIGHT,
    ensures
        write_chars_spec(v, line_feeds(n)).cells.len() == v.cells.len(),
        write_chars_spec(v, line_feeds(n)).color == v.color,
        write_chars_spec(v, line_feeds(n)).column == (if n == 0 { v.column } else { 0 }),
        forall|i: int|
            0 <= i < BUFFER_HEIGHT * BUFFER_WIDTH ==> #[trigger] write_chars_spec(
                v,
                line_feeds(n),
            ).cells[i] == if i < (BUFFER_HEIGHT - n) * BUFFER_WIDTH {
                v.cells[i + n * BUFFER_WIDTH]
            } else {
                blank(v.color)
            },
    decreases n,
{
    if n > 0 {
        assert(line_feeds(n).drop_last() =~= line_feeds((n - 1) as nat));
        lemma_line_feeds_shift(v, (n - 1) as nat);
        assert(line_feeds(n).last() == '\n');
    } else {
        assert(write_chars_spec(v, line_feeds(n)) == v);
    }
}

/// A screen's height in line feeds leaves every cell blank in the current
/// colour with the cursor at the start of the bottom row: how the `clear`
/// command empties the screen.
pub proof fn lemma_clear_screen(v: WriterView)
    requires
        v.cells.len() == BUFFER_HEIGHT * BUFFER_WIDTH,
    ensures
        write_chars_spec(v, line_feeds(BUFFER_HEIGHT as nat)) == (WriterView {
            column: 0,
            color: v.color,
            cells: Seq::new((BUFFER_HEIGHT * BUFFER_WIDTH) as nat, |i: int| blank(v.color)),
        }),
{
    lemma_line_feeds_shift(v, BUFFER_HEIGHT as nat);
    assert(write_chars_spec(v, line_feeds(BUFFER_HEIGHT as nat)).cells =~= Seq::new(
        (BUFFER_HEIGHT * BUFFER_WIDTH) as nat,
        |i: int| blank(v.color),
    ));
}

/// A writer for the VGA text screen. It keeps the screen's cells as plain
/// values; whoever owns the hardware buffer copies them out.
pub struct Writer {
    column_position: usize,
    color_code: ColorCode,
    buffer: Vec<ScreenChar>,
}

impl Writer {
    pub closed spec fn view(&self) -> WriterView {
        WriterView {
            column: self.column_position as nat,
            color: self.color_code,
            cells: self.buffer@,
        }
    }

    /// The cursor never goes past the end of the row, and the screen holds
    /// exactly one cell per position.
    pub open spec fn wf(&self) -> bool {
        &&& self.view().column <= BUFFER_WIDTH
        &&& self.view().cells.len() == BUFFER_HEIGHT * BUFFER_WIDTH
    }

    /// A writer over the given screen contents, cursor at column 0.
    pub fn new(color_code: ColorCode, screen: Vec<ScreenChar>) -> (w: Writer)
        requires
            screen@.len() == BUFFER_HEIGHT * BUFFER_WIDTH,
        ensures
            w.wf(),
            w.view() == (WriterView { column: 0, color: color_code, cells: screen@ }),
    {
        Writer { column_position: 0, color_code, buffer: screen }
    }

    /// The cursor column.
    pub fn column_position(&self) -> (r: usize)
        ensures
            r == self.view().column,
    {
        self.column_position
    }

    /// The current colour.
    pub fn color_code(&self) -> (r: ColorCode)
        ensures
            r == self.view().color,
    {
        self.color_code
    }

    /// The screen's cells, row after row.
    pub fn screen(&self) -> (r: &Vec<ScreenChar>)
        ensures
            r@ == self.view().cells,
    {
        &self.buffer
    }

    /// The cell at `row`, `col`.
    pub fn cell(&self, row: usize, col: usize) -> (r: ScreenChar)
        requires
            self.wf(),
            row < BUFFER_HEIGHT,
            col < BUFFER_WIDTH,
        ensures
            r == self.view().cells[cell_index(row as int, col as int)],
    {
        self.buffer[row * BUFFER_WIDTH + col]
    }

    /// Changes the colour used for what is written from now on.
    pub fn set_color(&mut self, foreground: Color, background: Color)
        requires
            old(self).wf(),
        ensures
            final(self).wf(),
            final(self).view() == (WriterView {
                color: ColorCode(
                    (background.spec_code() * 16 + foreground.spec_code()) as u8,
                ),
                ..old(self).view()
            }),
    {
        self.color_code = ColorCode::new(foreground, background);
    }

    /// Writes one byte: `\n` starts a new line, any other byte is put at
    /// the cursor on the bottom row.
    pub fn write_byte(&mut self, byte: u8)
        requires
            old(self).wf(),
        ensures
            final(self).wf(),
            final(self).view() == write_byte_spec(old(self).view(), byte),
    {
        if byte == 10u8 {
            self.new_line();
        } else {
            if self.column_position >= BUFFER_WIDTH {
                self.new_line();
            }
            let row = BUFFER_HEIGHT - 1;
            let col = self.column_position;
            let c = ScreenChar { ascii_character: byte, color_code: self.color_code };
            self.buffer.set(row * BUFFER_WIDTH + col, c);
            self.column_position = self.column_position + 1;
        }
    }

    /// Writes a string: `\n` starts a new line, printable ASCII is written as
    /// itself and every other character as one `?`.
    pub fn write_string(&mut self, s: &str)
        requires
            old(self).wf(),
        ensures
            final(self).wf(),
            final(self).view() == write_chars_spec(old(self).view(), s@),
    {
        let ghost start = self.view();
        let ghost mut done: Seq<char> = Seq::empty();
        for c in it: s.chars()
            invariant
                self.wf(),
                it.seq() == s@,
                done == it.seq().take(it.index() as int),
                self.view() == write_chars_spec(start, done),
        {
            proof {
                assert(done.push(c).drop_last() =~= done);
                done = done.push(c);
            }
            if c == '\n' {
                self.new_line();
            } else if c >= ' ' && c <= '~' {
                self.write_byte(c as u8);
            } else {
                self.write_byte(0x3fu8);
            }
        }
        assert(done =~= s@);
    }

    fn new_line(&mut self)
        requires
            old(self).wf(),
        ensures
            final(self).wf(),
            final(self).view() == new_line_spec(old(self).view()),
    {
        let ghost old_cells = self.buffer@;
        let last = (BUFFER_HEIGHT - 1) * BUFFER_WIDTH;
        for k in 0..last
            invariant
                self.wf(),
                self.color_code == old(self).color_code,
                old_cells == old(self).buffer@,
                last == (BUFFER_HEIGHT - 1) * BUFFER_WIDTH,
                forall|i: int| 0 <= i < k ==> self.buffer@[i] == old_cells[i + BUFFER_WIDTH],
                forall|i: int| k <= i < BUFFER_HEIGHT * BUFFER_WIDTH ==> self.buffer@[i] == old_cells[i],
        {
            let c = self.buffer[k + BUFFER_WIDTH];
            self.buffer.set(k, c);
        }
        self.clear_row(BUFFER_HEIGHT - 1);
        self.column_position = 0;
        proof {
            assert(self.buffer@ =~= scrolled(old_cells, self.color_code));
        }
    }

    fn clear_row(&mut self, row: usize)
        requires
            old(self).wf(),
            row < BUFFER_HEIGHT,
        ensures
            final(self).wf(),
            final(self).column_position == old(self).column_position,
            final(self).color_code == old(self).color_code,
            forall|i: int|
                0 <= i < BUFFER_HEIGHT * BUFFER_WIDTH ==> #[trigger] final(self).buffer@[i] == if row
                    * BUFFER_WIDTH <= i < (row + 1) * BUFFER_WIDTH {
                    blank(old(self).color_code)
                } else {
                    old(self).buffer@[i]
                },
    {
        let blank_char = ScreenChar { ascii_character: 0x20u8, color_code: self.color_code };
        for col in 0..BUFFER_WIDTH
            invariant
                self.wf(),
                row < BUFFER_HEIGHT,
                blank_char == blank(old(self).color_code),
                self.column_position == old(self).column_position,
                self.color_code == old(self).color_code,
                forall|i: int|
                    0 <= i < BUFFER_HEIGHT * BUFFER_WIDTH ==> #[trigger] self.buffer@[i] == if row
                        * BUFFER_WIDTH <= i < row * BUFFER_WIDTH + col {
                        blank(old(self).color_code)
                    } else {
                        old(self).buffer@[i]
                    },
        {
            self.buffer.set(row * BUFFER_WIDTH + col, blank_char);
        }
    }
}

} // verus!
