//! Line-buffered text output on a fixed 25x80 grid of display cells.
//!
//! The writer always writes into the last row; a newline (or running past the
//! last column) scrolls every row up by one and blanks the last row. Bytes
//! outside the printable range are replaced by a placeholder glyph, so writing
//! is total over all byte values. The abstract state of the display is a
//! [`Screen`]: a sequence of rows of [`ScreenChar`] cells plus the cursor
//! column, and every operation's contract is stated as a pure transition on
//! that state.

use vstd::prelude::*;
use vstd::string::StrSliceExecFns;
use vstd::string::StringSliceAdditionalSpecFns;

verus! {

/// Number of rows of the display grid.
pub const BUFFER_HEIGHT: usize = 25;

/// Number of columns of the display grid.
pub const BUFFER_WIDTH: usize = 80;

/// Byte that triggers a scroll instead of being written.
pub const NEWLINE_BYTE: u8 = 0x0a;

/// Glyph written in place of a byte outside the printable range.
pub const PLACEHOLDER_BYTE: u8 = 0xfe;

/// Glyph used for cleared cells.
pub const BLANK_BYTE: u8 = 0x20;

/// The 16-color palette of the display hardware, in its fixed enumeration
/// order (palette index 0 through 15).
#[allow(dead_code)]
#[derive(Clone, Copy, PartialEq, Eq, Structural, Debug)]
pub enum Color {
    Black,
    Blue,
    Green,
    Cyan,
    Red,
    Magenta,
    Brown,
    LightGray,
    DarkGray,
    LightBlue,
    LightGreen,
    LightCyan,
    LightRed,
    Pink,
    Yellow,
    White,
}

impl Color {
    /// Palette index of this color.
    pub open spec fn spec_u8(self) -> u8 {
        match self {
            Color::Black => 0,
            Color::Blue => 1,
            Color::Green => 2,
            Color::Cyan => 3,
            Color::Red => 4,
            Color::Magenta => 5,
            Color::Brown => 6,
            Color::LightGray => 7,
            Color::DarkGray => 8,
            Color::LightBlue => 9,
            Color::LightGreen => 10,
            Color::LightCyan => 11,
            Color::LightRed => 12,
            Color::Pink => 13,
            Color::Yellow => 14,
            Color::White => 15,
        }
    }

    /// Palette index of this color, 0 through 15.
    pub fn as_u8(self) -> (r: u8)
        ensures
            r == self.spec_u8(),
            r < 16,
    {
        match self {
            Color::Black => 0,
            Color::Blue => 1,
            Color::Green => 2,
            Color::Cyan => 3,
            Color::Red => 4,
            Color::Magenta => 5,
            Color::Brown => 6,
            Color::LightGray => 7,
            Color::DarkGray => 8,
            Color::LightBlue => 9,
            Color::LightGreen => 10,
            Color::LightCyan => 11,
            Color::LightRed => 12,
            Color::Pink => 13,
            Color::Yellow => 14,
            Color::White => 15,
        }
    }
}

/// A display attribute byte: background color in the high nibble, foreground
/// color in the low nibble.
#[derive(Clone, Copy, PartialEq, Eq, Structural, Debug)]
pub struct ColorCode(pub u8);

impl ColorCode {
    /// Packs a foreground and a background color into one attribute byte.
    pub fn new(foreground: Color, background: Color) -> (r: ColorCode)
        ensures
            r.0 == background.spec_u8() * 16 + foreground.spec_u8(),
    {
        ColorCode(background.as_u8() * 16 + foreground.as_u8())
    }
}

/// One cell of the display grid: a character byte and its color attribute.
#[derive(Clone, Copy, PartialEq, Eq, Structural, Debug)]
pub struct ScreenChar {
    pub ascii_character: u8,
    pub color_code: ColorCode,
}

/// Abstract state of the display: the grid contents and the cursor column.
/// The cursor row is always the last row.
#[verifier::ext_equal]
pub struct Screen {
    pub grid: Seq<Seq<ScreenChar>>,
    pub cursor: int,
}

/// The grid has exactly `BUFFER_HEIGHT` rows of `BUFFER_WIDTH` cells each,
/// and the cursor lies between 0 and `BUFFER_WIDTH` inclusive (a cursor of
/// `BUFFER_WIDTH` means the next printable byte scrolls first).
pub open spec fn wf_screen(s: Screen) -> bool {
    &&& s.grid.len() == BUFFER_HEIGHT
    &&& forall|r: int| 0 <= r < s.grid.len() ==> (#[trigger] s.grid[r]).len() == BUFFER_WIDTH
    &&& 0 <= s.cursor <= BUFFER_WIDTH
}

/// A cleared cell: a blank glyph with the given attribute.
pub open spec fn blank_cell(color: ColorCode) -> ScreenChar {
    ScreenChar { ascii_character: BLANK_BYTE, color_code: color }
}

/// A whole row of cleared cells.
pub open spec fn blank_row(color: ColorCode) -> Seq<ScreenChar> {
    Seq::new(BUFFER_WIDTH as nat, |c: int| blank_cell(color))
}

/// The screen after one scroll: every row takes the contents of the row below
/// it, the last row is cleared, and the cursor returns to column 0.
pub open spec fn scrolled(s: Screen, color: ColorCode) -> Screen {
    Screen {
        grid: Seq::new(
            BUFFER_HEIGHT as nat,
            |r: int| if r < BUFFER_HEIGHT - 1 { s.grid[r + 1] } else { blank_row(color) },
        ),
        cursor: 0,
    }
}

/// Whether a byte is in the printable range and is written as itself.
pub open spec fn printable(byte: u8) -> bool {
    0x20 <= byte <= 0x7e
}

/// The byte actually stored for an input byte: printable bytes unchanged,
/// everything else replaced by the placeholder glyph.
pub open spec fn substituted(byte: u8) -> u8 {
    if printable(byte) { byte } else { PLACEHOLDER_BYTE }
}

/// The screen after storing `byte` at the cursor of the last row and
/// advancing the cursor.
pub open spec fn written(s: Screen, byte: u8, color: ColorCode) -> Screen {
    Screen {
        grid: s.grid.update(
            BUFFER_HEIGHT - 1,
            s.grid[BUFFER_HEIGHT - 1].update(
                s.cursor,
                ScreenChar { ascii_character: byte, color_code: color },
            ),
        ),
        cursor: s.cursor + 1,
    }
}

/// Whether feeding `byte` to the writer in state `s` causes a scroll.
pub open spec fn step_scrolls(s: Screen, byte: u8) -> bool {
    byte == NEWLINE_BYTE || s.cursor >= BUFFER_WIDTH
}

/// The screen after one byte of output: a newline scrolls; any other byte is
/// stored (substituted if unprintable) at the cursor, scrolling first if the
/// cursor is past the last column.
pub open spec fn step(s: Screen, byte: u8, color: ColorCode) -> Screen {
    if byte == NEWLINE_BYTE {
        scrolled(s, color)
    } else {
        let base = if s.cursor >= BUFFER_WIDTH { scrolled(s, color) } else { s };
        written(base, substituted(byte), color)
    }
}

/// The screen after a whole sequence of output bytes, first byte first.
pub open spec fn run(s: Screen, bytes: Seq<u8>, color: ColorCode) -> Screen
    decreases bytes.len(),
{
    if bytes.len() == 0 {
        s
    } else {
        run(step(s, bytes[0], color), bytes.drop_first(), color)
    }
}

/// How many scrolls a sequence of output bytes causes.
pub open spec fn scroll_count(s: Screen, bytes: Seq<u8>, color: ColorCode) -> nat
    decreases bytes.len(),
{
    if bytes.len() == 0 {
        0
    } else {
        (if step_scrolls(s, bytes[0]) { 1nat } else { 0nat }) + scroll_count(
            step(s, bytes[0], color),
            bytes.drop_first(),
            color,
        )
    }
}

/// The rows of the concrete cell storage, as sequences.
pub open spec fn grid_view(chars: Seq<Vec<ScreenChar>>) -> Seq<Seq<ScreenChar>> {
    Seq::new(chars.len(), |r: int| chars[r]@)
}

proof fn lemma_step_preserves_wf(s: Screen, byte: u8, color: ColorCode)
    requires
        wf_screen(s),
    ensures
        wf_screen(step(s, byte, color)),
{
}

/// The fixed grid of display cells the writer draws into.
pub struct Buffer {
    pub chars: Vec<Vec<ScreenChar>>,
}

/// Line-buffered writer over the display grid: tracks the cursor column and
/// the current color attribute, and always writes into the last row.
pub struct Writer {
    pub column_position: usize,
    pub color_code: ColorCode,
    pub buffer: Buffer,
}

impl View for Writer {
    type V = Screen;

    open spec fn view(&self) -> Screen {
        Screen { grid: grid_view(self.buffer.chars@), cursor: self.column_position as int }
    }
}

/// Stores `cell` at position (`row`, `col`) of the cell storage.
fn set_cell(chars: &mut Vec<Vec<ScreenChar>>, row: usize, col: usize, cell: ScreenChar)
    requires
        row < old(chars)@.len(),
        col < old(chars)@[row as int]@.len(),
    ensures
        grid_view(final(chars)@) =~= grid_view(old(chars)@).update(
            row as int,
            grid_view(old(chars)@)[row as int].update(col as int, cell),
        ),
{
    chars[row][col] = cell;
}

/// Reads the cell at position (`row`, `col`) of the cell storage.
fn get_cell(chars: &Vec<Vec<ScreenChar>>, row: usize, col: usize) -> (cell: ScreenChar)
    requires
        row < chars@.len(),
        col < chars@[row as int]@.len(),
    ensures
        cell == grid_view(chars@)[row as int][col as int],
{
    *vstd::slice::slice_index_get(vstd::slice::slice_index_get(chars.as_slice(), row).as_slice(), col)
}

impl Writer {
    /// The writer's state is a well-formed screen.
    pub open spec fn wf(self) -> bool {
        wf_screen(self@)
    }

    /// The color attribute new cells are written with.
    pub open spec fn color(self) -> ColorCode {
        self.color_code
    }

    /// A fresh writer: cursor at column 0, every cell blank in the given
    /// color.
    #[verifier::loop_isolation(false)]
    pub fn new(color_code: ColorCode) -> (w: Writer)
        ensures
            w.wf(),
            w.color() == color_code,
            w@.cursor == 0,
            w@.grid =~= Seq::new(BUFFER_HEIGHT as nat, |r: int| blank_row(color_code)),
    {
        let blank = ScreenChar { ascii_character: BLANK_BYTE, color_code };
        let mut chars: Vec<Vec<ScreenChar>> = Vec::new();
        while chars.len() < BUFFER_HEIGHT
            invariant
                chars@.len() <= BUFFER_HEIGHT,
                forall|r: int| 0 <= r < chars@.len() ==> (#[trigger] chars@[r])@ =~= blank_row(color_code),
            decreases BUFFER_HEIGHT - chars@.len(),
        {
            let mut row: Vec<ScreenChar> = Vec::new();
            while row.len() < BUFFER_WIDTH
                invariant
                    row@.len() <= BUFFER_WIDTH,
                    forall|c: int| 0 <= c < row@.len() ==> #[trigger] row@[c] == blank_cell(color_code),
                decreases BUFFER_WIDTH - row@.len(),
            {
                row.push(blank);
            }
            proof {
                assert(row@ =~= blank_row(color_code));
            }
            chars.push(row);
        }
        Writer { column_position: 0, color_code, buffer: Buffer { chars } }
    }

    /// Current cursor column.
    pub fn column(&self) -> (c: usize)
        ensures
            c == self@.cursor,
    {
        self.column_position
    }

    /// Current color attribute.
    pub fn current_color(&self) -> (c: ColorCode)
        ensures
            c == self.color(),
    {
        self.color_code
    }

    /// The cell currently stored at (`row`, `col`).
    pub fn read_cell(&self, row: usize, col: usize) -> (cell: ScreenChar)
        requires
            self.wf(),
            row < BUFFER_HEIGHT,
            col < BUFFER_WIDTH,
        ensures
            cell == self@.grid[row as int][col as int],
    {
        get_cell(&self.buffer.chars, row, col)
    }

    /// Writes one byte of output: a newline scrolls; any other byte is stored
    /// at the cursor of the last row — substituted by the placeholder glyph if
    /// it is not printable — scrolling first if the line is already full.
    pub fn write_byte(&mut self, byte: u8)
        requires
            old(self).wf(),
        ensures
            final(self).wf(),
            final(self).color() == old(self).color(),
            final(self)@ == step(old(self)@, byte, old(self).color()),
    {
        if byte == NEWLINE_BYTE {
            self.new_line();
        } else {
            if self.column_position >= BUFFER_WIDTH {
                self.new_line();
            }
            let ghost base = self@;
            let row = BUFFER_HEIGHT - 1;
            let col = self.column_position;
            let color_code = self.color_code;
            let stored = if 0x20 <= byte && byte <= 0x7e { byte } else { PLACEHOLDER_BYTE };
            proof {
                assert(self.buffer.chars@[row as int]@ == self@.grid[row as int]);
            }
            set_cell(
                &mut self.buffer.chars,
                row,
                col,
                ScreenChar { ascii_character: stored, color_code },
            );
            self.column_position = col + 1;
            proof {
                assert(self@ =~= written(base, substituted(byte), old(self).color()));
                assert(self@ =~= step(old(self)@, byte, old(self).color()));
            }
        }
    }

    /// Scrolls: every row takes the contents of the row below it, the last
    /// row is cleared, and the cursor returns to column 0. Row `r` afterwards
    /// equals row `r + 1` before, for every row but the last.
    #[verifier::loop_isolation(false)]
    pub fn new_line(&mut self)
        requires
            old(self).wf(),
        ensures
            final(self).wf(),
            final(self).color() == old(self).color(),
            final(self)@ == scrolled(old(self)@, old(self).color()),
            final(self)@.cursor == 0,
            forall|r: int|
                0 <= r < BUFFER_HEIGHT - 1 ==> #[trigger] final(self)@.grid[r] == old(self)@.grid[r + 1],
            final(self)@.grid[BUFFER_HEIGHT - 1] =~= blank_row(old(self).color()),
    {
        let ghost g0 = self@.grid;
        let mut row: usize = 1;
        while row < BUFFER_HEIGHT
            invariant
                1 <= row <= BUFFER_HEIGHT,
                self.color_code == old(self).color_code,
                self.column_position == old(self).column_position,
                self@.grid.len() == BUFFER_HEIGHT,
                forall|r: int| 0 <= r < BUFFER_HEIGHT ==> (#[trigger] self@.grid[r]).len() == BUFFER_WIDTH,
                forall|r: int| 0 <= r < row - 1 ==> #[trigger] self@.grid[r] == g0[r + 1],
                forall|r: int| row - 1 <= r < BUFFER_HEIGHT ==> #[trigger] self@.grid[r] == g0[r],
            decreases BUFFER_HEIGHT - row,
        {
            let ghost gpre = self@.grid;
            let mut col: usize = 0;
            while col < BUFFER_WIDTH
                invariant
                    1 <= row < BUFFER_HEIGHT,
                    col <= BUFFER_WIDTH,
                    self.color_code == old(self).color_code,
                    self.column_position == old(self).column_position,
                    self@.grid.len() == BUFFER_HEIGHT,
                    forall|r: int|
                        0 <= r < BUFFER_HEIGHT ==> (#[trigger] self@.grid[r]).len() == BUFFER_WIDTH,
                    forall|r: int|
                        0 <= r < BUFFER_HEIGHT && r != row - 1 ==> #[trigger] self@.grid[r] == gpre[r],
                    self@.grid[row - 1] =~= gpre[row as int].take(col as int) + gpre[row - 1].skip(
                        col as int,
                    ),
                decreases BUFFER_WIDTH - col,
            {
                proof {
                    assert(self.buffer.chars@[row as int]@ == self@.grid[row as int]);
                    assert(self.buffer.chars@[row - 1]@ == self@.grid[row - 1]);
                }
                let character = get_cell(&self.buffer.chars, row, col);
                set_cell(&mut self.buffer.chars, row - 1, col, character);
                col = col + 1;
            }
            proof {
                assert(self@.grid[row - 1] =~= gpre[row as int]);
            }
            row = row + 1;
        }
        self.clear_row(BUFFER_HEIGHT - 1);
        self.column_position = 0;
        proof {
            assert(self@ =~~= scrolled(Screen { grid: g0, cursor: old(self)@.cursor }, old(self).color()));
        }
    }

    /// Clears row `row` to blank cells in the current color.
    #[verifier::loop_isolation(false)]
    fn clear_row(&mut self, row: usize)
        requires
            old(self).wf(),
            row < BUFFER_HEIGHT,
        ensures
            final(self).wf(),
            final(self).color() == old(self).color(),
            final(self)@.cursor == old(self)@.cursor,
            final(self)@.grid =~= old(self)@.grid.update(row as int, blank_row(old(self).color())),
    {
        let blank = ScreenChar { ascii_character: BLANK_BYTE, color_code: self.color_code };
        let mut col: usize = 0;
        while col < BUFFER_WIDTH
            invariant
                col <= BUFFER_WIDTH,
                row < BUFFER_HEIGHT,
                self.color_code == old(self).color_code,
                self.column_position == old(self).column_position,
                self@.grid.len() == BUFFER_HEIGHT,
                forall|r: int|
                    0 <= r < BUFFER_HEIGHT ==> (#[trigger] self@.grid[r]).len() == BUFFER_WIDTH,
                forall|r: int|
                    0 <= r < BUFFER_HEIGHT && r != row ==> #[trigger] self@.grid[r] == old(
                        self,
                    )@.grid[r],
                self@.grid[row as int] =~= blank_row(self.color_code).take(col as int) + old(
                    self,
                )@.grid[row as int].skip(col as int),
            decreases BUFFER_WIDTH - col,
        {
            set_cell(&mut self.buffer.chars, row, col, blank);
            col = col + 1;
        }
        proof {
            assert(self@.grid[row as int] =~= blank_row(old(self).color()));
            assert(self@.grid =~= old(self)@.grid.update(row as int, blank_row(old(self).color())));
        }
    }

    /// Writes every byte of the slice in order through [`Writer::write_byte`].
    #[verifier::loop_isolation(false)]
    pub fn write_bytes(&mut self, bytes: &[u8])
        requires
            old(self).wf(),
        ensures
            final(self).wf(),
            final(self).color() == old(self).color(),
            final(self)@ == run(old(self)@, bytes@, old(self).color()),
    {
        let n = bytes.len();
        let mut i: usize = 0;
        while i < n
            invariant
                i <= n,
                n == bytes@.len(),
                self.wf(),
                self.color() == old(self).color(),
                self@ == run(old(self)@, bytes@.take(i as int), old(self).color()),
            decreases n - i,
        {
            proof {
                lemma_run_snoc(old(self)@, bytes@.take(i as int), bytes@[i as int], old(self).color());
                assert(bytes@.take(i + 1) =~= bytes@.take(i as int).push(bytes@[i as int]));
            }
            let byte = *vstd::slice::slice_index_get(bytes, i);
            self.write_byte(byte);
            i = i + 1;
        }
        proof {
            assert(bytes@.take(n as int) =~= bytes@);
        }
    }

    /// Writes every byte of the string in order through [`Writer::write_byte`].
    pub fn write_string(&mut self, s: &str)
        requires
            old(self).wf(),
        ensures
            final(self).wf(),
            final(self).color() == old(self).color(),
            final(self)@ == run(old(self)@, s.spec_bytes(), old(self).color()),
    {
        let bytes = s.as_bytes_vec();
        self.write_bytes(bytes.as_slice());
    }
}

/// Feeding the bytes one by one is the same as feeding them all at once:
/// running `bytes` and then one more byte `b` equals one step on the state
/// reached by `bytes`.
pub proof fn lemma_run_snoc(s: Screen, bytes: Seq<u8>, b: u8, color: ColorCode)
    ensures
        run(s, bytes.push(b), color) == step(run(s, bytes, color), b, color),
    decreases bytes.len(),
{
    if bytes.len() == 0 {
        assert(bytes.push(b)[0] == b);
        assert(bytes.push(b).drop_first() =~= Seq::<u8>::empty());
        assert(run(s, bytes.push(b), color) == run(
            step(s, b, color),
            bytes.push(b).drop_first(),
            color,
        ));
        assert(run(step(s, b, color), Seq::<u8>::empty(), color) == step(s, b, color));
        assert(run(s, bytes, color) == s);
    } else {
        assert(bytes.push(b)[0] == bytes[0]);
        assert(bytes.push(b).drop_first() =~= bytes.drop_first().push(b));
        lemma_run_snoc(step(s, bytes[0], color), bytes.drop_first(), b, color);
        assert(run(s, bytes.push(b), color) == run(
            step(s, bytes[0], color),
            bytes.drop_first().push(b),
            color,
        ));
        assert(run(s, bytes, color) == run(step(s, bytes[0], color), bytes.drop_first(), color));
    }
}

/// Running two byte sequences one after the other is the same as running
/// their concatenation.
pub proof fn lemma_run_append(s: Screen, a: Seq<u8>, b: Seq<u8>, color: ColorCode)
    ensures
        run(s, a + b, color) == run(run(s, a, color), b, color),
    decreases a.len(),
{
    if a.len() == 0 {
        assert(a + b =~= b);
        assert(run(s, a, color) == s);
    } else {
        assert((a + b)[0] == a[0]);
        assert((a + b).drop_first() =~= a.drop_first() + b);
        lemma_run_append(step(s, a[0], color), a.drop_first(), b, color);
    }
}

/// The scrolls of a concatenation are the scrolls of the first part plus the
/// scrolls of the second part run from where the first part left off.
pub proof fn lemma_scroll_count_append(s: Screen, a: Seq<u8>, b: Seq<u8>, color: ColorCode)
    ensures
        scroll_count(s, a + b, color) == scroll_count(s, a, color) + scroll_count(
            run(s, a, color),
            b,
            color,
        ),
    decreases a.len(),
{
    if a.len() == 0 {
        assert(a + b =~= b);
        assert(run(s, a, color) == s);
    } else {
        assert((a + b)[0] == a[0]);
        assert((a + b).drop_first() =~= a.drop_first() + b);
        lemma_scroll_count_append(step(s, a[0], color), a.drop_first(), b, color);
    }
}

/// Writing keeps the screen well-formed, whatever the bytes.
pub proof fn lemma_run_preserves_wf(s: Screen, bytes: Seq<u8>, color: ColorCode)
    requires
        wf_screen(s),
    ensures
        wf_screen(run(s, bytes, color)),
    decreases bytes.len(),
{
    if bytes.len() > 0 {
        lemma_step_preserves_wf(s, bytes[0], color);
        lemma_run_preserves_wf(step(s, bytes[0], color), bytes.drop_first(), color);
    }
}

/// A printable byte is stored as itself: one step on a byte in the printable
/// range puts exactly that byte, in the current color, into the cell at the
/// pre-write cursor of the last row, and advances the cursor by one.
pub proof fn lemma_printable_byte_written(s: Screen, byte: u8, color: ColorCode)
    requires
        wf_screen(s),
        s.cursor < BUFFER_WIDTH,
        printable(byte),
    ensures
        step(s, byte, color).grid[BUFFER_HEIGHT - 1][s.cursor] == (ScreenChar {
            ascii_character: byte,
            color_code: color,
        }),
        step(s, byte, color).cursor == s.cursor + 1,
{
}

/// A byte outside the printable range (newline excepted, which writes no
/// cell at all) is never stored: the cell written holds the placeholder
/// glyph, not the original byte.
pub proof fn lemma_unprintable_byte_substituted(s: Screen, byte: u8, color: ColorCode)
    requires
        wf_screen(s),
        s.cursor < BUFFER_WIDTH,
        !printable(byte),
        byte != NEWLINE_BYTE,
    ensures
        step(s, byte, color).grid[BUFFER_HEIGHT - 1][s.cursor] == (ScreenChar {
            ascii_character: PLACEHOLDER_BYTE,
            color_code: color,
        }),
        byte != PLACEHOLDER_BYTE ==> step(s, byte, color).grid[BUFFER_HEIGHT - 1][s.cursor]
            .ascii_character != byte,
{
}

/// Scrolling shifts content up in order: row `r` of the scrolled screen is
/// row `r + 1` of the original for every row but the last, the last row
/// becomes blank, and the cursor returns to column 0.
pub proof fn lemma_scroll_row_order(s: Screen, color: ColorCode)
    requires
        wf_screen(s),
    ensures
        forall|r: int|
            0 <= r < BUFFER_HEIGHT - 1 ==> #[trigger] scrolled(s, color).grid[r] == s.grid[r + 1],
        scrolled(s, color).grid[BUFFER_HEIGHT - 1] == blank_row(color),
        scrolled(s, color).cursor == 0,
{
}

/// Non-newline bytes that fit in the rest of the current line scroll
/// nothing, and each advances the cursor by one.
pub proof fn lemma_no_scroll_within_line(s: Screen, bytes: Seq<u8>, color: ColorCode)
    requires
        wf_screen(s),
        forall|i: int| 0 <= i < bytes.len() ==> bytes[i] != NEWLINE_BYTE,
        s.cursor + bytes.len() <= BUFFER_WIDTH,
    ensures
        scroll_count(s, bytes, color) == 0,
        run(s, bytes, color).cursor == s.cursor + bytes.len(),
    decreases bytes.len(),
{
    if bytes.len() > 0 {
        assert(!step_scrolls(s, bytes[0]));
        lemma_step_preserves_wf(s, bytes[0], color);
        lemma_no_scroll_within_line(step(s, bytes[0], color), bytes.drop_first(), color);
    }
}

/// Writing more than a full line of non-newline bytes scrolls exactly once:
/// the first `BUFFER_WIDTH` bytes fill the last row without scrolling and
/// leave the cursor at the last column; the byte past the boundary scrolls,
/// lands in column 0 of the fresh last row and leaves the cursor at column
/// 1; and the remaining bytes (up to a second full line) scroll no further.
pub proof fn lemma_full_line_scrolls_once(s: Screen, bytes: Seq<u8>, color: ColorCode)
    requires
        wf_screen(s),
        s.cursor == 0,
        forall|i: int| 0 <= i < bytes.len() ==> bytes[i] != NEWLINE_BYTE,
        BUFFER_WIDTH < bytes.len() <= 2 * BUFFER_WIDTH,
    ensures
        scroll_count(s, bytes.take(BUFFER_WIDTH as int), color) == 0,
        run(s, bytes.take(BUFFER_WIDTH as int), color).cursor == BUFFER_WIDTH,
        run(s, bytes.take(BUFFER_WIDTH + 1), color).cursor == 1,
        run(s, bytes.take(BUFFER_WIDTH + 1), color).grid[BUFFER_HEIGHT - 1][0] == (ScreenChar {
            ascii_character: substituted(bytes[BUFFER_WIDTH as int]),
            color_code: color,
        }),
        scroll_count(s, bytes, color) == 1,
{
    let w = BUFFER_WIDTH as int;
    let head = bytes.take(w);
    let tail = bytes.skip(w);
    assert forall|i: int| 0 <= i < head.len() implies head[i] != NEWLINE_BYTE by {
        assert(head[i] == bytes[i]);
    }
    assert forall|i: int| 0 <= i < tail.len() implies tail[i] != NEWLINE_BYTE by {
        assert(tail[i] == bytes[i + w]);
    }
    lemma_no_scroll_within_line(s, head, color);
    lemma_run_preserves_wf(s, head, color);
    let s1 = run(s, head, color);
    assert(bytes =~= head + tail);
    lemma_run_append(s, head, tail, color);
    lemma_scroll_count_append(s, head, tail, color);
    assert(step_scrolls(s1, tail[0]));
    let s2 = step(s1, tail[0], color);
    lemma_step_preserves_wf(s1, tail[0], color);
    assert forall|i: int| 0 <= i < tail.drop_first().len() implies tail.drop_first()[i]
        != NEWLINE_BYTE by {
        assert(tail.drop_first()[i] == tail[i + 1]);
    }
    lemma_no_scroll_within_line(s2, tail.drop_first(), color);
    assert(scroll_count(s1, tail, color) == 1);
    assert(bytes.take(w + 1) =~= head.push(bytes[w]));
    lemma_run_snoc(s, head, bytes[w], color);
    assert(tail[0] == bytes[w]);
    assert(run(s, bytes.take(w + 1), color) == s2);
    assert(s2.grid[BUFFER_HEIGHT - 1][0] == (ScreenChar {
        ascii_character: substituted(bytes[w]),
        color_code: color,
    }));
}

/// The display cells of one output line: its bytes left-justified (each
/// substituted as the writer stores it) and the rest of the row blank.
pub open spec fn rendered_line(line: Seq<u8>, color: ColorCode) -> Seq<ScreenChar> {
    Seq::new(
        BUFFER_WIDTH as nat,
        |c: int|
            if c < line.len() {
                ScreenChar { ascii_character: substituted(line[c]), color_code: color }
            } else {
                blank_cell(color)
            },
    )
}

/// One line of output: at most a full row of non-newline bytes.
pub open spec fn wf_line(line: Seq<u8>) -> bool {
    &&& line.len() <= BUFFER_WIDTH
    &&& forall|i: int| 0 <= i < line.len() ==> line[i] != NEWLINE_BYTE
}

/// The screen after writing each line in order, each followed by a newline.
pub open spec fn run_lines(s: Screen, lines: Seq<Seq<u8>>, color: ColorCode) -> Screen
    decreases lines.len(),
{
    if lines.len() == 0 {
        s
    } else {
        run_lines(run(s, lines[0].push(NEWLINE_BYTE), color), lines.drop_first(), color)
    }
}

/// Cell-level effect of non-newline bytes that fit in the rest of the line:
/// rows above the last are untouched, the bytes land substituted at the
/// columns from the old cursor on, every other cell of the last row keeps
/// its contents, and the cursor advances by the number of bytes.
proof fn lemma_line_cells(s: Screen, line: Seq<u8>, color: ColorCode)
    requires
        wf_screen(s),
        forall|i: int| 0 <= i < line.len() ==> line[i] != NEWLINE_BYTE,
        s.cursor + line.len() <= BUFFER_WIDTH,
    ensures
        wf_screen(run(s, line, color)),
        run(s, line, color).cursor == s.cursor + line.len(),
        forall|r: int| 0 <= r < BUFFER_HEIGHT - 1 ==> #[trigger] run(s, line, color).grid[r]
            == s.grid[r],
        forall|c: int|
            0 <= c < BUFFER_WIDTH ==> #[trigger] run(s, line, color).grid[BUFFER_HEIGHT - 1][c]
                == (if s.cursor <= c < s.cursor + line.len() {
                    ScreenChar { ascii_character: substituted(line[c - s.cursor]), color_code: color }
                } else {
                    s.grid[BUFFER_HEIGHT - 1][c]
                }),
    decreases line.len(),
{
    lemma_run_preserves_wf(s, line, color);
    if line.len() > 0 {
        let t1 = step(s, line[0], color);
        lemma_step_preserves_wf(s, line[0], color);
        assert forall|i: int| 0 <= i < line.drop_first().len() implies line.drop_first()[i]
            != NEWLINE_BYTE by {
            assert(line.drop_first()[i] == line[i + 1]);
        }
        lemma_line_cells(t1, line.drop_first(), color);
        let t = run(s, line, color);
        assert(t == run(t1, line.drop_first(), color));
        assert forall|c: int| 0 <= c < BUFFER_WIDTH implies #[trigger] t.grid[BUFFER_HEIGHT - 1][c]
            == (if s.cursor <= c < s.cursor + line.len() {
                ScreenChar { ascii_character: substituted(line[c - s.cursor]), color_code: color }
            } else {
                s.grid[BUFFER_HEIGHT - 1][c]
            }) by {
            if s.cursor + 1 <= c < s.cursor + line.len() {
                assert(line.drop_first()[c - s.cursor - 1] == line[c - s.cursor]);
            }
        }
    }
}

/// Writing one line and then a newline, starting at column 0 with a blank
/// last row: the rows above shift up by one, the line lands rendered in the
/// second-to-last row, and a fresh blank last row remains with the cursor
/// back at column 0.
pub proof fn lemma_write_line(s: Screen, line: Seq<u8>, color: ColorCode)
    requires
        wf_screen(s),
        s.cursor == 0,
        s.grid[BUFFER_HEIGHT - 1] == blank_row(color),
        wf_line(line),
    ensures
        wf_screen(run(s, line.push(NEWLINE_BYTE), color)),
        run(s, line.push(NEWLINE_BYTE), color).cursor == 0,
        run(s, line.push(NEWLINE_BYTE), color).grid[BUFFER_HEIGHT - 1] == blank_row(color),
        run(s, line.push(NEWLINE_BYTE), color).grid[BUFFER_HEIGHT - 2] == rendered_line(
            line,
            color,
        ),
        forall|r: int|
            0 <= r < BUFFER_HEIGHT - 2 ==> #[trigger] run(s, line.push(NEWLINE_BYTE), color).grid[r]
                == s.grid[r + 1],
{
    lemma_line_cells(s, line, color);
    lemma_run_snoc(s, line, NEWLINE_BYTE, color);
    let s1 = run(s, line, color);
    assert(run(s, line.push(NEWLINE_BYTE), color) == scrolled(s1, color));
    assert(s1.grid[BUFFER_HEIGHT - 1] =~= rendered_line(line, color));
    lemma_scroll_row_order(s1, color);
    assert forall|r: int| 0 <= r < BUFFER_HEIGHT - 2 implies #[trigger] scrolled(
        s1,
        color,
    ).grid[r] == s.grid[r + 1] by {
        assert(scrolled(s1, color).grid[r] == s1.grid[r + 1]);
    }
}

/// Ordered top-to-bottom retention: after any sequence of lines, each
/// followed by a newline, the last row is blank with the cursor at column 0;
/// for every `j` up to the grid height, the `j`-th row above the last holds
/// the `j`-th newest line, rendered; and any rows above those hold the
/// original rows shifted up by one per line. Only the newest
/// `BUFFER_HEIGHT - 1` lines are retained; older lines left the top first.
pub proof fn lemma_lines_retained(s: Screen, lines: Seq<Seq<u8>>, color: ColorCode)
    requires
        wf_screen(s),
        s.cursor == 0,
        s.grid[BUFFER_HEIGHT - 1] == blank_row(color),
        forall|k: int| 0 <= k < lines.len() ==> wf_line(#[trigger] lines[k]),
    ensures
        wf_screen(run_lines(s, lines, color)),
        run_lines(s, lines, color).cursor == 0,
        run_lines(s, lines, color).grid[BUFFER_HEIGHT - 1] == blank_row(color),
        forall|j: int|
            1 <= j <= lines.len() && j <= BUFFER_HEIGHT - 1 ==> #[trigger] run_lines(
                s,
                lines,
                color,
            ).grid[BUFFER_HEIGHT - 1 - j] == rendered_line(lines[lines.len() - j], color),
        forall|r: int|
            0 <= r < BUFFER_HEIGHT - 1 - lines.len() ==> #[trigger] run_lines(s, lines, color).grid[r]
                == s.grid[r + lines.len()],
    decreases lines.len(),
{
    if lines.len() > 0 {
        lemma_write_line(s, lines[0], color);
        let s1 = run(s, lines[0].push(NEWLINE_BYTE), color);
        let rest = lines.drop_first();
        assert forall|k: int| 0 <= k < rest.len() implies wf_line(#[trigger] rest[k]) by {
            assert(rest[k] == lines[k + 1]);
        }
        lemma_lines_retained(s1, rest, color);
        let t = run_lines(s, lines, color);
        assert(t == run_lines(s1, rest, color));
        let h = BUFFER_HEIGHT as int;
        let n = lines.len() as int;
        assert forall|j: int| 1 <= j <= n && j <= h - 1 implies #[trigger] t.grid[h - 1 - j]
            == rendered_line(lines[n - j], color) by {
            if j <= n - 1 {
                assert(t.grid[h - 1 - j] == rendered_line(rest[n - 1 - j], color));
                assert(rest[n - 1 - j] == lines[n - j]);
            } else {
                assert(t.grid[h - 1 - n] == s1.grid[h - 1 - n + (n - 1)]);
                assert(s1.grid[h - 2] == rendered_line(lines[0], color));
            }
        }
        assert forall|r: int| 0 <= r < h - 1 - n implies #[trigger] t.grid[r] == s.grid[r + n] by {
            assert(t.grid[r] == s1.grid[r + n - 1]);
            assert(s1.grid[r + n - 1] == s.grid[r + n]);
        }
    }
}

} // verus!
