use os_rust::vga_buffer::{Color, ColorCode, Writer, BUFFER_HEIGHT, BUFFER_WIDTH};

fn fresh_writer() -> Writer {
    Writer::new(ColorCode::new(Color::Yellow, Color::Black))
}

const ATTR: u8 = 0x0e;
const BLANK: u8 = 0x20;
const PLACEHOLDER: u8 = 0xfe;

#[test]
fn color_code_packs_nibbles() {
    assert_eq!(ColorCode::new(Color::Yellow, Color::Black).0, 0x0e);
    assert_eq!(ColorCode::new(Color::White, Color::Blue).0, 0x1f);
    assert_eq!(ColorCode::new(Color::Black, Color::Black).0, 0x00);
    assert_eq!(ColorCode::new(Color::White, Color::White).0, 0xff);
}

#[test]
fn new_writer_is_blank() {
    let w = fresh_writer();
    assert_eq!(w.column(), 0);
    for row in 0..BUFFER_HEIGHT {
        for col in 0..BUFFER_WIDTH {
            let cell = w.read_cell(row, col);
            assert_eq!(cell.ascii_character, BLANK);
            assert_eq!(cell.color_code.0, ATTR);
        }
    }
}

#[test]
fn printable_byte_lands_at_cursor() {
    let mut w = fresh_writer();
    let col = w.column();
    w.write_byte(b'a');
    let cell = w.read_cell(BUFFER_HEIGHT - 1, col);
    assert_eq!(cell.ascii_character, b'a');
    assert_eq!(cell.color_code.0, ATTR);
    assert_eq!(w.column(), col + 1);
}

#[test]
fn every_printable_byte_written_unchanged() {
    for byte in 0x20..=0x7eu8 {
        let mut w = fresh_writer();
        w.write_byte(byte);
        let cell = w.read_cell(BUFFER_HEIGHT - 1, 0);
        assert_eq!(cell.ascii_character, byte);
        assert_eq!(cell.color_code.0, ATTR);
    }
}

#[test]
fn unprintable_bytes_substituted() {
    for byte in [0x00u8, 0x01, 0x07, 0x1f, 0x7f, 0x80, 0xc3, 0xff] {
        let mut w = fresh_writer();
        w.write_byte(byte);
        let cell = w.read_cell(BUFFER_HEIGHT - 1, 0);
        assert_eq!(cell.ascii_character, PLACEHOLDER);
        assert_ne!(cell.ascii_character, byte);
    }
}

#[test]
fn newline_scrolls_and_writes_no_cell() {
    let mut w = fresh_writer();
    w.write_string("abc");
    w.write_byte(b'\n');
    assert_eq!(w.column(), 0);
    for col in 0..BUFFER_WIDTH {
        assert_eq!(w.read_cell(BUFFER_HEIGHT - 1, col).ascii_character, BLANK);
    }
    assert_eq!(w.read_cell(BUFFER_HEIGHT - 2, 0).ascii_character, b'a');
    assert_eq!(w.read_cell(BUFFER_HEIGHT - 2, 1).ascii_character, b'b');
    assert_eq!(w.read_cell(BUFFER_HEIGHT - 2, 2).ascii_character, b'c');
}

#[test]
fn line_overflow_scrolls_exactly_once() {
    let mut w = fresh_writer();
    for _ in 0..BUFFER_WIDTH {
        w.write_byte(b'x');
    }
    // The full line sits in the last row; nothing has scrolled yet.
    assert_eq!(w.column(), BUFFER_WIDTH);
    for col in 0..BUFFER_WIDTH {
        assert_eq!(w.read_cell(BUFFER_HEIGHT - 1, col).ascii_character, b'x');
        assert_eq!(w.read_cell(BUFFER_HEIGHT - 2, col).ascii_character, BLANK);
    }
    // One byte past the boundary: one scroll, the byte lands in column 0.
    w.write_byte(b'y');
    assert_eq!(w.column(), 1);
    assert_eq!(w.read_cell(BUFFER_HEIGHT - 1, 0).ascii_character, b'y');
    for col in 1..BUFFER_WIDTH {
        assert_eq!(w.read_cell(BUFFER_HEIGHT - 1, col).ascii_character, BLANK);
    }
    for col in 0..BUFFER_WIDTH {
        assert_eq!(w.read_cell(BUFFER_HEIGHT - 2, col).ascii_character, b'x');
    }
    // More bytes fill the new line without another scroll.
    for _ in 0..(BUFFER_WIDTH - 1) {
        w.write_byte(b'z');
    }
    assert_eq!(w.column(), BUFFER_WIDTH);
    for col in 0..BUFFER_WIDTH {
        assert_eq!(w.read_cell(BUFFER_HEIGHT - 2, col).ascii_character, b'x');
    }
}

#[test]
fn scroll_shifts_rows_up_in_order() {
    let mut w = fresh_writer();
    w.write_string("first\n");
    w.write_string("second");
    w.new_line();
    assert_eq!(w.column(), 0);
    let first = b"first";
    let second = b"second";
    for (i, b) in first.iter().enumerate() {
        assert_eq!(w.read_cell(BUFFER_HEIGHT - 3, i).ascii_character, *b);
    }
    for (i, b) in second.iter().enumerate() {
        assert_eq!(w.read_cell(BUFFER_HEIGHT - 2, i).ascii_character, *b);
    }
    for col in 0..BUFFER_WIDTH {
        assert_eq!(w.read_cell(BUFFER_HEIGHT - 1, col).ascii_character, BLANK);
        assert_eq!(w.read_cell(BUFFER_HEIGHT - 1, col).color_code.0, ATTR);
    }
}

#[test]
fn hello_world_lines_recoverable() {
    let mut w = fresh_writer();
    w.write_string("Hello Wörld!");
    w.write_byte(b'\n');
    let formatted = format!("The numbers are {} and {}", 42, 1.0 / 3.0);
    w.write_string(&formatted);

    // "ö" is two bytes of UTF-8; each becomes the placeholder glyph.
    let expected: &[u8] = &[
        b'H', b'e', b'l', b'l', b'o', b' ', b'W', PLACEHOLDER, PLACEHOLDER, b'r', b'l', b'd', b'!',
    ];
    for col in 0..BUFFER_WIDTH {
        let want = expected.get(col).copied().unwrap_or(BLANK);
        assert_eq!(w.read_cell(BUFFER_HEIGHT - 2, col).ascii_character, want);
    }
    let line2 = formatted.as_bytes();
    assert_eq!(formatted, "The numbers are 42 and 0.3333333333333333");
    for col in 0..BUFFER_WIDTH {
        let want = line2.get(col).copied().unwrap_or(BLANK);
        assert_eq!(w.read_cell(BUFFER_HEIGHT - 1, col).ascii_character, want);
    }
    // Adjacent rows are untouched.
    for col in 0..BUFFER_WIDTH {
        assert_eq!(w.read_cell(BUFFER_HEIGHT - 3, col).ascii_character, BLANK);
    }
}

#[test]
fn two_hundred_lines_scroll_in_order() {
    let mut w = fresh_writer();
    for i in 0..200 {
        let line = format!("output line {}", i);
        w.write_string(&line);
        w.write_byte(b'\n');
    }
    // Only the final BUFFER_HEIGHT - 1 lines are retained, oldest first at
    // the top, and the last row is the fresh blank line.
    for row in 0..(BUFFER_HEIGHT - 1) {
        let expected = format!("output line {}", 200 - (BUFFER_HEIGHT - 1) + row);
        let bytes = expected.as_bytes();
        for col in 0..BUFFER_WIDTH {
            let want = bytes.get(col).copied().unwrap_or(BLANK);
            assert_eq!(w.read_cell(row, col).ascii_character, want);
        }
    }
    for col in 0..BUFFER_WIDTH {
        assert_eq!(w.read_cell(BUFFER_HEIGHT - 1, col).ascii_character, BLANK);
    }
}

#[test]
fn write_bytes_matches_write_string() {
    let mut a = fresh_writer();
    let mut b = fresh_writer();
    a.write_string("mixed \x01 content");
    b.write_bytes(b"mixed \x01 content");
    for col in 0..BUFFER_WIDTH {
        assert_eq!(
            a.read_cell(BUFFER_HEIGHT - 1, col),
            b.read_cell(BUFFER_HEIGHT - 1, col)
        );
    }
}
