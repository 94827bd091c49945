use my_os::vga_buffer::{Color, ColorCode, Writer, BUFFER_HEIGHT, BUFFER_WIDTH};

fn writer() -> Writer {
    Writer::new(ColorCode::new(Color::Yellow, Color::Black))
}

#[test]
fn color_code_packs_background_high() {
    assert_eq!(ColorCode::new(Color::Yellow, Color::Black).0, 0x0e);
    assert_eq!(ColorCode::new(Color::White, Color::Blue).0, 0x1f);
    assert_eq!(ColorCode::new(Color::Black, Color::White).0, 0xf0);
}

#[test]
fn new_writer_shows_a_blank_screen() {
    let w = writer();
    assert_eq!(w.column(), 0);
    for row in [0, 12, BUFFER_HEIGHT - 1] {
        for col in [0, 40, BUFFER_WIDTH - 1] {
            assert_eq!(w.char_at(row, col).ascii_character, b' ');
        }
    }
}

#[test]
fn bytes_land_in_the_last_row() {
    let mut w = writer();
    w.write_byte(b'H');
    w.write_byte(b'i');
    assert_eq!(w.char_at(BUFFER_HEIGHT - 1, 0).ascii_character, b'H');
    assert_eq!(w.char_at(BUFFER_HEIGHT - 1, 1).ascii_character, b'i');
    assert_eq!(w.column(), 2);
    assert_eq!(w.char_at(BUFFER_HEIGHT - 1, 0).color_code.0, 0x0e);
}

#[test]
fn newline_scrolls_lines_up() {
    let mut w = writer();
    w.write_string(b"abc");
    w.write_byte(b'\n');
    // the written line moved one row up; the last row is cleared
    assert_eq!(w.char_at(BUFFER_HEIGHT - 2, 0).ascii_character, b'a');
    assert_eq!(w.char_at(BUFFER_HEIGHT - 2, 1).ascii_character, b'b');
    assert_eq!(w.char_at(BUFFER_HEIGHT - 2, 2).ascii_character, b'c');
    assert_eq!(w.char_at(BUFFER_HEIGHT - 1, 0).ascii_character, b' ');
    assert_eq!(w.column(), 0);
}

#[test]
fn full_line_wraps_before_writing() {
    let mut w = writer();
    for _ in 0..BUFFER_WIDTH {
        w.write_byte(b'x');
    }
    assert_eq!(w.column(), BUFFER_WIDTH);
    w.write_byte(b'y');
    // the row of x-es scrolled up and the y starts the fresh row
    assert_eq!(w.char_at(BUFFER_HEIGHT - 2, 0).ascii_character, b'x');
    assert_eq!(w.char_at(BUFFER_HEIGHT - 2, BUFFER_WIDTH - 1).ascii_character, b'x');
    assert_eq!(w.char_at(BUFFER_HEIGHT - 1, 0).ascii_character, b'y');
    assert_eq!(w.column(), 1);
}

#[test]
fn unprintable_bytes_show_a_solid_block() {
    let mut w = writer();
    w.write_string(&[b'o', 0x01, 0xff, b'k']);
    let row = BUFFER_HEIGHT - 1;
    assert_eq!(w.char_at(row, 0).ascii_character, b'o');
    assert_eq!(w.char_at(row, 1).ascii_character, 0xfe);
    assert_eq!(w.char_at(row, 2).ascii_character, 0xfe);
    assert_eq!(w.char_at(row, 3).ascii_character, b'k');
}

#[test]
fn println_style_output_lands_one_row_above() {
    let mut w = writer();
    let s = b"Some test string that fits on a single line";
    w.write_string(s);
    w.write_byte(b'\n');
    for (i, byte) in s.iter().enumerate() {
        assert_eq!(w.char_at(BUFFER_HEIGHT - 2, i).ascii_character, *byte);
    }
}
