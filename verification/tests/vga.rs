use toyos::vga::{Buffer, Color, ColorCode, ScreenChar, Writer, BUFFER_HEIGHT, BUFFER_WIDTH};

fn blank_writer() -> Writer {
    let fill = ScreenChar { ascii_char: b'#', color_code: ColorCode(0x07) };
    Writer::new(Buffer::filled(fill))
}

fn row_text(writer: &Writer, row: usize, len: usize) -> String {
    (0..len)
        .map(|col| char::from(writer.char_at(row, col).unwrap().ascii_char))
        .collect()
}

#[test]
fn color_code_packs_background_above_foreground() {
    assert_eq!(ColorCode::new(Color::Yellow, Color::Black), ColorCode(0x0e));
    assert_eq!(ColorCode::new(Color::White, Color::Blue), ColorCode(0x1f));
    assert_eq!(ColorCode::new(Color::Black, Color::White), ColorCode(0xf0));
    assert_eq!(ColorCode::new(Color::LightGray, Color::Red), ColorCode(0x47));
}

#[test]
fn color_numbers_follow_the_hardware() {
    let all = [
        Color::Black,
        Color::Blue,
        Color::Green,
        Color::Cyan,
        Color::Red,
        Color::Magenta,
        Color::Brown,
        Color::LightGray,
        Color::DarkGray,
        Color::LightBlue,
        Color::LightGreen,
        Color::LightCyan,
        Color::LightRed,
        Color::Pink,
        Color::Yellow,
        Color::White,
    ];
    for (i, color) in all.iter().enumerate() {
        assert_eq!(color.code() as usize, i);
    }
}

#[test]
fn new_writer_starts_at_the_left_in_yellow_on_black() {
    let writer = blank_writer();
    assert_eq!(writer.column_position(), 0);
    assert_eq!(writer.color_code(), ColorCode(0x0e));
    assert_eq!(writer.char_at(0, 0).unwrap().ascii_char, b'#');
    assert_eq!(writer.char_at(24, 79).unwrap().ascii_char, b'#');
}

#[test]
fn char_at_has_no_cell_outside_the_screen() {
    let writer = blank_writer();
    assert_eq!(writer.char_at(BUFFER_HEIGHT, 0), None);
    assert_eq!(writer.char_at(0, BUFFER_WIDTH), None);
    assert!(writer.char_at(BUFFER_HEIGHT - 1, BUFFER_WIDTH - 1).is_some());
}

#[test]
fn test_simple_println() {
    let mut writer = blank_writer();
    assert_eq!(writer.write_str("Hello World!\n"), Ok(()));
    assert_eq!(row_text(&writer, BUFFER_HEIGHT - 2, 12), "Hello World!");
    assert_eq!(writer.column_position(), 0);
}

#[test]
fn test_println_many() {
    let mut writer = blank_writer();
    for _ in 0..200 {
        assert_eq!(writer.write_str("Hello World!\n"), Ok(()));
    }
    for row in 0..BUFFER_HEIGHT - 1 {
        assert_eq!(row_text(&writer, row, 13), "Hello World! ");
    }
    assert_eq!(row_text(&writer, BUFFER_HEIGHT - 1, 3), "   ");
}

#[test]
fn test_println_output() {
    let s = "Some test string that fits on a single line";
    let mut writer = blank_writer();
    writer.write_str("\n").unwrap();
    writer.write_str(s).unwrap();
    writer.write_str("\n").unwrap();
    for (i, c) in s.chars().enumerate() {
        let screen_char = writer.char_at(BUFFER_HEIGHT - 2, i).unwrap();
        assert_eq!(char::from(screen_char.ascii_char), c);
        assert_eq!(screen_char.color_code, ColorCode(0x0e));
    }
}

#[test]
fn write_byte_places_the_byte_at_the_cursor_of_the_last_line() {
    let mut writer = blank_writer();
    writer.write_byte(b'A');
    writer.write_byte(b'B');
    assert_eq!(writer.column_position(), 2);
    assert_eq!(
        writer.char_at(24, 0),
        Some(ScreenChar { ascii_char: b'A', color_code: ColorCode(0x0e) })
    );
    assert_eq!(
        writer.char_at(24, 1),
        Some(ScreenChar { ascii_char: b'B', color_code: ColorCode(0x0e) })
    );
    assert_eq!(writer.char_at(24, 2).unwrap().ascii_char, b'#');
    assert_eq!(writer.char_at(23, 0).unwrap().ascii_char, b'#');
}

#[test]
fn a_full_line_breaks_before_the_next_byte() {
    let mut writer = blank_writer();
    for _ in 0..BUFFER_WIDTH {
        writer.write_byte(b'x');
    }
    assert_eq!(writer.column_position(), 80);
    assert_eq!(writer.char_at(24, 79).unwrap().ascii_char, b'x');
    writer.write_byte(b'y');
    assert_eq!(writer.column_position(), 1);
    assert_eq!(row_text(&writer, 23, 80), "x".repeat(80));
    assert_eq!(writer.char_at(24, 0).unwrap().ascii_char, b'y');
    assert_eq!(
        writer.char_at(24, 1),
        Some(ScreenChar { ascii_char: b' ', color_code: ColorCode(0x0e) })
    );
}

#[test]
fn a_line_break_scrolls_every_line_up_by_one() {
    let mut writer = blank_writer();
    writer.write_str("first\nsecond\n").unwrap();
    assert_eq!(row_text(&writer, 22, 5), "first");
    assert_eq!(row_text(&writer, 23, 6), "second");
    writer.write_new_line();
    assert_eq!(row_text(&writer, 21, 5), "first");
    assert_eq!(row_text(&writer, 22, 6), "second");
    assert_eq!(row_text(&writer, 23, 80), " ".repeat(80));
    assert_eq!(row_text(&writer, 24, 80), " ".repeat(80));
    assert_eq!(row_text(&writer, 0, 80), "#".repeat(80));
}

#[test]
fn clear_row_blanks_one_line_and_ignores_a_row_off_screen() {
    let mut writer = blank_writer();
    writer.clear_row(3);
    assert_eq!(row_text(&writer, 3, 80), " ".repeat(80));
    assert_eq!(writer.char_at(3, 0).unwrap().color_code, ColorCode(0x0e));
    assert_eq!(row_text(&writer, 2, 80), "#".repeat(80));
    assert_eq!(row_text(&writer, 4, 80), "#".repeat(80));
    writer.clear_row(25);
    writer.clear_row(usize::MAX);
    assert_eq!(row_text(&writer, 24, 80), "#".repeat(80));
    assert_eq!(writer.column_position(), 0);
}

#[test]
fn bytes_that_are_not_printable_show_as_blocks() {
    let mut writer = blank_writer();
    writer.write_str_lossy("a\u{e9}\t~ \u{7f}");
    let shown: Vec<u8> = (0..7).map(|col| writer.char_at(24, col).unwrap().ascii_char).collect();
    assert_eq!(shown, vec![b'a', 0xfe, 0xfe, 0xfe, b'~', b' ', 0xfe]);
    assert_eq!(writer.column_position(), 7);
}

#[test]
fn buffer_cells_are_read_and_written_by_row_and_column() {
    let fill = ScreenChar { ascii_char: b'.', color_code: ColorCode(1) };
    let mut buffer = Buffer::filled(fill);
    let mark = ScreenChar { ascii_char: b'!', color_code: ColorCode(2) };
    buffer.write(2, 5, mark);
    assert_eq!(buffer.read(2, 5), mark);
    assert_eq!(buffer.read(2, 4), fill);
    assert_eq!(buffer.read(5, 2), fill);
    assert_eq!(buffer.read(24, 79), fill);
}
