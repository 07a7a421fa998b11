use my_kernel::vga_buffer::{
    utf8_to_cp866, Color, ColorCode, ScreenChar, Writer, BUFFER_HEIGHT, BUFFER_WIDTH,
};

fn blank_screen(color: ColorCode) -> Vec<ScreenChar> {
    vec![ScreenChar { ascii_character: b' ', color_code: color }; BUFFER_HEIGHT * BUFFER_WIDTH]
}

fn row_text(w: &Writer, row: usize) -> String {
    (0..BUFFER_WIDTH).map(|c| w.cell(row, c).ascii_character as char).collect()
}

#[test]
fn color_code_packs_background_high_foreground_low() {
    assert_eq!(ColorCode::new(Color::LightGreen, Color::Black), ColorCode(0x0A));
    assert_eq!(ColorCode::new(Color::Yellow, Color::Black), ColorCode(0x0E));
    assert_eq!(ColorCode::new(Color::White, Color::Blue), ColorCode(0x1F));
    assert_eq!(ColorCode::new(Color::Black, Color::White), ColorCode(0xF0));
}

#[test]
fn color_codes_are_the_palette_indices() {
    let all = [
        Color::Black, Color::Blue, Color::Green, Color::Cyan, Color::Red, Color::Magenta,
        Color::Brown, Color::LightGray, Color::DarkGray, Color::LightBlue, Color::LightGreen,
        Color::LightCyan, Color::LightRed, Color::Pink, Color::Yellow, Color::White,
    ];
    for (i, c) in all.iter().enumerate() {
        assert_eq!(c.code() as usize, i);
    }
}

#[test]
fn cp866_cyrillic_capitals() {
    let caps = "АБВГДЕЖЗИЙКЛМНОПРСТУФХЦЧШЩЪЫЬЭЮЯ";
    for (i, c) in caps.chars().enumerate() {
        assert_eq!(utf8_to_cp866(c), 128 + i as u8, "{}", c);
    }
}

#[test]
fn cp866_cyrillic_small_letters() {
    let first = "абвгдежзийклмноп";
    for (i, c) in first.chars().enumerate() {
        assert_eq!(utf8_to_cp866(c), 160 + i as u8, "{}", c);
    }
    let second = "рстуфхцчшщъыьэюя";
    for (i, c) in second.chars().enumerate() {
        assert_eq!(utf8_to_cp866(c), 224 + i as u8, "{}", c);
    }
}

#[test]
fn cp866_yo_ascii_and_unknown() {
    assert_eq!(utf8_to_cp866('ё'), 241);
    assert_eq!(utf8_to_cp866('Ё'), 240);
    assert_eq!(utf8_to_cp866('A'), b'A');
    assert_eq!(utf8_to_cp866('\n'), b'\n');
    assert_eq!(utf8_to_cp866('\u{7f}'), 0x7f);
    assert_eq!(utf8_to_cp866('€'), b'?');
    assert_eq!(utf8_to_cp866('ß'), b'?');
    assert_eq!(utf8_to_cp866('\u{450}'), b'?');
}

#[test]
fn write_string_puts_text_on_bottom_row() {
    let color = ColorCode::new(Color::LightGreen, Color::Black);
    let mut w = Writer::new(color, blank_screen(color));
    w.write_string("Hello");
    assert_eq!(w.column_position(), 5);
    assert_eq!(&row_text(&w, BUFFER_HEIGHT - 1)[..6], "Hello ");
    assert_eq!(w.cell(BUFFER_HEIGHT - 1, 0), ScreenChar { ascii_character: b'H', color_code: color });
    assert_eq!(row_text(&w, BUFFER_HEIGHT - 2), " ".repeat(BUFFER_WIDTH));
}

#[test]
fn new_line_scrolls_up() {
    let color = ColorCode::new(Color::White, Color::Black);
    let mut w = Writer::new(color, blank_screen(color));
    w.write_string("one\ntwo");
    assert_eq!(&row_text(&w, BUFFER_HEIGHT - 2)[..3], "one");
    assert_eq!(&row_text(&w, BUFFER_HEIGHT - 1)[..3], "two");
    assert_eq!(w.column_position(), 3);
    w.write_byte(b'\n');
    assert_eq!(&row_text(&w, BUFFER_HEIGHT - 3)[..3], "one");
    assert_eq!(&row_text(&w, BUFFER_HEIGHT - 2)[..3], "two");
    assert_eq!(row_text(&w, BUFFER_HEIGHT - 1), " ".repeat(BUFFER_WIDTH));
    assert_eq!(w.column_position(), 0);
}

#[test]
fn full_row_wraps_before_next_byte() {
    let color = ColorCode::new(Color::White, Color::Black);
    let mut w = Writer::new(color, blank_screen(color));
    let line = "x".repeat(BUFFER_WIDTH);
    w.write_string(&line);
    assert_eq!(w.column_position(), BUFFER_WIDTH);
    assert_eq!(row_text(&w, BUFFER_HEIGHT - 1), line);
    w.write_byte(b'y');
    assert_eq!(row_text(&w, BUFFER_HEIGHT - 2), line);
    assert_eq!(w.cell(BUFFER_HEIGHT - 1, 0).ascii_character, b'y');
    assert_eq!(w.column_position(), 1);
}

#[test]
fn non_printable_characters_become_question_marks() {
    let color = ColorCode::new(Color::White, Color::Black);
    let mut w = Writer::new(color, blank_screen(color));
    w.write_string("a\tбé");
    assert_eq!(&row_text(&w, BUFFER_HEIGHT - 1)[..4], "a???");
    assert_eq!(w.column_position(), 4);
}

#[test]
fn set_color_changes_later_cells_only() {
    let green = ColorCode::new(Color::LightGreen, Color::Black);
    let mut w = Writer::new(green, blank_screen(green));
    w.write_string("a");
    w.set_color(Color::Yellow, Color::Black);
    assert_eq!(w.color_code(), ColorCode(0x0E));
    w.write_string("b");
    assert_eq!(w.cell(BUFFER_HEIGHT - 1, 0).color_code, green);
    assert_eq!(w.cell(BUFFER_HEIGHT - 1, 1).color_code, ColorCode(0x0E));
}

#[test]
fn line_feeds_blank_the_bottom_row_in_current_color() {
    let green = ColorCode::new(Color::LightGreen, Color::Black);
    let mut w = Writer::new(green, blank_screen(green));
    w.set_color(Color::Yellow, Color::Blue);
    w.write_byte(b'\n');
    assert_eq!(
        w.cell(BUFFER_HEIGHT - 1, 10),
        ScreenChar { ascii_character: b' ', color_code: ColorCode(0x1E) }
    );
    assert_eq!(w.cell(BUFFER_HEIGHT - 2, 10).color_code, green);
}

#[test]
fn clear_screen_with_a_screenful_of_line_feeds() {
    let color = ColorCode::new(Color::White, Color::Black);
    let mut screen = blank_screen(color);
    for (i, c) in screen.iter_mut().enumerate() {
        c.ascii_character = b'a' + (i % 26) as u8;
    }
    let mut w = Writer::new(color, screen);
    w.write_string("some text");
    for _ in 0..BUFFER_HEIGHT {
        w.write_string("\n");
    }
    for row in 0..BUFFER_HEIGHT {
        assert_eq!(row_text(&w, row), " ".repeat(BUFFER_WIDTH));
    }
    assert_eq!(w.column_position(), 0);
}

#[test]
fn existing_screen_contents_are_kept_until_scrolled() {
    let color = ColorCode::new(Color::White, Color::Black);
    let mut screen = blank_screen(color);
    screen[0].ascii_character = b'T';
    screen[BUFFER_WIDTH].ascii_character = b'S';
    let mut w = Writer::new(color, screen);
    assert_eq!(w.cell(0, 0).ascii_character, b'T');
    w.write_byte(b'\n');
    assert_eq!(w.cell(0, 0).ascii_character, b'S');
    assert_eq!(w.screen().len(), BUFFER_HEIGHT * BUFFER_WIDTH);
}
