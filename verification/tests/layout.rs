use freewrite_tui::layout::{centered, text_cursor, TextCursor};

fn place(text: &str, width: u16, height: u16) -> (usize, usize, usize) {
    let c = text_cursor(text, width, height);
    (c.column, c.row, c.scroll)
}

/// The same walk in the plainest form, for comparison.
fn walk(text: &str, width: usize, height: usize) -> (usize, usize, usize) {
    let (mut x, mut y) = (0usize, 0usize);
    for c in text.chars() {
        if c == '\n' {
            y += 1;
            x = 0;
        } else {
            x += 1;
            if x >= width {
                y += 1;
                x = 0;
            }
        }
    }
    let lines = if text.is_empty() {
        1
    } else if x > 0 {
        y + 1
    } else {
        y
    };
    (x, y, lines.saturating_sub(height))
}

#[test]
fn cursor_follows_the_text() {
    assert_eq!(place("", 10, 5), (0, 0, 0));
    assert_eq!(place("abc", 10, 5), (3, 0, 0));
    assert_eq!(place("abc\n", 10, 5), (0, 1, 0));
    assert_eq!(place("abc\nde", 10, 5), (2, 1, 0));
    assert_eq!(place("123456789", 10, 5), (9, 0, 0));
    assert_eq!(place("1234567890", 10, 5), (0, 1, 0));
    assert_eq!(place("12345678901", 10, 5), (1, 1, 0));
    assert_eq!(place("\n\n\n", 10, 5), (0, 3, 0));
}

#[test]
fn text_scrolls_when_it_outgrows_the_area() {
    assert_eq!(place("a\nb\nc", 10, 3), (1, 2, 0));
    assert_eq!(place("a\nb\nc\nd", 10, 3), (1, 3, 1));
    assert_eq!(place("a\nb\nc\nd\n", 10, 3), (0, 4, 1));
    assert_eq!(place("a\nb\nc\nd\ne", 10, 3), (1, 4, 2));
    assert_eq!(place("", 10, 0), (0, 0, 1));
    assert_eq!(place("abc", 10, 0), (3, 0, 1));
}

#[test]
fn area_without_width_breaks_at_every_character() {
    assert_eq!(place("abc", 0, 5), (0, 3, 0));
    assert_eq!(place("abc", 1, 5), (0, 3, 0));
    assert_eq!(place("abcdefg", 1, 5), (0, 7, 2));
    assert_eq!(place("abc", 2, 5), (1, 1, 0));
}

#[test]
fn cursor_agrees_with_a_plain_walk() {
    let texts = [
        "",
        "x",
        "hello world",
        "one\ntwo\nthree\n",
        "\n\n",
        "a long line that runs over the edge of a narrow area more than once",
        "é ü\nñ",
    ];
    for text in texts {
        for width in [0u16, 1, 2, 3, 7, 80] {
            for height in [0u16, 1, 2, 5, 40] {
                assert_eq!(
                    place(text, width, height),
                    walk(text, width as usize, height as usize),
                    "{:?} {} {}",
                    text,
                    width,
                    height
                );
            }
        }
    }
}

#[test]
fn shown_row_is_the_row_less_the_scroll() {
    assert_eq!(TextCursor { column: 0, row: 7, scroll: 3 }.shown_row(), 4);
    assert_eq!(TextCursor { column: 0, row: 3, scroll: 3 }.shown_row(), 0);
    assert_eq!(TextCursor { column: 0, row: 2, scroll: 3 }.shown_row(), 0);
    assert_eq!(text_cursor("a\nb\nc\nd\ne", 10, 3).shown_row(), 2);
    assert_eq!(text_cursor("a\nb\nc\nd\n", 10, 3).shown_row(), 3);
}

#[test]
fn boxes_are_centred() {
    assert_eq!(centered(100, 55), 22);
    assert_eq!(centered(101, 55), 23);
    assert_eq!(centered(55, 55), 0);
    assert_eq!(centered(54, 55), 0);
    assert_eq!(centered(0, 11), 0);
    assert_eq!(centered(u16::MAX, 0), 32767);
    assert_eq!(centered(24, 11), 6);
}
