use freewrite_tui::screen::{duration_prompt, speed_line, status_line, word_count_line};

#[test]
fn status_line_shows_time_and_words() {
    assert_eq!(
        status_line(300, 0),
        "Press Escape to go back. Time left: 05:00 | Word Count: 0"
    );
    assert_eq!(
        status_line(59, 12),
        "Press Escape to go back. Time left: 00:59 | Word Count: 12"
    );
    assert_eq!(
        status_line(0, 1234),
        "Press Escape to go back. Time left: 00:00 | Word Count: 1234"
    );
    assert_eq!(
        status_line(6000, 7),
        "Press Escape to go back. Time left: 100:00 | Word Count: 7"
    );
}

#[test]
fn status_line_agrees_with_std_formatting() {
    for secs in [0u64, 1, 9, 10, 60, 61, 599, 600, 3599, 3600, 86399, u64::MAX] {
        for words in [0usize, 5, 99, 100000, usize::MAX] {
            let expected = format!(
                "Press Escape to go back. Time left: {:02}:{:02} | Word Count: {}",
                secs / 60,
                secs % 60,
                words
            );
            assert_eq!(status_line(secs, words), expected);
        }
    }
}

#[test]
fn summary_shows_the_word_count() {
    assert_eq!(word_count_line(0), "Word Count: 0");
    assert_eq!(word_count_line(2), "Word Count: 2");
    assert_eq!(word_count_line(usize::MAX), format!("Word Count: {}", usize::MAX));
}

#[test]
fn summary_shows_the_speed_with_two_places() {
    assert_eq!(speed_line(0), "Typing Speed: 0.00 word/minutes");
    assert_eq!(speed_line(5), "Typing Speed: 0.05 word/minutes");
    assert_eq!(speed_line(40), "Typing Speed: 0.40 word/minutes");
    assert_eq!(speed_line(1091), "Typing Speed: 10.91 word/minutes");
    assert_eq!(speed_line(6000), "Typing Speed: 60.00 word/minutes");
    assert_eq!(speed_line(123456), "Typing Speed: 1234.56 word/minutes");
    assert_eq!(
        speed_line(u128::MAX),
        format!("Typing Speed: {}.{:02} word/minutes", u128::MAX / 100, u128::MAX % 100)
    );
}

#[test]
fn prompt_names_the_default() {
    assert_eq!(duration_prompt(), "Enter duration (default 5):");
}
