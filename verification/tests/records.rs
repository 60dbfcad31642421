use freewrite_tui::config::{MAX_RECENT_FILES, NO_RECENT_SESSION, OUTPUT_DIR};
use freewrite_tui::records::{
    load_recent_files, name_in_order, record_name, record_name_at, LocalMinute,
};

fn files(names: &[&str]) -> Vec<String> {
    names.iter().map(|n| n.to_string()).collect()
}

fn at(year: i32, month: u32, day: u32, hour: u32, minute: u32) -> LocalMinute {
    LocalMinute { year, month, day, hour, minute }
}

#[test]
fn record_names_follow_the_pattern() {
    assert_eq!(
        record_name(at(2024, 5, 6, 7, 8)),
        "freewrite_sessions/2024-05-06_07:08_freewritesession.txt"
    );
    assert_eq!(
        record_name(at(1999, 12, 31, 23, 59)),
        "freewrite_sessions/1999-12-31_23:59_freewritesession.txt"
    );
    assert_eq!(
        record_name(at(2025, 1, 1, 0, 0)),
        "freewrite_sessions/2025-01-01_00:00_freewritesession.txt"
    );
}

#[test]
fn record_names_agree_with_std_formatting() {
    let stamps = [
        at(0, 1, 1, 0, 0),
        at(7, 2, 3, 4, 5),
        at(987, 10, 20, 13, 44),
        at(12345, 6, 7, 8, 9),
        at(262142, 12, 31, 23, 59),
        at(-1, 1, 1, 0, 0),
        at(-45, 3, 15, 12, 0),
        at(-999, 3, 15, 12, 0),
        at(-1000, 3, 15, 12, 0),
        at(-262143, 1, 1, 0, 0),
        at(i32::MAX, u32::MAX, 100, 1000, 60),
        at(i32::MIN, 0, 0, 0, 0),
    ];
    for t in stamps {
        let expected = format!(
            "{}/{:04}-{:02}-{:02}_{:02}:{:02}_freewritesession.txt",
            OUTPUT_DIR, t.year, t.month, t.day, t.hour, t.minute
        );
        assert_eq!(record_name(t), expected);
    }
}

fn named(stamp: &str) -> Option<String> {
    Some(format!("freewrite_sessions/{}_freewritesession.txt", stamp))
}

#[test]
fn record_is_named_from_the_reading_of_the_clock() {
    assert_eq!(record_name_at(0, 0), named("1970-01-01_00:00"));
    assert_eq!(record_name_at(59, 0), named("1970-01-01_00:00"));
    assert_eq!(record_name_at(60, 0), named("1970-01-01_00:01"));
    assert_eq!(record_name_at(-1, 0), named("1969-12-31_23:59"));
    assert_eq!(record_name_at(1_700_000_000, 0), named("2023-11-14_22:13"));
    assert_eq!(record_name_at(1_709_164_800, 0), named("2024-02-29_00:00"));
    assert_eq!(record_name_at(951_782_399, 0), named("2000-02-28_23:59"));
    assert_eq!(record_name_at(951_782_400, 0), named("2000-02-29_00:00"));
    assert_eq!(record_name_at(4_102_444_800, 0), named("2100-01-01_00:00"));
    assert_eq!(record_name_at(253_402_300_799, 0), named("9999-12-31_23:59"));
    assert_eq!(record_name_at(253_402_300_800, 0), named("10000-01-01_00:00"));
    assert_eq!(record_name_at(-62_167_219_200, 0), named("0000-01-01_00:00"));
    assert_eq!(record_name_at(-62_167_219_201, 0), named("-001-12-31_23:59"));
}

#[test]
fn record_is_named_in_local_time() {
    assert_eq!(record_name_at(1_700_000_000, 3600), named("2023-11-14_23:13"));
    assert_eq!(record_name_at(1_700_000_000, 2 * 3600), named("2023-11-15_00:13"));
    assert_eq!(record_name_at(1_700_000_000, -8 * 3600), named("2023-11-14_14:13"));
    assert_eq!(record_name_at(1_700_000_000, 5 * 3600 + 1800), named("2023-11-15_03:43"));
    assert_eq!(record_name_at(1_700_000_000, 45 * 60 + 59), named("2023-11-14_22:59"));
    assert_eq!(record_name_at(1_704_067_199, 1), named("2024-01-01_00:00"));
    assert_eq!(record_name_at(1_704_067_200, -1), named("2023-12-31_23:59"));
    assert_eq!(record_name_at(0, 86_399), named("1970-01-01_23:59"));
    assert_eq!(record_name_at(0, -86_399), named("1969-12-31_00:00"));
}

#[test]
fn reading_without_a_minute_has_no_name() {
    assert_eq!(record_name_at(0, 86_400), None);
    assert_eq!(record_name_at(0, -86_400), None);
    assert_eq!(record_name_at(0, i32::MAX), None);
    assert_eq!(record_name_at(0, i32::MIN), None);
    assert_eq!(record_name_at(i64::MAX, 0), None);
    assert_eq!(record_name_at(i64::MIN, 0), None);
    assert_eq!(record_name_at(i64::MAX, i32::MAX), None);
}

#[test]
fn record_name_at_agrees_with_record_name() {
    for (secs, offset) in [(0i64, 0i32), (1_700_000_000, 3600), (-86_400 * 400, -7200)] {
        let name = record_name_at(secs, offset).unwrap();
        let minute = ((secs + offset as i64).rem_euclid(3600) / 60) as u32;
        let hour = ((secs + offset as i64).rem_euclid(86_400) / 3600) as u32;
        assert!(name.ends_with(&format!("_{:02}:{:02}_freewritesession.txt", hour, minute)));
    }
    assert_eq!(record_name_at(1_700_000_000, 3600), Some(record_name(at(2023, 11, 14, 23, 13))));
}

#[test]
fn names_are_ordered_like_a_dictionary() {
    assert!(name_in_order("", ""));
    assert!(name_in_order("", "a"));
    assert!(!name_in_order("a", ""));
    assert!(name_in_order("a", "a"));
    assert!(name_in_order("a", "b"));
    assert!(!name_in_order("b", "a"));
    assert!(name_in_order("ab", "abc"));
    assert!(!name_in_order("abc", "ab"));
    assert!(name_in_order("abc", "abd"));
    assert!(name_in_order("Z", "a"));
    assert!(name_in_order("2024-05-06_07:08", "2024-05-06_07:09"));
    assert!(name_in_order("2023-12-31_23:59", "2024-01-01_00:00"));
    assert!(name_in_order("z", "é"));
    assert!(name_in_order("é", "\u{10000}"));
    assert!(!name_in_order("\u{10000}", "\u{ffff}"));
}

#[test]
fn name_order_agrees_with_std() {
    let samples = ["", "a", "ab", "b", "B", "10", "9", "é", "e", "\u{ffff}", "\u{10000}", "ab ", "a b"];
    for a in samples {
        for b in samples {
            assert_eq!(name_in_order(a, b), a <= b, "{:?} {:?}", a, b);
        }
    }
}

#[test]
fn empty_directory_gives_the_placeholder() {
    assert_eq!(load_recent_files(Vec::new()), vec![NO_RECENT_SESSION.to_string()]);
    assert_eq!(NO_RECENT_SESSION, "There's no recent session");
}

#[test]
fn recent_files_come_newest_first() {
    let listed = files(&[
        "2024-05-06_07:08_freewritesession.txt",
        "2025-01-01_00:00_freewritesession.txt",
        "2023-12-31_23:59_freewritesession.txt",
        "2024-05-06_17:08_freewritesession.txt",
        "2024-05-16_07:08_freewritesession.txt",
    ]);
    assert_eq!(
        load_recent_files(listed),
        files(&[
            "2025-01-01_00:00_freewritesession.txt",
            "2024-05-16_07:08_freewritesession.txt",
            "2024-05-06_17:08_freewritesession.txt",
            "2024-05-06_07:08_freewritesession.txt",
            "2023-12-31_23:59_freewritesession.txt",
        ])
    );
}

#[test]
fn one_file_is_listed_alone() {
    assert_eq!(load_recent_files(files(&["only.txt"])), files(&["only.txt"]));
}

#[test]
fn recent_files_are_capped_at_the_greatest() {
    let mut listed: Vec<String> = (0..37).map(|i| format!("f{:03}", (i * 17) % 37)).collect();
    listed.push("f010".to_string());
    let mut expected = listed.clone();
    expected.sort();
    expected.reverse();
    expected.truncate(MAX_RECENT_FILES);
    let shown = load_recent_files(listed);
    assert_eq!(shown.len(), 10);
    assert_eq!(shown, expected);
    assert_eq!(shown[0], "f036");
    assert_eq!(shown[9], "f027");
}

#[test]
fn exactly_the_cap_is_kept_whole() {
    let listed: Vec<String> = (0..MAX_RECENT_FILES).map(|i| format!("{}", i)).collect();
    let shown = load_recent_files(listed);
    assert_eq!(shown, files(&["9", "8", "7", "6", "5", "4", "3", "2", "1", "0"]));
}

#[test]
fn equal_names_are_both_listed() {
    assert_eq!(load_recent_files(files(&["b", "a", "b"])), files(&["b", "b", "a"]));
}

#[test]
fn newer_sessions_get_greater_names() {
    let stamps = [
        at(2023, 12, 31, 23, 59),
        at(2024, 1, 1, 0, 0),
        at(2024, 1, 1, 0, 1),
        at(2024, 1, 1, 1, 0),
        at(2024, 1, 2, 0, 0),
        at(2024, 2, 1, 0, 0),
        at(2024, 10, 1, 0, 0),
        at(2025, 1, 1, 0, 0),
    ];
    for i in 0..stamps.len() {
        for j in 0..stamps.len() {
            let a = record_name(stamps[i]);
            let b = record_name(stamps[j]);
            assert_eq!(name_in_order(&a, &b), i <= j);
        }
    }
}
