use vhs_gui::ffmpeg::parse_field;
use vhs_gui::mpv_view::fmt_time;
use vhs_gui::number::{decimal_text, i32_of, two_digits_text, u64_of};
use vhs_gui::order::sort_names;
use vhs_gui::text::{
    comes_before, drop_prefix, drop_suffix, ends_with, find_text, first_word_of, has_text,
    join_texts, lines_of, list_has, replaced_char, same_opt_text, same_text, split_text,
    starts_with, trimmed, trimmed_end_char, white, words_of,
};

fn strings(v: &[&str]) -> Vec<String> {
    v.iter().map(|s| s.to_string()).collect()
}

#[test]
fn find_gives_the_first_place_in_characters() {
    assert_eq!(find_text("frame= 1 frame= 2", "frame="), Some(0));
    assert_eq!(find_text("äframe=", "frame="), Some(1));
    assert_eq!(find_text("abc", "x"), None);
    assert_eq!(find_text("abc", ""), Some(0));
    assert!(has_text("20240101_ffmpeg.log", "ffmpeg.log"));
    assert!(!has_text("capture.pgid", "ffmpeg.log"));
}

#[test]
fn prefixes_and_suffixes() {
    assert!(starts_with("EDIT_MASTER-x", "EDIT_MASTER"));
    assert!(!starts_with("EDIT", "EDIT_MASTER"));
    assert!(ends_with("a_VD.mkv", "_VD.mkv"));
    assert!(!ends_with(".mkv", "_VD.mkv"));
    assert_eq!(drop_suffix("a.viewer", ".viewer"), "a");
    assert_eq!(drop_suffix("a.viewer.x", ".viewer"), "a.viewer.x");
    assert_eq!(drop_prefix("MODEL=x", "MODEL="), "x");
    assert_eq!(drop_prefix("x", "MODEL="), "x");
}

#[test]
fn trimming_takes_unicode_white_space() {
    assert_eq!(trimmed(" \t\u{2003}a b\u{a0}\n"), "a b");
    assert_eq!(trimmed("   "), "");
    assert_eq!(trimmed_end_char("12//", '/'), "12");
    assert_eq!(trimmed_end_char("/12", '/'), "/12");
    for c in [' ', '\t', '\u{b}', '\u{85}', '\u{1680}', '\u{2009}', '\u{202f}', '\u{3000}'] {
        assert!(white(c) && c.is_whitespace());
    }
    for c in ['a', '0', '\u{180e}', '\u{200b}', '\u{feff}'] {
        assert!(!white(c) && !c.is_whitespace());
    }
}

#[test]
fn white_agrees_with_std_on_the_basic_plane() {
    for n in 0u32..0x10000 {
        if let Some(c) = char::from_u32(n) {
            assert_eq!(white(c), c.is_whitespace());
        }
    }
}

#[test]
fn splitting_keeps_empty_parts() {
    assert_eq!(split_text("a::b:", ':'), strings(&["a", "", "b", ""]));
    assert_eq!(split_text("", ':'), strings(&[""]));
    assert_eq!(words_of("  a\tb  c "), strings(&["a", "b", "c"]));
    assert_eq!(first_word_of("  a b"), "a");
    assert_eq!(first_word_of("   "), "");
}

#[test]
fn splitting_undoes_joining() {
    let parts = strings(&["/home/u/bin", "/usr/bin", ""]);
    assert_eq!(split_text(&join_texts(&parts, ":"), ':'), parts);
    assert_eq!(split_text("plain", ':'), strings(&["plain"]));
}

#[test]
fn words_undo_joining() {
    let parts = strings(&["the", "USA", "2"]);
    assert_eq!(words_of(&join_texts(&parts, " ")), parts);
    assert_eq!(words_of(&join_texts(&Vec::new(), " ")), Vec::<String>::new());
}

#[test]
fn lines_drop_their_ends() {
    assert_eq!(lines_of("a\r\nb\n\nc"), strings(&["a", "b", "", "c"]));
    assert_eq!(lines_of("a\n"), strings(&["a"]));
    assert_eq!(lines_of(""), Vec::<String>::new());
    assert_eq!(lines_of("a\r"), strings(&["a\r"]));
}

#[test]
fn comparing_texts() {
    assert!(same_text("aé", "aé"));
    assert!(!same_text("a", "ab"));
    assert!(same_opt_text(None, None));
    assert!(same_opt_text(Some("a"), Some("a")));
    assert!(!same_opt_text(Some("a"), None));
    assert!(list_has(&vec!["a", "b"], "b"));
    assert!(!list_has(&vec!["a", "b"], "c"));
    assert_eq!(replaced_char("a_b_", '_', ' '), "a b ");
    assert!(comes_before("a", "ab"));
    assert!(comes_before("Z", "a"));
    assert!(!comes_before("a", "a"));
}

#[test]
fn sorting_names_is_what_std_does() {
    let names = strings(&["b", "a10", "a2", "B", "", "é", "z", "b"]);
    let mut want = names.clone();
    want.sort();
    assert_eq!(sort_names(&names), want);
}

#[test]
fn numbers_are_spelled_and_read() {
    assert_eq!(decimal_text(0), "0");
    assert_eq!(decimal_text(1203), "1203");
    assert_eq!(decimal_text(u64::MAX), "18446744073709551615");
    assert_eq!(two_digits_text(0), "00");
    assert_eq!(two_digits_text(7), "07");
    assert_eq!(two_digits_text(10), "10");
    assert_eq!(two_digits_text(100), "100");
}

#[test]
fn reading_numbers_agrees_with_std() {
    for t in [
        "0", "007", "+5", "-5", "", "+", "-", "12a", " 1", "18446744073709551615",
        "18446744073709551616", "99999999999999999999999", "2147483647", "2147483648",
        "-2147483648", "-2147483649", "--1", "٣", "-0",
    ] {
        assert_eq!(u64_of(t), t.parse::<u64>().ok(), "{t}");
        assert_eq!(i32_of(t), t.parse::<i32>().ok(), "{t}");
    }
}

#[test]
fn reading_undoes_spelling() {
    for n in [0u64, 9, 10, 59, 60, 12345, u64::MAX] {
        assert_eq!(u64_of(&decimal_text(n)), Some(n));
        assert_eq!(u64_of(&two_digits_text(n)), Some(n));
    }
}

#[test]
fn fields_of_a_progress_line() {
    let line = "frame=  123 fps= 30 q=-0.0 size=N/A time=00:00:04.10 bitrate=N/A speed=1x";
    assert_eq!(parse_field(line, "frame=").as_deref(), Some("123"));
    assert_eq!(parse_field(line, "time=").as_deref(), Some("00:00:04.10"));
    assert_eq!(parse_field(line, "bitrate=").as_deref(), Some("N/A"));
    assert_eq!(parse_field(line, "drop="), None);
    assert_eq!(parse_field("frame=", "frame=").as_deref(), Some(""));
    assert_eq!(parse_field("bitrate=20kbits/s//", "bitrate=").as_deref(), Some("20kbits/s"));
    assert_eq!(parse_field("frame=1 frame=2", "frame=").as_deref(), Some("1"));
}

#[test]
fn times_of_the_player() {
    assert_eq!(fmt_time(0), "0:00");
    assert_eq!(fmt_time(61), "1:01");
    assert_eq!(fmt_time(3599), "59:59");
    assert_eq!(fmt_time(3600), "1:00:00");
    assert_eq!(fmt_time(36_061), "10:01:01");
}
