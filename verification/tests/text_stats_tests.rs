use katas::text_stats::{
    count_characters, count_characters_excluding_spaces, count_lines, count_words, TextStatistics,
};

#[test]
fn test_empty_text() {
    let stats = TextStatistics::from_text("");
    assert_eq!(stats.word_count, 0);
    assert_eq!(stats.line_count, 0);
    assert_eq!(stats.character_count, 0);
}

#[test]
fn test_single_line() {
    let stats = TextStatistics::from_text("Hello world");
    assert_eq!(stats.word_count, 2);
    assert_eq!(stats.line_count, 1);
    assert_eq!(stats.character_count, 11);
    assert_eq!(stats.character_count_no_spaces, 10);
}

#[test]
fn words_are_runs_without_white_space() {
    assert_eq!(count_words("  one\ttwo \n three  "), 3);
    assert_eq!(count_words("   "), 0);
    assert_eq!(count_words("a"), 1);
    assert_eq!(count_words("a\u{a0}b\u{2003}c"), 3);
}

#[test]
fn lines_as_std_counts_them() {
    for text in ["", "a", "a\n", "a\nb", "a\n\nb\n", "\n", "\r\n", "a\r\nb\r", "\n\n\n"] {
        assert_eq!(count_lines(text), text.lines().count());
    }
    assert_eq!(count_lines("a\n\nb\n"), 3);
}

#[test]
fn characters_are_counted_not_bytes() {
    assert_eq!(count_characters("h\u{e9}llo \u{4e2d}"), 7);
    assert_eq!(count_characters_excluding_spaces("h\u{e9}llo \u{4e2d}\n\t"), 6);
    assert_eq!(count_characters_excluding_spaces(" \n\t"), 0);
}

#[test]
fn statistics_as_a_line() {
    let stats = TextStatistics::from_text("Hello big world\nagain");
    assert_eq!(stats.to_text(), "Words: 4, Lines: 2, Characters: 21 (18)");
    assert_eq!(TextStatistics::from_text("").to_text(), "Words: 0, Lines: 0, Characters: 0 (0)");
}

#[test]
fn words_as_std_splits_them() {
    for text in ["", " ", "a", " a ", "a  b", "one two\tthree\nfour", "\u{3000}x\u{3000}"] {
        assert_eq!(count_words(text), text.split_whitespace().count());
    }
}
