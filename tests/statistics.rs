use textstats::buffer::{TextBuffer, PATTERN};
use textstats::report::{push_decimal, Report};
use textstats::stats::{count_lines, count_words, find_pattern, is_whitespace, matches_at};

#[test]
fn lines_count_newline_bytes() {
    assert_eq!(count_lines(b"a\nb\nc"), 2);
    assert_eq!(count_lines(b""), 0);
    assert_eq!(count_lines(b"\n\n\n"), 3);
    assert_eq!(count_lines(b"no newline"), 0);
    assert_eq!(count_lines(b"crlf\r\nline\r\n"), 2);
}

#[test]
fn words_are_maximal_non_whitespace_runs() {
    assert_eq!(count_words(b""), 0);
    assert_eq!(count_words(b"   "), 0);
    assert_eq!(count_words(b"hello world"), 2);
    assert_eq!(count_words(b"  leading and trailing  "), 3);
    assert_eq!(count_words(b"no\ttabs\nhere"), 3);
}

#[test]
fn words_split_on_every_ascii_whitespace_byte() {
    assert_eq!(count_words(b"a b\tc\nd\re\x0cf\x0bg"), 7);
    assert_eq!(count_words(b"single"), 1);
    assert_eq!(count_words(b"\xc3\xa9t\xc3\xa9 caf\xc3\xa9"), 2);
}

#[test]
fn whitespace_set() {
    for b in [b' ', b'\t', b'\n', b'\r', 0x0bu8, 0x0cu8] {
        assert!(is_whitespace(b));
    }
    for b in [b'a', b'0', 0u8, 0xa0u8, 0x85u8] {
        assert!(!is_whitespace(b));
    }
}

#[test]
fn pattern_counts_overlapping_matches() {
    assert_eq!(find_pattern(b"aaaa", b"aa"), 3);
    assert_eq!(find_pattern(b"aaa", b"aa"), 2);
    assert_eq!(find_pattern(b"abcabcabc", b"abc"), 3);
    assert_eq!(find_pattern(b"short", b"longerthanbuffer"), 0);
    assert_eq!(find_pattern(b"abc", b"abc"), 1);
    assert_eq!(find_pattern(b"abd", b"abc"), 0);
    assert_eq!(find_pattern(b"", b"a"), 0);
}

#[test]
fn empty_pattern_occurs_at_every_position() {
    assert_eq!(find_pattern(b"abc", b""), 4);
    assert_eq!(find_pattern(b"", b""), 1);
}

#[test]
fn match_at_position() {
    assert!(matches_at(b"xxabc", b"abc", 2));
    assert!(!matches_at(b"xxabc", b"abc", 1));
    assert!(matches_at(b"xxabc", b"", 5));
}

#[test]
fn statistics_repeat_on_unchanged_buffer() {
    let buf = TextBuffer::from_bytes(b"one pattern\ntwo patterns\n".to_vec());
    assert_eq!(buf.count_lines(), buf.count_lines());
    assert_eq!(buf.count_words(), buf.count_words());
    assert_eq!(buf.find_pattern(PATTERN), buf.find_pattern(PATTERN));
    assert_eq!(buf.process(), buf.process());
    assert_eq!(buf.count_lines(), 2);
    assert_eq!(buf.count_words(), 4);
    assert_eq!(buf.find_pattern(PATTERN), 2);
}

#[test]
fn report_for_three_patterns() {
    let buf = TextBuffer::from_bytes(b"pattern pattern\npattern".to_vec());
    let report = buf.process().unwrap();
    assert_eq!(report, Report { lines: 1, words: 3, patterns: 3 });
    assert_eq!(
        report.render(),
        "----- REPORT START -----\nLines: 1\nWords: 3\nPattern occurrences: 3\n------ REPORT END ------\n"
    );
}

#[test]
fn empty_buffer_gives_no_report() {
    assert_eq!(TextBuffer::new().process(), None);
    assert_eq!(TextBuffer::from_bytes(Vec::new()).process(), None);
}

#[test]
fn whitespace_only_buffer_still_reports() {
    let buf = TextBuffer::from_bytes(b"\n \n".to_vec());
    assert_eq!(buf.process(), Some(Report { lines: 2, words: 0, patterns: 0 }));
}

#[test]
fn load_replaces_or_keeps_contents() {
    let mut buf = TextBuffer::new();
    assert!(!buf.load(None));
    assert!(buf.is_empty());
    assert!(buf.load(Some(b"first".to_vec())));
    assert_eq!(buf.as_bytes(), b"first");
    assert!(!buf.load(None));
    assert_eq!(buf.as_bytes(), b"first");
    assert!(buf.load(Some(b"second file".to_vec())));
    assert_eq!(buf.as_bytes(), b"second file");
}

#[test]
fn clear_empties_buffer() {
    let mut buf = TextBuffer::from_bytes(b"pattern".to_vec());
    assert!(!buf.is_empty());
    buf.clear();
    assert!(buf.is_empty());
    assert_eq!(buf.process(), None);
}

#[test]
fn decimal_numerals() {
    let mut s = String::from("n=");
    push_decimal(&mut s, 0);
    assert_eq!(s, "n=0");
    let mut s = String::new();
    push_decimal(&mut s, 1203);
    assert_eq!(s, "1203");
    let mut s = String::new();
    push_decimal(&mut s, usize::MAX);
    assert_eq!(s, usize::MAX.to_string());
}

#[test]
fn report_renders_multi_digit_counts() {
    let report = Report { lines: 10, words: 250, patterns: 0 };
    assert_eq!(
        report.render(),
        "----- REPORT START -----\nLines: 10\nWords: 250\nPattern occurrences: 0\n------ REPORT END ------\n"
    );
}
