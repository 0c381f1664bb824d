use megaremove::lines::{classify_line, LineKind};
use megaremove::numbers::{decimal, parse_i32};
use megaremove::progress::{parse_progress, ProgressMsg};
use megaremove::text::{chars_of, find_seq, split_pieces};

fn moved(line: &str) -> Option<String> {
    match classify_line(line) {
        LineKind::Move(name) => Some(name),
        _ => None,
    }
}

#[test]
fn quoted_move_line_gives_name_after_mega() {
    assert_eq!(
        moved("mv '/home/u/MEGA/dir/f one.txt' '/home/u/keep/f one.txt'\n"),
        Some("dir/f one.txt".to_string())
    );
}

#[test]
fn spaced_move_line_gives_name_after_mega() {
    assert_eq!(moved("mv /home/u/MEGA/a.txt /tmp/a.txt\n"), Some("a.txt".to_string()));
}

#[test]
fn first_mega_marker_is_used() {
    assert_eq!(moved("mv /x/MEGA/y/MEGA/z /b\n"), Some("y/MEGA/z".to_string()));
}

#[test]
fn name_may_be_empty() {
    assert_eq!(moved("mv /x/MEGA/ /b"), Some(String::new()));
}

#[test]
fn non_move_lines_are_other() {
    assert!(matches!(classify_line("rm /a/MEGA/b\n"), LineKind::Other));
    assert!(matches!(classify_line("mvx /a/MEGA/b c\n"), LineKind::Other));
    assert!(matches!(classify_line(" mv /a/MEGA/b c\n"), LineKind::Other));
    assert!(matches!(classify_line(""), LineKind::Other));
    assert!(matches!(classify_line("mv"), LineKind::Other));
}

#[test]
fn short_quoted_line_counts_pieces() {
    assert!(matches!(classify_line("mv 'a'\n"), LineKind::ShortQuoted(3)));
    assert!(matches!(classify_line("mv 'a\n"), LineKind::ShortQuoted(2)));
}

#[test]
fn short_spaced_line_counts_pieces() {
    assert!(matches!(classify_line("mv a\n"), LineKind::ShortSpaced(2)));
    assert!(matches!(classify_line("mv "), LineKind::ShortSpaced(2)));
}

#[test]
fn source_without_mega_is_refused() {
    assert!(matches!(classify_line("mv /home/a.txt /home/MEGA/a.txt\n"), LineKind::NoMega));
    assert!(matches!(classify_line("mv '/home/a' '/MEGA/b'\n"), LineKind::NoMega));
    // Two spaces make the second piece empty.
    assert!(matches!(classify_line("mv  /a/MEGA/b c\n"), LineKind::NoMega));
}

#[test]
fn non_ascii_names_are_kept() {
    assert_eq!(moved("mv '/m/MEGA/héllo wörld' '/x'\n"), Some("héllo wörld".to_string()));
}

#[test]
fn decimal_renders_like_display() {
    for n in [0u64, 7, 10, 19, 20, 99, 100, 12345, u64::MAX] {
        assert_eq!(decimal(n), n.to_string());
    }
}

fn parse(s: &str) -> Option<i32> {
    let v = chars_of(s);
    parse_i32(&v, 0, v.len())
}

#[test]
fn parse_i32_matches_str_parse() {
    for s in [
        "0", "42", "+42", "-42", "-0", "007", "2147483647", "2147483648", "-2147483648",
        "-2147483649", "", "+", "-", "1a", " 1", "1 ", "99999999999999999999", "--1", "+-1",
    ] {
        assert_eq!(parse(s), s.parse::<i32>().ok(), "input {:?}", s);
    }
}

#[test]
fn parse_progress_fraction() {
    assert_eq!(parse_progress("Progress|3|10"), ProgressMsg::Fraction(3, 10));
    assert_eq!(parse_progress("Progress|+5|-7"), ProgressMsg::Fraction(5, -7));
    assert_eq!(parse_progress("Progress|-2147483648|1"), ProgressMsg::Fraction(i32::MIN, 1));
}

#[test]
fn parse_progress_not_numeric() {
    assert_eq!(parse_progress("Progress|x|10"), ProgressMsg::NotNumeric);
    assert_eq!(parse_progress("Progress|1|"), ProgressMsg::NotNumeric);
    assert_eq!(parse_progress("Progress|-9999|1"), ProgressMsg::NotNumeric);
    assert_eq!(parse_progress("Progress|1|-9999"), ProgressMsg::NotNumeric);
    assert_eq!(parse_progress("Progress|2147483648|1"), ProgressMsg::NotNumeric);
}

#[test]
fn parse_progress_not_progress() {
    assert_eq!(parse_progress("Other|1|2"), ProgressMsg::NotProgress);
    assert_eq!(parse_progress("Progress|1|2|3"), ProgressMsg::NotProgress);
    assert_eq!(parse_progress("Progress|1"), ProgressMsg::NotProgress);
    assert_eq!(parse_progress("progress|1|2"), ProgressMsg::NotProgress);
    assert_eq!(parse_progress(" "), ProgressMsg::NotProgress);
}

#[test]
fn find_seq_finds_first() {
    let v = chars_of("ab/MEGA/cd/MEGA/");
    let p = chars_of("/MEGA/");
    assert_eq!(find_seq(&v, &p), Some(2));
    assert_eq!(find_seq(&chars_of("abc"), &p), None);
    assert_eq!(find_seq(&v, &chars_of("")), Some(0));
}

#[test]
fn split_pieces_counts_up_to_four() {
    assert_eq!(split_pieces(&chars_of("a|b|c"), '|'), (3, 1, 3));
    assert_eq!(split_pieces(&chars_of("abc"), '|'), (1, 3, 3));
    assert_eq!(split_pieces(&chars_of("a||b|c|d"), '|'), (4, 1, 2));
    assert_eq!(split_pieces(&chars_of("|"), '|'), (2, 0, 1));
}
