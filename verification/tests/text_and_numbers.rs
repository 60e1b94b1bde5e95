use mapcopy::number::{i32_decimal, parse_i32, u64_decimal};
use mapcopy::text::{contains_str, lines, remove_char_str, replace_char_str, split_char};

#[test]
fn parse_i32_reads_plain_and_signed_numbers() {
    assert_eq!(parse_i32("42"), Some(42));
    assert_eq!(parse_i32("-7"), Some(-7));
    assert_eq!(parse_i32("+5"), Some(5));
    assert_eq!(parse_i32("0755"), Some(755));
    assert_eq!(parse_i32("2147483647"), Some(i32::MAX));
    assert_eq!(parse_i32("-2147483648"), Some(i32::MIN));
}

#[test]
fn parse_i32_refuses_what_from_str_refuses() {
    assert_eq!(parse_i32(""), None);
    assert_eq!(parse_i32("-"), None);
    assert_eq!(parse_i32("+"), None);
    assert_eq!(parse_i32("12a"), None);
    assert_eq!(parse_i32("2147483648"), None);
    assert_eq!(parse_i32("-2147483649"), None);
    assert_eq!(parse_i32("99999999999999999999"), None);
    assert_eq!(parse_i32("755\n"), None);
    assert_eq!(parse_i32(" 1"), None);
}

#[test]
fn parse_i32_agrees_with_std() {
    for s in ["1", "-0", "+0", "00", "-12", "300", "x", "--1", "+-1", "2147483650", "-2147483648"] {
        assert_eq!(parse_i32(s), s.parse::<i32>().ok(), "input {:?}", s);
    }
}

#[test]
fn decimal_text_round_trips() {
    for x in [0, 1, -1, 9, 10, 644, -755, i32::MAX, i32::MIN] {
        assert_eq!(i32_decimal(x), x.to_string());
        assert_eq!(parse_i32(&i32_decimal(x)), Some(x));
    }
    assert_eq!(u64_decimal(0), "0");
    assert_eq!(u64_decimal(1700000000), "1700000000");
    assert_eq!(u64_decimal(u64::MAX), u64::MAX.to_string());
}

#[test]
fn lines_cut_like_str_lines() {
    for s in ["a\r\nb\n", "", "\n", "x\ry", "a\nb", "a\n\nb\r", "one", "\r\n\r\n"] {
        let expected: Vec<String> = s.lines().map(|l| l.to_string()).collect();
        assert_eq!(lines(s), expected, "input {:?}", s);
    }
}

#[test]
fn split_keeps_empty_pieces() {
    assert_eq!(split_char("rsync -a  b", ' '), vec!["rsync", "-a", "", "b"]);
    assert_eq!(split_char("", ' '), vec![""]);
    assert_eq!(split_char("ls ", ' '), vec!["ls", ""]);
}

#[test]
fn contains_replace_and_remove() {
    assert!(contains_str("Linux host 6.1 alpine x86_64", "alpine"));
    assert!(!contains_str("Linux", "OpenBSD"));
    assert!(contains_str("abc", ""));
    assert_eq!(replace_char_str("/etc/php8", '/', '_'), "_etc_php8");
    assert_eq!(remove_char_str("y\n", '\n'), "y");
}
