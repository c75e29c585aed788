use obsctl::decimal::{push_decimal, read_unsigned};
use obsctl::lines::{join, split};
use obsctl::text::{
    chars_of, find_char_in, find_sub_in, join_with, same_text, space, string_of, trim_bounds,
};

fn chars(s: &str) -> Vec<char> {
    s.chars().collect()
}

fn text(cs: &[char]) -> String {
    cs.iter().collect()
}

#[test]
fn space_is_unicode_white_space() {
    let mut c = 0u32;
    while c <= 0x10FFFF {
        if let Some(ch) = char::from_u32(c) {
            assert_eq!(space(ch), ch.is_whitespace(), "U+{:04X}", c);
        }
        c += 1;
    }
}

#[test]
fn chars_of_and_string_of_are_inverse() {
    let s = "- [ ] (1) caf\u{e9} \u{1F4C5} 2024-01-01";
    let cs = chars_of(s);
    assert_eq!(cs, chars(s));
    assert_eq!(string_of(&cs), s);
    assert_eq!(chars_of(""), Vec::<char>::new());
    assert_eq!(string_of(&[]), "");
}

#[test]
fn trim_bounds_agree_with_std_trim() {
    let samples = [
        "",
        " ",
        "  a  ",
        "a",
        "\t\n a b \r\n",
        "\u{a0}x\u{3000}",
        "\u{2003}\u{2003}",
        "x \u{85}",
        "- [ ] (1) A",
    ];
    for s in samples {
        let cs = chars(s);
        let (a, b) = trim_bounds(&cs, 0, cs.len());
        assert_eq!(text(&cs[a..b]), s.trim(), "{:?}", s);
    }
}

#[test]
fn trim_bounds_of_a_window() {
    let cs = chars("ab  cd  ef");
    assert_eq!(trim_bounds(&cs, 2, 8), (4, 6));
    assert_eq!(trim_bounds(&cs, 2, 4), (4, 4));
    assert_eq!(trim_bounds(&cs, 0, 0), (0, 0));
}

#[test]
fn find_char_in_finds_the_first() {
    let cs = chars("a)b)c");
    assert_eq!(find_char_in(&cs, ')', 0, 5), 1);
    assert_eq!(find_char_in(&cs, ')', 2, 5), 3);
    assert_eq!(find_char_in(&cs, ')', 4, 5), 5);
    assert_eq!(find_char_in(&cs, 'z', 0, 5), 5);
    assert_eq!(find_char_in(&cs, ')', 0, 1), 1);
}

#[test]
fn find_sub_in_agrees_with_std_find() {
    let cases = [
        ("hello {{date}} and {{date}}", "{{date}}"),
        ("{{date}}", "{{date}}"),
        ("{{date}", "{{date}}"),
        ("", "x"),
        ("aaab", "aab"),
        ("abc", "c"),
        ("abc", "d"),
    ];
    for (s, p) in cases {
        let cs = chars(s);
        let ps = chars(p);
        let expected = match s.find(p) {
            Some(byte) => s[..byte].chars().count(),
            None => cs.len(),
        };
        assert_eq!(find_sub_in(&cs, &ps, 0, cs.len()), expected, "{:?} in {:?}", p, s);
    }
}

#[test]
fn find_sub_in_stays_inside_the_window() {
    let cs = chars("xxabxx");
    let ps = chars("ab");
    assert_eq!(find_sub_in(&cs, &ps, 0, 3), 3);
    assert_eq!(find_sub_in(&cs, &ps, 0, 4), 2);
    assert_eq!(find_sub_in(&cs, &ps, 3, 6), 6);
}

#[test]
fn read_unsigned_agrees_with_std_parse() {
    let samples = [
        "0",
        "1",
        "42",
        "007",
        "+5",
        "+",
        "",
        "-1",
        "1 ",
        " 1",
        "1_000",
        "12a",
        "18446744073709551615",
        "18446744073709551616",
        "99999999999999999999999",
        "000000000000000000000000001",
        "++1",
        "\u{661}",
    ];
    for s in samples {
        let cs = chars(s);
        assert_eq!(read_unsigned(&cs, 0, cs.len()), s.parse::<usize>().ok(), "{:?}", s);
    }
}

#[test]
fn read_unsigned_reads_a_window() {
    let cs = chars("(123)");
    assert_eq!(read_unsigned(&cs, 1, 4), Some(123));
    assert_eq!(read_unsigned(&cs, 0, 4), None);
    assert_eq!(read_unsigned(&cs, 1, 1), None);
}

#[test]
fn push_decimal_writes_like_display() {
    for n in [0usize, 1, 9, 10, 11, 99, 100, 101, 12345, 1_000_000, usize::MAX] {
        let mut out = vec!['#'];
        push_decimal(&mut out, n);
        assert_eq!(text(&out), format!("#{}", n));
    }
}

#[test]
fn split_cuts_at_line_feeds() {
    let lines = |s: &str| -> Vec<String> { split(&chars(s)).iter().map(|l| text(l)).collect() };
    assert_eq!(lines(""), Vec::<String>::new());
    assert_eq!(lines("a"), vec!["a"]);
    assert_eq!(lines("a\n"), vec!["a"]);
    assert_eq!(lines("a\nb"), vec!["a", "b"]);
    assert_eq!(lines("a\n\nb\n"), vec!["a", "", "b"]);
    assert_eq!(lines("\n"), vec![""]);
    assert_eq!(lines("\n\n"), vec!["", ""]);
    assert_eq!(lines("a\r\nb"), vec!["a\r", "b"]);
}

#[test]
fn split_agrees_with_std_lines_without_carriage_returns() {
    for s in ["", "x", "x\n", "# Tasks\n\n- [ ] (1) A\n", "\n\n\n", "a\nb\nc", " \n \n"] {
        let got: Vec<String> = split(&chars(s)).iter().map(|l| text(l)).collect();
        let expected: Vec<String> = s.lines().map(|l| l.to_string()).collect();
        assert_eq!(got, expected, "{:?}", s);
    }
}

#[test]
fn join_ends_every_line_with_a_line_feed() {
    assert_eq!(text(&join(&vec![])), "");
    assert_eq!(text(&join(&vec![chars("a")])), "a\n");
    assert_eq!(text(&join(&vec![chars("a"), chars(""), chars("b")])), "a\n\nb\n");
}

#[test]
fn split_after_join_gives_the_lines_back() {
    let lines = vec![chars("# Tasks"), chars(""), chars("- [ ] (1) A")];
    assert_eq!(split(&join(&lines)), lines);
}

#[test]
fn join_with_puts_the_separator_between() {
    let words = vec!["buy".to_string(), "oat".to_string(), "milk".to_string()];
    assert_eq!(join_with(&words, " "), "buy oat milk");
    assert_eq!(join_with(&vec!["one".to_string()], " "), "one");
    assert_eq!(join_with(&vec![], " "), "");
    assert_eq!(join_with(&vec!["a".to_string(), "".to_string()], ", "), "a, ");
}

#[test]
fn same_text_compares_texts() {
    assert!(same_text("match", "match"));
    assert!(!same_text("match", "Match"));
    assert!(!same_text("match", "matc"));
    assert!(same_text("", ""));
}
