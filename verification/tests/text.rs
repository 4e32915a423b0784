use ransom_tts::text::{
    code_point_sum, find, from_chars, matches_at, push_decimal, same_chars, split_chars, to_chars,
    Separator,
};

fn chars(s: &str) -> Vec<char> {
    s.chars().collect()
}

fn pieces(s: &str, sep: Separator) -> Vec<String> {
    split_chars(&chars(s), sep).iter().map(|p| p.iter().collect()).collect()
}

#[test]
fn characters_round_trip() {
    for s in ["", "a", "hobbit-hole,", "na\u{EF}ve \u{1F600}"] {
        assert_eq!(to_chars(s), chars(s));
        assert_eq!(from_chars(&chars(s)), s);
    }
}

#[test]
fn split_agrees_with_std() {
    for s in ["", " ", "a", "a b", " a  b ", "a\nb c", "   "] {
        let expected: Vec<String> = s.split(' ').map(|p| p.to_string()).collect();
        assert_eq!(pieces(s, Separator::Char(' ')), expected);
        let expected: Vec<String> = s.split(char::is_whitespace).map(|p| p.to_string()).collect();
        assert_eq!(pieces(s, Separator::Whitespace), expected);
    }
}

#[test]
fn whitespace_is_what_unicode_calls_white_space() {
    for code in 0..=0x10FFFFu32 {
        if let Some(c) = char::from_u32(code) {
            assert_eq!(Separator::Whitespace.matches(c), c.is_whitespace());
            assert_eq!(Separator::Char('\n').matches(c), c == '\n');
        }
    }
}

#[test]
fn code_points_are_summed() {
    assert_eq!(code_point_sum(&chars("")), 0);
    assert_eq!(code_point_sum(&chars("m")), 109);
    assert_eq!(code_point_sum(&chars("hole")), 104 + 111 + 108 + 101);
    assert_eq!(code_point_sum(&chars("\u{10FFFF}\u{10FFFF}")), 2 * 0x10FFFF);
}

#[test]
fn same_chars_compares_contents() {
    assert!(same_chars(&chars(""), &chars("")));
    assert!(same_chars(&chars("hole"), &chars("hole")));
    assert!(!same_chars(&chars("hole"), &chars("hold")));
    assert!(!same_chars(&chars("hole"), &chars("hol")));
}

#[test]
fn find_returns_the_first_occurrence() {
    let s = chars("abcabc");
    assert_eq!(find(&s, &chars("bc"), 0), Some(1));
    assert_eq!(find(&s, &chars("bc"), 1), Some(1));
    assert_eq!(find(&s, &chars("bc"), 2), Some(4));
    assert_eq!(find(&s, &chars("bc"), 5), None);
    assert_eq!(find(&s, &chars("abcabc"), 0), Some(0));
    assert_eq!(find(&s, &chars("abcabca"), 0), None);
    assert_eq!(find(&s, &chars(""), 0), Some(0));
    assert_eq!(find(&s, &chars(""), 6), Some(6));
    assert_eq!(find(&s, &chars(""), 7), None);
    assert_eq!(find(&s, &chars("d"), 0), None);
}

#[test]
fn matches_at_checks_one_position() {
    let s = chars("abcabc");
    assert!(matches_at(&s, &chars("cab"), 2));
    assert!(!matches_at(&s, &chars("cab"), 3));
    assert!(!matches_at(&s, &chars("bc"), 5));
    assert!(matches_at(&s, &chars(""), 6));
    assert!(!matches_at(&s, &chars(""), 7));
}

#[test]
fn decimal_numerals_are_appended() {
    for n in [0usize, 7, 10, 99, 100, 12345, usize::MAX] {
        let mut s = String::from("id ");
        push_decimal(&mut s, n);
        assert_eq!(s, format!("id {}", n));
    }
}
