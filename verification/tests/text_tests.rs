use kb_port::num::{decimal_chars, parse_u32, parse_u64};
use kb_port::text::{first_word_exec, lines_of, trim_chars};

fn chars(s: &str) -> Vec<char> {
    s.chars().collect()
}

#[test]
fn trim_uses_unicode_white_space() {
    assert_eq!(trim_chars(&chars("\u{a0} a b\u{3000}\t")), chars("a b"));
    assert_eq!(trim_chars(&chars("   ")), Vec::<char>::new());
    assert_eq!(trim_chars(&chars("\u{200b}x")), chars("\u{200b}x"));
}

#[test]
fn lines_like_std() {
    let got = lines_of(&chars("a\r\nb\n\nc\r"));
    let want: Vec<Vec<char>> = vec![chars("a"), chars("b"), chars(""), chars("c\r")];
    assert_eq!(got, want);
    assert!(lines_of(&chars("")).is_empty());
    assert_eq!(lines_of(&chars("x\n")), vec![chars("x")]);
}

#[test]
fn first_word_like_split_whitespace() {
    assert_eq!(first_word_exec(&chars("  12 kB")), Some(chars("12")));
    assert_eq!(first_word_exec(&chars(" \t ")), None);
}

#[test]
fn numbers_like_std_parse() {
    assert_eq!(parse_u32(&chars("0042")), Some(42));
    assert_eq!(parse_u64(&chars("18446744073709551615")), Some(u64::MAX));
    assert_eq!(parse_u64(&chars("18446744073709551616")), None);
    assert_eq!(parse_u32(&chars("12a")), None);
    assert_eq!(parse_u32(&chars(" 1")), None);
}

#[test]
fn decimal_text() {
    assert_eq!(decimal_chars(0), chars("0"));
    assert_eq!(decimal_chars(1234567890), chars("1234567890"));
    let s: String = decimal_chars(987).into_iter().collect();
    assert_eq!(parse_u32(&chars(&s)), Some(987));
}

#[test]
fn trim_is_idempotent() {
    let once = trim_chars(&chars("  a b \n"));
    assert_eq!(trim_chars(&once), once);
}
