use spiderbutter::text::{
    char_is_whitespace, chars_of, find_in, same_text, split_spans, split_terminator_spans,
    text_contains, text_ends_with, text_starts_with, trim_span, word_spans,
};

fn pieces(s: &str, spans: &[(usize, usize)]) -> Vec<String> {
    let chars: Vec<char> = s.chars().collect();
    spans.iter().map(|&(a, b)| chars[a..b].iter().collect()).collect()
}

#[test]
fn whitespace_is_what_std_calls_whitespace() {
    let mut c = 0u32;
    while c <= 0x10FFFF {
        if let Some(ch) = char::from_u32(c) {
            assert_eq!(char_is_whitespace(ch), ch.is_whitespace(), "U+{:04X}", c);
        }
        c += 1;
    }
}

#[test]
fn chars_of_counts_characters_not_bytes() {
    assert_eq!(chars_of("a\u{e9}\u{1F600}"), vec!['a', '\u{e9}', '\u{1F600}']);
    assert_eq!(chars_of(""), Vec::<char>::new());
}

#[test]
fn find_gives_the_first_match_at_or_after_the_start() {
    let hay = chars_of("abcabc");
    let pat = chars_of("bc");
    assert_eq!(find_in(&hay, &pat, 0), Some(1));
    assert_eq!(find_in(&hay, &pat, 1), Some(1));
    assert_eq!(find_in(&hay, &pat, 2), Some(4));
    assert_eq!(find_in(&hay, &pat, 5), None);
    assert_eq!(find_in(&hay, &chars_of("x"), 0), None);
    assert_eq!(find_in(&hay, &chars_of("abcabcd"), 0), None);
    assert_eq!(find_in(&hay, &chars_of(""), 6), Some(6));
    assert_eq!(find_in(&hay, &pat, 7), None);
}

#[test]
fn split_agrees_with_std() {
    for s in ["a,b,,c", ",", "", "abc", "a,", ",a", "x\r\ny\r\n", "\r\n\r\n"] {
        for pat in [",", "\r\n"] {
            let chars = chars_of(s);
            let got = pieces(s, &split_spans(&chars, &chars_of(pat)));
            let want: Vec<String> = s.split(pat).map(str::to_owned).collect();
            assert_eq!(got, want, "{:?} by {:?}", s, pat);
            let got = pieces(s, &split_terminator_spans(&chars, &chars_of(pat)));
            let want: Vec<String> = s.split_terminator(pat).map(str::to_owned).collect();
            assert_eq!(got, want, "{:?} by {:?}", s, pat);
        }
    }
}

#[test]
fn words_agree_with_std() {
    for s in ["", "   ", "GET / HTTP/1.1", "  a\tb\u{a0}c  ", "one", "\u{2003}x\u{3000}"] {
        let chars = chars_of(s);
        let got = pieces(s, &word_spans(&chars));
        let want: Vec<String> = s.split_whitespace().map(str::to_owned).collect();
        assert_eq!(got, want, "{:?}", s);
    }
}

#[test]
fn trim_agrees_with_std() {
    for s in ["", "   ", " a b ", "a", "\r\n x\t", "\u{a0}\u{e9}\u{2003}"] {
        let chars = chars_of(s);
        let got = pieces(s, &[trim_span(&chars)]);
        assert_eq!(got, vec![s.trim().to_owned()], "{:?}", s);
    }
}

#[test]
fn prefix_suffix_and_infix() {
    assert!(text_starts_with("./public", "./"));
    assert!(!text_starts_with(".", "./"));
    assert!(text_starts_with("abc", ""));
    assert!(text_ends_with("dir/mappings.sb", "mappings.sb"));
    assert!(!text_ends_with("sb", "mappings.sb"));
    assert!(text_contains("a/.spiderbutter/b", ".spiderbutter"));
    assert!(!text_contains("a/.spider/b", ".spiderbutter"));
    assert!(same_text("caf\u{e9}", "caf\u{e9}"));
    assert!(!same_text("cafe", "caf\u{e9}"));
}
