use minigrep::text::{chars_of, contains_chars, is_whitespace, line_spans, trim_span};

#[test]
fn chars_of_multibyte() {
    assert_eq!(chars_of("aé€"), vec!['a', 'é', '€']);
    assert_eq!(chars_of(""), Vec::<char>::new());
}

#[test]
fn contains_chars_cases() {
    let hay = chars_of("productive");
    assert!(contains_chars(&hay, &chars_of("duct")));
    assert!(contains_chars(&hay, &chars_of("")));
    assert!(contains_chars(&hay, &chars_of("productive")));
    assert!(!contains_chars(&hay, &chars_of("productives")));
    assert!(!contains_chars(&hay, &chars_of("Duct")));
    assert!(contains_chars(&hay, &chars_of("e")));
}

#[test]
fn whitespace_set() {
    for c in [' ', '\t', '\n', '\r', '\u{b}', '\u{c}', '\u{85}', '\u{a0}', '\u{1680}', '\u{2000}', '\u{200a}', '\u{2028}', '\u{2029}', '\u{202f}', '\u{205f}', '\u{3000}'] {
        assert!(is_whitespace(c), "{:?}", c);
        assert_eq!(is_whitespace(c), c.is_whitespace());
    }
    for c in ['a', '\u{200b}', '\u{feff}', '_', '\u{0}'] {
        assert!(!is_whitespace(c), "{:?}", c);
        assert_eq!(is_whitespace(c), c.is_whitespace());
    }
}

#[test]
fn trim_span_cases() {
    let v = chars_of("  ab c \t");
    assert_eq!(trim_span(&v, 0, v.len()), (2, 6));
    assert_eq!(trim_span(&v, 0, 2), (2, 2));
    assert_eq!(trim_span(&v, 3, 5), (3, 4));
}

#[test]
fn line_spans_match_std_lines() {
    for text in ["", "a", "a\n", "a\nb", "\n\n", "a\r\nb\r\n", "a\rb\r", "\r\n", "x\n\ny"] {
        let v = chars_of(text);
        let spans = line_spans(&v);
        let got: Vec<String> = spans.iter().map(|&(a, b)| v[a..b].iter().collect()).collect();
        let want: Vec<String> = text.lines().map(|l| l.to_string()).collect();
        assert_eq!(got, want, "{:?}", text);
    }
}

#[test]
fn whitespace_agrees_with_std_on_every_char() {
    for u in 0u32..=0x10FFFF {
        if let Some(c) = char::from_u32(u) {
            assert_eq!(is_whitespace(c), c.is_whitespace(), "{:#x}", u);
        }
    }
}

#[test]
fn trim_span_agrees_with_std_trim() {
    for text in ["", "   ", "a", " a ", "\u{3000}x y\u{85}", "\t\n ab \r\n", "é\u{a0}"] {
        let v = chars_of(text);
        let (a, b) = trim_span(&v, 0, v.len());
        let got: String = v[a..b].iter().collect();
        assert_eq!(got, text.trim(), "{:?}", text);
    }
}
