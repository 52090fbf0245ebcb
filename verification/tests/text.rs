use bisect_pipeline::text::{
    chars_of, decode_text, find_last, line_spans, lines, matches_at, starts_with, tail_of_lines,
};

fn chars(text: &str) -> Vec<char> {
    text.chars().collect()
}

#[test]
fn chars_of_a_text() {
    assert_eq!(chars_of(""), Vec::<char>::new());
    assert_eq!(chars_of("a\u{e4}\u{1f980}"), vec!['a', '\u{e4}', '\u{1f980}']);
}

#[test]
fn decode_text_accepts_only_utf8() {
    assert_eq!(decode_text(vec![0x68, 0x69]), Some("hi".to_string()));
    assert_eq!(decode_text(vec![0xc3, 0xa4]), Some("\u{e4}".to_string()));
    assert_eq!(decode_text(Vec::new()), Some(String::new()));
    assert_eq!(decode_text(vec![0xc3]), None);
    assert_eq!(decode_text(vec![0xff, 0x68]), None);
}

#[test]
fn lines_agree_with_the_standard_library() {
    let texts = [
        "",
        "\n",
        "\r",
        "\r\n",
        "a",
        "a\n",
        "a\r\n",
        "a\r",
        "a\rb\n",
        "\n\n",
        "a\n\nb",
        "a\r\r\nb\r",
        "one\ntwo\r\nthree",
        "\u{e4}\n\u{1f980}\r\n",
    ];
    for text in texts {
        let expected: Vec<String> = text.lines().map(|l| l.to_string()).collect();
        assert_eq!(lines(text), expected, "for {:?}", text);
    }
}

#[test]
fn line_spans_mark_the_lines() {
    assert_eq!(line_spans(&chars("ab\r\ncd\n\nef")), vec![(0, 2), (4, 6), (7, 7), (8, 10)]);
    assert_eq!(line_spans(&chars("")), Vec::<(usize, usize)>::new());
    assert_eq!(line_spans(&chars("\n")), vec![(0, 0)]);
}

#[test]
fn tail_of_lines_keeps_the_last() {
    assert_eq!(tail_of_lines("a\nb\nc\n", 2), "b\nc");
    assert_eq!(tail_of_lines("a\nb\nc", 5), "a\nb\nc");
    assert_eq!(tail_of_lines("a\nb\nc", 0), "");
    assert_eq!(tail_of_lines("a\r\nb\r\n", 1), "b");
    assert_eq!(tail_of_lines("", 3), "");
}

#[test]
fn find_last_finds_the_rightmost() {
    assert_eq!(find_last(&chars("abcabc"), &chars("bc")), Some(4));
    assert_eq!(find_last(&chars("abcabc"), &chars("abc")), Some(3));
    assert_eq!(find_last(&chars("abcabc"), &chars("abcabc")), Some(0));
    assert_eq!(find_last(&chars("abcabc"), &chars("x")), None);
    assert_eq!(find_last(&chars("ab"), &chars("abc")), None);
    assert_eq!(find_last(&chars("aaa"), &chars("aa")), Some(1));
    assert_eq!(find_last(&chars("abc"), &chars("")), Some(3));
    assert_eq!(find_last(&chars(""), &chars("")), Some(0));
}

#[test]
fn find_last_agrees_with_the_standard_library_on_ascii() {
    let texts = ["", "a", "abab", "xxabxx", "searched nightlies: searched nightlies:"];
    let patterns = ["ab", "a", "x", "searched nightlies:", "b"];
    for text in texts {
        for pattern in patterns {
            assert_eq!(find_last(&chars(text), &chars(pattern)), text.rfind(pattern));
        }
    }
}

#[test]
fn matches_at_and_starts_with() {
    assert!(matches_at(&chars("hello"), &chars("ll"), 2));
    assert!(!matches_at(&chars("hello"), &chars("ll"), 3));
    assert!(!matches_at(&chars("hello"), &chars("lo"), 4));
    assert!(!matches_at(&chars("hello"), &chars("lo"), usize::MAX));
    assert!(matches_at(&chars("hello"), &chars(""), 5));
    assert!(!matches_at(&chars("hello"), &chars(""), 6));
    assert!(starts_with(&chars("hello"), &chars("he")));
    assert!(!starts_with(&chars("hello"), &chars("el")));
    assert!(!starts_with(&chars("h"), &chars("he")));
}
