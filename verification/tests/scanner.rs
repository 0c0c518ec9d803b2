use llmpal::grammar::{LineKind, Sentinels};
use llmpal::scan::{join, Mode, Scanner};
use llmpal::text::{
    append_chars, chars_of, char_is_space, ends_with, find, next_line, slices_equal, starts_with,
    string_of, trim_slice, trim_span,
};

fn chars(s: &str) -> Vec<char> {
    s.chars().collect()
}

fn kind(line: &str) -> LineKind {
    Sentinels::new().kind_of(&chars(line))
}

#[test]
fn kinds_of_lines() {
    assert_eq!(kind("<think>"), LineKind::ThinkOpen);
    assert_eq!(kind("  <think>and more"), LineKind::ThinkOpen);
    assert_eq!(kind("</think>"), LineKind::ThinkClose);
    assert_eq!(kind("<explain>"), LineKind::ExplainOpen);
    assert_eq!(kind("=== EXPLAIN START ==="), LineKind::ExplainOpen);
    assert_eq!(kind("</explain>"), LineKind::ExplainClose);
    assert_eq!(kind("=== EXPLAIN END ==="), LineKind::ExplainClose);
    assert_eq!(kind("<file path=\"a\">"), LineKind::FileOpen);
    assert_eq!(kind("<file>"), LineKind::FileOpen);
    assert_eq!(kind("=== a.txt === START ==="), LineKind::FileOpen);
    assert_eq!(kind("</file>"), LineKind::FileClose);
    assert_eq!(kind("=== a.txt === END ==="), LineKind::FileClose);
    assert_eq!(kind(""), LineKind::Text);
    assert_eq!(kind("   "), LineKind::Text);
    assert_eq!(kind("fn main() {}"), LineKind::Text);
    assert_eq!(kind("<explain>x"), LineKind::Text);
    assert_eq!(kind("</file>x"), LineKind::Text);
    assert_eq!(kind("<file path=\"a\""), LineKind::Text);
    assert_eq!(kind("< think>"), LineKind::Text);
}

#[test]
fn reasoning_takes_precedence_over_every_other_sentinel() {
    assert_eq!(kind("<think></file>"), LineKind::ThinkOpen);
    assert_eq!(kind("</think><file path=\"a\">"), LineKind::ThinkClose);
}

#[test]
fn path_of_opening_lines() {
    let g = Sentinels::new();
    assert_eq!(g.path_of(&chars("<file path=\"src/a.rs\">")), "src/a.rs");
    assert_eq!(g.path_of(&chars("  <file  path=\"a b\"  >  ")), "a b");
    assert_eq!(g.path_of(&chars("<file path=\"a\" path=\"b\">")), "a");
    assert_eq!(g.path_of(&chars("<file name=\"a\">")), "");
    assert_eq!(g.path_of(&chars("<file path=\">")), "");
    assert_eq!(g.path_of(&chars("=== a.txt === START ===")), "a.txt");
    assert_eq!(g.path_of(&chars("=== a === START === === START ===")), "a === START ===");
    assert_eq!(g.path_of(&chars("no opener path=\"x\"")), "");
    assert_eq!(g.path_of(&chars("</file>")), "");
}

#[test]
fn scanner_transitions() {
    let mut s = Scanner::new();
    assert_eq!(s.mode(), Mode::Normal);
    s.feed(&chars("<explain>"));
    assert_eq!(s.mode(), Mode::InExplain);
    s.feed(&chars("<file path=\"a\">"));
    assert_eq!(s.mode(), Mode::InExplain);
    s.feed(&chars("</explain>"));
    assert_eq!(s.mode(), Mode::Normal);
    s.feed(&chars("<file path=\"a\">"));
    assert_eq!(s.mode(), Mode::InFile);
    s.feed(&chars("<think>"));
    assert_eq!(s.mode(), Mode::InThink);
    s.feed(&chars("</file>"));
    assert_eq!(s.mode(), Mode::InThink);
    s.feed(&chars("</think>"));
    assert_eq!(s.mode(), Mode::InFile);
    s.feed(&chars("body"));
    assert_eq!(s.mode(), Mode::InFile);
    s.feed(&chars("</file>"));
    assert_eq!(s.mode(), Mode::Normal);
    s.feed(&chars("tail"));
    assert_eq!(
        s.finish(),
        Ok((
            "<file path=\"a\">".to_string(),
            vec![("a".to_string(), "body".to_string())],
            "tail".to_string()
        ))
    );
}

#[test]
fn scanner_fails_at_the_end_inside_a_file_section() {
    let mut s = Scanner::new();
    s.feed(&chars("<file path=\"a\">"));
    s.feed(&chars("<explain>"));
    assert_eq!(s.mode(), Mode::InExplain);
    assert_eq!(
        s.finish(),
        Err("Error: unexpected end of response while parsing a file section".to_string())
    );
}

#[test]
fn join_puts_one_line_feed_between_lines() {
    assert_eq!(join(&vec![]), "");
    assert_eq!(join(&vec!["a".to_string()]), "a");
    assert_eq!(join(&vec!["".to_string()]), "");
    assert_eq!(join(&vec!["".to_string(), "".to_string()]), "\n");
    assert_eq!(join(&vec!["a".to_string(), "".to_string(), "b".to_string()]), "a\n\nb");
}

#[test]
fn characters_and_strings() {
    assert_eq!(chars_of("aé\u{1F600}"), vec!['a', 'é', '\u{1F600}']);
    assert_eq!(chars_of(""), Vec::<char>::new());
    assert_eq!(string_of(&['h', 'é', '!']), "hé!");
    let mut buf = "x".to_string();
    append_chars(&mut buf, &['y', 'z']);
    assert_eq!(buf, "xyz");
}

#[test]
fn white_space_is_what_std_calls_white_space() {
    let mut c = 0u32;
    while c <= 0x10FFFF {
        if let Some(ch) = char::from_u32(c) {
            assert_eq!(char_is_space(ch), ch.is_whitespace(), "U+{:04X}", c);
        }
        c += 1;
    }
}

#[test]
fn trimming_is_what_std_does() {
    let samples = [
        "", " ", "a", " a", "a ", "  a b  ", "\t\r\n x \u{a0}\u{3000}", "\u{2003}\u{2003}",
        "x\u{200b}", "\u{feff}x ", " \u{1680}é\u{2029}",
    ];
    for s in samples {
        let v = chars(s);
        let trimmed: String = trim_slice(&v).iter().collect();
        assert_eq!(trimmed, s.trim(), "{:?}", s);
        let (lo, hi) = trim_span(&v);
        assert!(lo <= hi && hi <= v.len());
        assert_eq!(v[lo..hi].iter().collect::<String>(), s.trim());
    }
}

#[test]
fn lines_are_what_std_calls_lines() {
    let samples = [
        "", "a", "a\n", "a\nb", "a\r\nb\r\n", "\n", "\n\n", "\r\n", "\r", "a\r", "a\r\r\nb",
        "a\n\r\nb\n\n", "\r\r", "x\ry\nz", "é\u{2028}z\n",
    ];
    for s in samples {
        let v = chars(s);
        let mut got = Vec::new();
        let mut pos = 0;
        while let Some((end, next)) = next_line(&v, pos) {
            got.push(v[pos..end].iter().collect::<String>());
            assert!(next > pos);
            pos = next;
        }
        assert_eq!(pos, v.len());
        assert_eq!(next_line(&v, v.len() + 1), None);
        let expected: Vec<String> = s.lines().map(|l| l.to_string()).collect();
        assert_eq!(got, expected, "{:?}", s);
    }
}

#[test]
fn searching() {
    let s = chars("abcabc");
    assert_eq!(find(&s, &chars("bc")), Some(1));
    assert_eq!(find(&s, &chars("abc")), Some(0));
    assert_eq!(find(&s, &chars("c")), Some(2));
    assert_eq!(find(&s, &chars("cb")), None);
    assert_eq!(find(&s, &chars("")), Some(0));
    assert_eq!(find(&s, &chars("abcabcd")), None);
    assert_eq!(find(&chars(""), &chars("")), Some(0));
    assert_eq!(find(&chars(""), &chars("a")), None);
    assert!(starts_with(&s, &chars("abc")));
    assert!(starts_with(&s, &chars("")));
    assert!(!starts_with(&s, &chars("bc")));
    assert!(!starts_with(&chars("ab"), &chars("abc")));
    assert!(ends_with(&s, &chars("bc")));
    assert!(ends_with(&s, &chars("")));
    assert!(!ends_with(&s, &chars("ab")));
    assert!(!ends_with(&chars("bc"), &chars("abc")));
    assert!(slices_equal(&s, &chars("abcabc")));
    assert!(!slices_equal(&s, &chars("abcabd")));
    assert!(!slices_equal(&s, &chars("abc")));
}
