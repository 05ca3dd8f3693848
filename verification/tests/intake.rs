use tokval::intake::{credential_of, credentials, is_white_space, proxy_addresses};

fn lines(text: &[&str]) -> Vec<String> {
    text.iter().map(|l| l.to_string()).collect()
}

#[test]
fn credential_is_the_trimmed_line() {
    assert_eq!(credential_of("abc"), Some("abc".to_string()));
    assert_eq!(credential_of("  abc\t"), Some("abc".to_string()));
    assert_eq!(credential_of("abc\r"), Some("abc".to_string()));
    assert_eq!(credential_of(" a b "), Some("a b".to_string()));
    assert_eq!(credential_of("\u{a0}abc\u{3000}"), Some("abc".to_string()));
}

#[test]
fn blank_line_holds_no_credential() {
    assert_eq!(credential_of(""), None);
    assert_eq!(credential_of("   "), None);
    assert_eq!(credential_of("\t\r"), None);
}

#[test]
fn credentials_keep_order_and_drop_blank_lines() {
    let input = lines(&["good1", "", "  bad1  ", "   ", "good2\r", "good1"]);
    assert_eq!(credentials(&input), lines(&["good1", "bad1", "good2", "good1"]));
    assert_eq!(credentials(&Vec::new()), Vec::<String>::new());
    assert_eq!(credentials(&lines(&["", " ", "\t"])), Vec::<String>::new());
}

#[test]
fn proxy_addresses_are_kept_as_they_stand() {
    let input = lines(&["http://a:1", "", " http://b:2 ", "  ", "c:3"]);
    assert_eq!(proxy_addresses(&input), lines(&["http://a:1", " http://b:2 ", "c:3"]));
    assert_eq!(proxy_addresses(&Vec::new()), Vec::<String>::new());
}

#[test]
fn white_space_is_what_the_standard_library_trims() {
    let mut count = 0;
    for code in 0..=0x10ffffu32 {
        if let Some(c) = char::from_u32(code) {
            assert_eq!(is_white_space(c), c.is_whitespace(), "U+{:04X}", code);
            if is_white_space(c) {
                count += 1;
            }
        }
    }
    assert_eq!(count, 25);
}

#[test]
fn every_white_space_character_is_trimmed_and_no_other() {
    for code in 0..=0x10ffffu32 {
        if let Some(c) = char::from_u32(code) {
            let line = format!("{}tok{}", c, c);
            let kept = credential_of(&line).expect("a credential");
            if is_white_space(c) {
                assert_eq!(kept, "tok");
            } else {
                assert_eq!(kept, line);
            }
        }
    }
}

#[test]
fn characters_that_only_look_like_space_stay() {
    for c in ['\u{200b}', '\u{180e}', '\u{feff}', '\u{2060}', '\u{1c}', '\u{1f}', '_'] {
        assert!(!is_white_space(c));
        let line = format!("{}", c);
        assert_eq!(credential_of(&line), Some(line.clone()));
    }
    for c in [' ', '\t', '\n', '\u{b}', '\u{c}', '\r', '\u{85}', '\u{a0}', '\u{3000}'] {
        assert!(is_white_space(c));
        assert_eq!(credential_of(&format!("{}", c)), None);
    }
}
