use manga_sources::dom::check_selectors;
use manga_sources::error::Error;
use manga_sources::preferences::{find_choice, same_key, set_preferences, InputKey, InputKind};
use manga_sources::text::{
    is_blank, join, nth_piece, remove_all, rsplit_once, same_text, starts_with, text_contains,
    text_not_after, to_ascii_lowercase, to_decimal, to_decimal_u64, trim, trim_all, trim_end_matches, white_space,
};

#[test]
fn selectors_are_checked_in_order() {
    assert!(check_selectors(&["a", "div > span"]).is_ok());
    assert!(check_selectors(&[]).is_ok());
    match check_selectors(&["a", "div >", "["]) {
        Err(Error::Selector(bad)) => assert_eq!(bad, "div >"),
        other => panic!("{:?}", other),
    }
    let error = check_selectors(&["["]).unwrap_err();
    assert_eq!(error.message(), "failed to parse selector: [");
}

#[test]
fn white_space_is_that_of_unicode() {
    for n in 0..=0x10ffffu32 {
        if let Some(c) = char::from_u32(n) {
            assert_eq!(white_space(c), c.is_whitespace(), "{:x}", n);
        }
    }
}

#[test]
fn texts_are_trimmed() {
    for text in ["", " ", "a", " a ", "\u{3000}a\u{a0}", "a b", "\n\ta\r", "é "] {
        assert_eq!(trim(text), text.trim());
        assert_eq!(is_blank(text), text.trim().is_empty());
        assert_eq!(trim_end_matches(text, ' '), text.trim_end_matches(' '));
    }
    assert_eq!(
        trim_all(&vec![" a".to_string(), "b ".to_string()]),
        vec!["a", "b"]
    );
}

#[test]
fn texts_are_searched_and_split() {
    for text in ["", "a", "aa", "aaa", "/a/b/", "Chapter Chapter 1", "ab", "äöä"] {
        for pattern in ["a", "aa", "Chapter ", "ä", "/", ""] {
            assert_eq!(text_contains(text, pattern), text.contains(pattern));
            assert_eq!(starts_with(text, pattern), text.starts_with(pattern));
            assert_eq!(remove_all(text, pattern), text.replace(pattern, ""));
            assert_eq!(same_text(text, pattern), text == pattern);
            assert_eq!(text_not_after(text, pattern), text <= pattern);
        }
        for n in 0..6 {
            assert_eq!(
                nth_piece(text, '/', n),
                text.split('/').nth(n).map(|p| p.to_string())
            );
        }
        assert_eq!(
            rsplit_once(text, '/'),
            text.rsplit_once('/').map(|(a, b)| (a.to_string(), b.to_string()))
        );
        assert_eq!(to_ascii_lowercase(text), text.to_ascii_lowercase());
    }
    assert_eq!(to_ascii_lowercase("ÄBC"), "Äbc");
}

#[test]
fn texts_are_joined() {
    let list = |parts: &[&str]| parts.iter().map(|p| p.to_string()).collect::<Vec<String>>();
    assert_eq!(join(&list(&[]), "; "), "");
    assert_eq!(join(&list(&["a"]), "; "), "a");
    assert_eq!(join(&list(&["a", "", "b"]), "; "), "a; ; b");
    assert_eq!(join(&list(&["a", "b"]), ""), "ab");
}

#[test]
fn numbers_are_written() {
    for n in [0, 9, 10, -1, -10, 12345, i64::MAX, i64::MIN] {
        assert_eq!(to_decimal(n), n.to_string());
    }
    for n in [0, 10, u64::MAX] {
        assert_eq!(to_decimal_u64(n), n.to_string());
    }
}

fn key(kind: InputKind, name: &str) -> InputKey {
    InputKey { kind, name: name.to_string() }
}

#[test]
fn last_choice_for_a_preference_counts() {
    let current = vec![
        key(InputKind::Text, "name"),
        key(InputKind::Checkbox, "name"),
        key(InputKind::Sort, "order"),
    ];
    let incoming = vec![
        key(InputKind::Text, "name"),
        key(InputKind::Sort, "order"),
        key(InputKind::Text, "name"),
        key(InputKind::State, "unknown"),
    ];
    assert_eq!(set_preferences(&current, &incoming), vec![Some(2), None, Some(1)]);
    assert_eq!(set_preferences(&current, &vec![]), vec![None, None, None]);
    assert!(set_preferences(&vec![], &incoming).is_empty());
    assert_eq!(find_choice(&current[1], &incoming), None);
    assert!(same_key(&current[0], &incoming[2]));
    assert!(!same_key(&current[0], &current[1]));
    assert!(!same_key(&key(InputKind::Group, "a"), &key(InputKind::Group, "b")));
}

#[test]
fn choices_add_up() {
    let pref = key(InputKind::Select, "s");
    let first = vec![key(InputKind::Select, "s"), key(InputKind::Text, "t")];
    let second = vec![key(InputKind::Text, "t")];
    let mut both = first.clone();
    both.extend(second.clone());
    assert_eq!(find_choice(&pref, &second), None);
    assert_eq!(find_choice(&pref, &both), find_choice(&pref, &first));
    let third = vec![key(InputKind::Text, "x"), key(InputKind::Select, "s")];
    both.extend(third.clone());
    assert_eq!(find_choice(&pref, &third), Some(1));
    assert_eq!(find_choice(&pref, &both), Some(3 + 1));
}

#[test]
fn errors_speak() {
    let text = |s: &str| s.to_string();
    assert_eq!(Error::ImageStatus(503, text("u")).message(), "Image fetch failed: HTTP 503 for u");
    assert_eq!(
        Error::PageTooLarge(715827883).message(),
        "page of 715827883 bytes is too large"
    );
    assert_eq!(Error::Solver(text("m")).message(), "FlareSolverr error: m");
    assert_eq!(
        Error::ChapterNotFound(text("1"), text("p")).message(),
        "chapter 1 not found in series p"
    );
    assert_eq!(
        Error::NoPages(text("1"), text("g")).message(),
        "chapter 1 has no pages for scanlation group g"
    );
}
