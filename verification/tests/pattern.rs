use npaperbot_telegram::error::BotError;
use npaperbot_telegram::pattern::Pattern;

#[test]
fn pattern_compiles_a_regular_expression() {
    assert!(Pattern::compile("p[0-9]+", true).is_ok());
    assert!(Pattern::compile("", false).is_ok());
}

#[test]
fn pattern_rejects_what_is_no_regular_expression() {
    for bad in ["(", "[", "a{2,1}", "(?P<x", "\\"] {
        assert!(matches!(
            Pattern::compile(bad, true),
            Err(BotError::InvalidPattern)
        ));
        assert!(matches!(
            Pattern::compile(bad, false),
            Err(BotError::InvalidPattern)
        ));
    }
}

#[test]
fn pattern_matches_anywhere_in_the_text() {
    let pattern = Pattern::compile("p[0-9]+", false).unwrap();
    assert!(pattern.is_match("p1488"));
    assert!(pattern.is_match("see p1488r0 there"));
    assert!(!pattern.is_match("P1488"));
    assert!(!pattern.is_match("p"));
    assert!(!pattern.is_match(""));
}

#[test]
fn pattern_ignores_case_where_asked_to() {
    let pattern = Pattern::compile("p[0-9]+R", true).unwrap();
    assert!(pattern.is_match("P1488r0"));
    assert!(pattern.is_match("p1488R0"));
    assert!(!pattern.is_match("n1488r0"));
}

#[test]
fn pattern_replaces_every_match() {
    let pattern = Pattern::compile("(?P<digit>[0-9])", false).unwrap();
    assert_eq!(pattern.replace_all("a1b22c", "<$digit>"), "a<1>b<2><2>c");
    assert_eq!(pattern.replace_all("abc", "<$digit>"), "abc");
    assert_eq!(pattern.replace_all("7", ""), "");
}
