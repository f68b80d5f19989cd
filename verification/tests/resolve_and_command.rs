use sydney::command::{parse_usize, Command, NumeralError};
use sydney::resolve::{check_capsule_url, resolve, strip_query};

#[test]
fn resolve_leading_slash_uses_current_host() {
    let r = resolve("gemini://example.org/dir/page.gmi", "/about");
    assert_eq!(r, "gemini://example.org/about");
}

#[test]
fn resolve_leading_slash_keeps_port_and_drops_query() {
    let r = resolve("gemini://example.org:1965/x?q=1", "/a/b");
    assert_eq!(r, "gemini://example.org:1965/a/b");
}

#[test]
fn resolve_scheme_prefixed_target_is_verbatim() {
    let r = resolve("gemini://example.org/dir/", "gemini://other.host/z.gmi");
    assert_eq!(r, "gemini://other.host/z.gmi");
}

#[test]
fn resolve_relative_target_joins_with_slash() {
    let r = resolve("gemini://example.org/dir/", "sub.gmi");
    assert_eq!(r, "gemini://example.org/dir/sub.gmi");
}

#[test]
fn resolve_relative_on_bare_host() {
    let r = resolve("gemini://example.org", "page.gmi");
    assert_eq!(r, "gemini://example.org/page.gmi");
}

#[test]
fn resolve_relative_trims_every_trailing_slash() {
    let r = resolve("gemini://example.org/dir///", "x");
    assert_eq!(r, "gemini://example.org/dir/x");
}

#[test]
fn resolve_foreign_scheme_returns_current() {
    let u = "gemini://example.org/here";
    let r = resolve(u, "https://www.example.com/elsewhere");
    assert_eq!(r, u);
}

#[test]
fn capsule_url_check_accepts_and_refuses() {
    assert!(check_capsule_url("gemini://h"));
    assert!(check_capsule_url("gemini://example.org/path?q"));
    assert!(!check_capsule_url("gemini://"));
    assert!(!check_capsule_url("gemini:///path"));
    assert!(!check_capsule_url("https://example.org/"));
    assert!(!check_capsule_url(""));
}

#[test]
fn strip_query_removes_from_first_question_mark() {
    assert_eq!(strip_query("gemini://h/search?a?b"), "gemini://h/search");
    assert_eq!(strip_query("gemini://h/plain"), "gemini://h/plain");
}

#[test]
fn parse_usize_plain_and_signed() {
    assert_eq!(parse_usize("123"), Ok(123));
    assert_eq!(parse_usize("+7"), Ok(7));
    assert_eq!(parse_usize("0"), Ok(0));
}

#[test]
fn parse_usize_empty_is_an_error() {
    assert!(matches!(parse_usize(""), Err(NumeralError::Empty)));
    assert!(matches!(parse_usize("+"), Err(NumeralError::Empty)));
}

#[test]
fn parse_usize_rejects_non_digits() {
    assert!(matches!(parse_usize("12x"), Err(NumeralError::InvalidDigit)));
    assert!(matches!(parse_usize("-3"), Err(NumeralError::InvalidDigit)));
    assert!(matches!(parse_usize(" 5"), Err(NumeralError::InvalidDigit)));
}

#[test]
fn parse_usize_rejects_huge_numerals() {
    assert!(matches!(
        parse_usize("999999999999999999999999999999"),
        Err(NumeralError::TooLarge)
    ));
}

#[test]
fn command_open_with_and_without_argument() {
    match Command::from(&String::from("open gemini://h/x")) {
        Command::Open(Some(t)) => assert_eq!(t, "gemini://h/x"),
        _ => panic!("expected open with target"),
    }
    match Command::from(&String::from("o host.example")) {
        Command::Open(Some(t)) => assert_eq!(t, "host.example"),
        _ => panic!("expected open with target"),
    }
    assert!(matches!(
        Command::from(&String::from("open")),
        Command::Open(None)
    ));
}

#[test]
fn command_quit_both_spellings() {
    assert!(matches!(Command::from(&String::from("quit")), Command::Quit));
    assert!(matches!(Command::from(&String::from("q")), Command::Quit));
}

#[test]
fn command_wrap_with_valid_width() {
    match Command::from(&String::from("wrap 42")) {
        Command::Wrap(w, e) => {
            assert_eq!(w, 42);
            assert!(e.is_none());
        },
        _ => panic!("expected wrap"),
    }
}

#[test]
fn command_wrap_without_width_reports_missing_argument() {
    match Command::from(&String::from("wrap")) {
        Command::Wrap(w, Some(e)) => {
            assert_eq!(w, 80);
            assert_eq!(e, "Missing width argument to wrap command");
        },
        _ => panic!("expected wrap error"),
    }
}

#[test]
fn command_wrap_with_bad_width_reports_parse_failure() {
    match Command::from(&String::from("wrap abc")) {
        Command::Wrap(w, Some(e)) => {
            assert_eq!(w, 80);
            assert_eq!(e, "invalid digit found in string");
        },
        _ => panic!("expected wrap error"),
    }
}

#[test]
fn command_unknown_verbs() {
    assert!(matches!(
        Command::from(&String::from("hello world")),
        Command::Unknown
    ));
    assert!(matches!(Command::from(&String::from("")), Command::Unknown));
    assert!(matches!(
        Command::from(&String::from("Open x")),
        Command::Unknown
    ));
}
