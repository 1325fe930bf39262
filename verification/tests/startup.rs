use proxy::startup::parse_options_raw;
use proxy::startup::StartupMessageParams;
use proxy::text::str_equal;
use proxy::text::str_has_prefix;

#[test]
fn later_pair_replaces_earlier() {
    let params = StartupMessageParams::new([("user", "a"), ("database", "d"), ("user", "b")]);
    assert_eq!(params.get("user"), Some("b"));
    assert_eq!(params.get("database"), Some("d"));
    assert_eq!(params.get("options"), None);
}

#[test]
fn no_pairs() {
    let params = StartupMessageParams::new([]);
    assert_eq!(params.get(""), None);
    assert!(params.options_raw().is_none());
}

#[test]
fn options_split_at_unescaped_whitespace() {
    assert_eq!(parse_options_raw("-c a=1\t\n-c  b=2"), vec!["-c", "a=1", "-c", "b=2"]);
    assert_eq!(parse_options_raw(r"a\ b c"), vec![r"a\ b", "c"]);
    // an escaped backslash does not escape the space after it
    assert_eq!(parse_options_raw(r"a\\ b"), vec![r"a\\", "b"]);
    assert_eq!(parse_options_raw(""), Vec::<String>::new());
    assert_eq!(parse_options_raw(" \x0c\r "), Vec::<String>::new());
    assert_eq!(parse_options_raw("x\\"), vec!["x\\"]);
}

#[test]
fn options_raw_of_params() {
    let params = StartupMessageParams::new([("options", "  one two ")]);
    assert_eq!(params.options_raw(), Some(vec!["one".to_string(), "two".to_string()]));
}

#[test]
fn non_ascii_options() {
    assert_eq!(parse_options_raw("é\u{a0}ü ß"), vec!["é\u{a0}ü", "ß"]);
}

#[test]
fn string_helpers() {
    assert!(str_equal("abc", "abc"));
    assert!(!str_equal("abc", "abd"));
    assert!(!str_equal("ab", "abc"));
    assert!(str_has_prefix("project=foo", "project="));
    assert!(!str_has_prefix("project", "project="));
    assert!(str_has_prefix("x", ""));
}

#[test]
fn split_of_concatenation() {
    let a = r"-c x\ y";
    let b = r"z\";
    let joined = format!("{a} {b}");
    let mut expected = parse_options_raw(a);
    expected.extend(parse_options_raw(b));
    assert_eq!(parse_options_raw(&joined), expected);
}
