use tmux_otg::validation::{filter_allowed, is_allowed_session, ALLOWED_PREFIX, MAX_NAME_LEN};

#[test]
fn accepts_well_formed_public_names() {
    assert!(is_allowed_session("public-insecure-demo"));
    assert!(is_allowed_session("public-insecure-build_log"));
    assert!(is_allowed_session("public-insecure-CI-123"));
    // single trailing character after the prefix is enough
    assert!(is_allowed_session("public-insecure-x"));
}

#[test]
fn rejects_names_without_prefix() {
    assert!(!is_allowed_session("demo"));
    assert!(!is_allowed_session("insecure-demo"));
    assert!(!is_allowed_session("private-demo"));
    assert!(!is_allowed_session(""));
    // the prefix must be at the very start, not merely contained
    assert!(!is_allowed_session("x-public-insecure-demo"));
    // a leading dash must not let a bare prefix sneak through
    assert!(!is_allowed_session("-public-insecure-demo"));
}

#[test]
fn rejects_bare_prefix() {
    assert!(!is_allowed_session(ALLOWED_PREFIX));
}

#[test]
fn rejects_injection_and_target_characters() {
    // shell metacharacters
    assert!(!is_allowed_session("public-insecure-a;rm -rf /"));
    assert!(!is_allowed_session("public-insecure-a$(whoami)"));
    assert!(!is_allowed_session("public-insecure-a`id`"));
    assert!(!is_allowed_session("public-insecure-a|b"));
    assert!(!is_allowed_session("public-insecure-a&b"));
    assert!(!is_allowed_session("public-insecure-../etc/passwd"));
    // tmux target separators
    assert!(!is_allowed_session("public-insecure-a:1"));
    assert!(!is_allowed_session("public-insecure-a.0"));
    // whitespace / control characters
    assert!(!is_allowed_session("public-insecure-a b"));
    assert!(!is_allowed_session("public-insecure-a\nb"));
    assert!(!is_allowed_session("public-insecure-a\tb"));
    assert!(!is_allowed_session("public-insecure-a\0b"));
    // non-ASCII
    assert!(!is_allowed_session("public-insecure-café"));
}

#[test]
fn rejects_overlong_names() {
    let long = format!("public-insecure-{}", "a".repeat(MAX_NAME_LEN));
    assert!(long.len() > MAX_NAME_LEN);
    assert!(!is_allowed_session(&long));

    // exactly at the limit is still accepted
    let suffix_len = MAX_NAME_LEN - ALLOWED_PREFIX.len();
    let at_limit = format!("{}{}", ALLOWED_PREFIX, "a".repeat(suffix_len));
    assert_eq!(at_limit.len(), MAX_NAME_LEN);
    assert!(is_allowed_session(&at_limit));

    // one byte more is not
    let above = format!("{}{}", ALLOWED_PREFIX, "a".repeat(suffix_len + 1));
    assert!(!is_allowed_session(&above));
}

#[test]
fn filter_keeps_only_allowed_in_order() {
    let input = vec![
        "public-insecure-one",
        "private",
        "public-insecure-two",
        "public-insecure-", // bare prefix is rejected
        "random",
        "public-insecure-three",
    ];
    let got = filter_allowed(input);
    assert_eq!(got, vec!["public-insecure-one", "public-insecure-two", "public-insecure-three",]);
}

#[test]
fn filter_on_empty_input_is_empty() {
    let empty: Vec<String> = filter_allowed(Vec::<String>::new());
    assert!(empty.is_empty());
}

#[test]
fn filter_twice_is_filter_once() {
    let once = filter_allowed(vec!["b", "public-insecure-a", "public-insecure-a", "public-insecure-?"]);
    assert_eq!(once, vec!["public-insecure-a", "public-insecure-a"]);
    let twice = filter_allowed(once.clone());
    assert_eq!(once, twice);
}

#[test]
fn every_ascii_character_is_judged_by_the_character_list() {
    for code in 0u8..128 {
        let c = code as char;
        let name = format!("public-insecure-a{c}b");
        let fine = c.is_ascii_alphanumeric() || c == '-' || c == '_';
        assert_eq!(is_allowed_session(&name), fine, "{name:?}");
    }
}
