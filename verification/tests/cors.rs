use talos::cors::parse_allowed_origins;

#[test]
fn unset_or_empty_value_yields_no_layer() {
    assert!(parse_allowed_origins("").unwrap().is_empty());
    assert!(parse_allowed_origins(" , ,").unwrap().is_empty());
}

#[test]
fn configured_origins_yield_a_layer() {
    assert!(
        !parse_allowed_origins("https://talos.example.com, http://10.1.11.50:3000")
            .unwrap()
            .is_empty()
    );
}

#[test]
fn invalid_origin_is_rejected() {
    assert!(parse_allowed_origins("https://talos.example.com\nhttps://evil.example.com").is_err());
}

#[test]
fn origins_are_trimmed_and_listed_in_order() {
    assert_eq!(
        parse_allowed_origins(" https://a.example ,\thttp://b.example:3000,, ").unwrap(),
        vec!["https://a.example".to_string(), "http://b.example:3000".to_string()]
    );
}

#[test]
fn first_invalid_origin_is_the_error() {
    assert_eq!(
        parse_allowed_origins("ok, bad\u{7f}one, worse\u{1}"),
        Err("bad\u{7f}one".to_string())
    );
}
