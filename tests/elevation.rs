use keep_active::elevation::{
    elevation_request_result, ensure_admin, quote_argument, relaunch_parameters, AdminStep,
};

#[test]
fn plain_argument_is_unchanged() {
    assert_eq!(quote_argument("--cli"), "--cli");
    assert_eq!(quote_argument(r"C:\dir\x"), r"C:\dir\x");
}

#[test]
fn empty_argument_is_quoted() {
    assert_eq!(quote_argument(""), "\"\"");
}

#[test]
fn argument_with_space_is_quoted() {
    assert_eq!(quote_argument("a b"), "\"a b\"");
    assert_eq!(quote_argument("a\tb"), "\"a\tb\"");
}

#[test]
fn embedded_quote_is_escaped() {
    assert_eq!(quote_argument("a\"b"), r#""a\"b""#);
    assert_eq!(quote_argument(r#"a\"b"#), r#""a\\\"b""#);
}

#[test]
fn trailing_backslashes_are_doubled() {
    assert_eq!(quote_argument(r"C:\my dir\"), r#""C:\my dir\\""#);
    assert_eq!(quote_argument(r"a b\\"), r#""a b\\\\""#);
}

#[test]
fn relaunch_parameters_join_quoted_arguments() {
    let args = vec!["--window".to_string(), "My Game".to_string(), "--cli".to_string()];
    assert_eq!(relaunch_parameters(&args), "--window \"My Game\" --cli");
    assert_eq!(relaunch_parameters(&vec![]), "");
}

#[test]
fn ensure_admin_decides_relaunch() {
    assert!(matches!(ensure_admin(true, &vec!["x".to_string()]), AdminStep::AlreadyElevated));
    assert!(matches!(ensure_admin(false, &vec![]), AdminStep::Relaunch(None)));
    match ensure_admin(false, &vec!["--exe".to_string(), "a b.exe".to_string()]) {
        AdminStep::Relaunch(Some(p)) => assert_eq!(p, "--exe \"a b.exe\""),
        _ => panic!("expected a relaunch with parameters"),
    }
}

#[test]
fn shell_codes_up_to_32_fail() {
    assert_eq!(elevation_request_result(32), Err(32));
    assert_eq!(elevation_request_result(2), Err(2));
    assert_eq!(elevation_request_result(33), Ok(()));
}
