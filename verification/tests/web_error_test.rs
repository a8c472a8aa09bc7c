use battleship::web_error::ClientError;

#[test]
fn test_constructor() {
    assert_eq!(ClientError::new(), ClientError { stack: Vec::new() });
}

#[test]
fn test_from() {
    assert_eq!(
        "tests/web_error_test.rs: This is a test error using &str",
        ClientError::from("tests/web_error_test.rs", "This is a test error using &str").render()
    );

    assert_eq!(
        "tests/web_error_test.rs: This is a test error using String",
        ClientError::from(
            "tests/web_error_test.rs",
            &"This is a test error using String".to_string()
        )
        .render()
    );
}

#[test]
fn test_push() {
    assert_eq!(
        "tests/web_error_test.rs: single push test",
        ClientError::new()
            .push("tests/web_error_test.rs", "single push test")
            .render()
    );
    assert_eq!(
        "tests/web_error_test.rs: final push test\n\ttests/web_error_test.rs: initial push test",
        ClientError::new()
            .push("tests/web_error_test.rs", "initial push test")
            .push("tests/web_error_test.rs", "final push test")
            .render()
    );
}

#[test]
fn shorten_keeps_last_three_segments() {
    assert_eq!(
        "frontend/src/main.rs: deep error",
        ClientError::from("src/bin/frontend/src/main.rs", "deep error").render()
    );
    assert_eq!(
        "a/b/c: x",
        ClientError::from("a//b/c", "x").render(),
        "empty segments are dropped"
    );
}
