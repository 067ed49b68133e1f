use mcp2cli_rs::error::{AppError, ErrorKind, ExitCode};
use mcp2cli_rs::output::failure_response;

#[test]
fn exit_code_table() {
    assert_eq!(ExitCode::Success.as_i32(), 0);
    assert_eq!(ExitCode::CliError.as_i32(), 1);
    assert_eq!(ExitCode::NetworkError.as_i32(), 2);
    assert_eq!(ExitCode::ProtocolError.as_i32(), 3);
    assert_eq!(ExitCode::ExecutionError.as_i32(), 4);
}

#[test]
fn errors_exit_with_their_codes() {
    let all = [
        (AppError::Cli("x".into()), 1),
        (AppError::Network("x".into()), 2),
        (AppError::Protocol("x".into()), 3),
        (AppError::Execution("x".into()), 4),
    ];
    for (e, code) in all.iter() {
        assert_eq!(e.exit_code().as_i32(), *code);
        assert_ne!(e.exit_code().as_i32(), 0);
    }
}

#[test]
fn error_texts() {
    assert_eq!(AppError::Cli("Tool name required".into()).display(), "CLI Error: Tool name required");
    assert_eq!(AppError::Network("down".into()).display(), "Network Error: down");
    assert_eq!(AppError::Protocol("Empty result".into()).display(), "Protocol Error: Empty result");
    assert_eq!(AppError::Execution("boom".into()).display(), "Execution Error: boom");
}

#[test]
fn nested_errors_carry_the_inner_text() {
    let inner = AppError::Protocol("Empty result".into());
    match AppError::nested(ErrorKind::Protocol, &inner) {
        AppError::Protocol(m) => assert_eq!(m, "Protocol Error: Empty result"),
        other => panic!("unexpected {:?}", other),
    }
    match AppError::of_kind(ErrorKind::Execution, "m".to_string()) {
        AppError::Execution(m) => assert_eq!(m, "m"),
        other => panic!("unexpected {:?}", other),
    }
}

#[test]
fn failure_response_names_unknown_tool() {
    let r = failure_response(&AppError::Cli("Operation ID required".into()));
    assert!(!r.success);
    assert_eq!(r.tool, "unknown");
    assert!(r.content.is_none());
    let d = r.error.unwrap();
    assert_eq!(d.code, "CLI Error: Operation ID required");
    assert_eq!(d.message, "CLI Error: Operation ID required");
    assert!(d.category.is_none() && d.retryable.is_none() && d.details.is_none());
}
