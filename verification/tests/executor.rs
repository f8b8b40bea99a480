use runx::executor::{ExecutorError, exit_code};

#[test]
fn test_executor_error_display() {
    let err = ExecutorError::Spawn { program: "node".to_string(), reason: "not found".to_string() };
    assert_eq!(err.to_string(), "failed to execute `node`: not found");

    let err = ExecutorError::Wait { program: "node".to_string(), reason: "interrupted".to_string() };
    assert_eq!(err.to_string(), "failed to wait for `node`: interrupted");

    let err = ExecutorError::SignalHandler { reason: "already set".to_string() };
    assert_eq!(err.to_string(), "failed to install signal handler: already set");
}

#[test]
fn test_exit_code_success() {
    assert_eq!(exit_code(true, None, Some(0)), 0);
}

#[test]
fn test_exit_code_failure() {
    assert_eq!(exit_code(false, None, Some(1)), 1);
}

#[test]
fn test_execute_specific_exit_code() {
    assert_eq!(exit_code(false, None, Some(42)), 42);
}

#[test]
fn test_exit_code_from_signal() {
    assert_eq!(exit_code(false, Some(15), None), 128 + 15);
}

#[test]
fn exit_code_without_code_is_one() {
    assert_eq!(exit_code(false, None, None), 1);
}
