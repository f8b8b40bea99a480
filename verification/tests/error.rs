use runx::cache::CacheError;
use runx::config::ConfigError;
use runx::download::DownloadError;
use runx::environment::EnvironmentError;
use runx::error::RunxError;
use runx::executor::ExecutorError;
use runx::provider::ProviderError;

#[test]
fn test_no_command_display() {
    let err = RunxError::NoCommand;
    let msg = err.to_string();
    assert!(msg.contains("no command specified"));
    assert!(msg.contains("Example:"));
}

#[test]
fn test_no_tools_display() {
    let err = RunxError::NoTools;
    let msg = err.to_string();
    assert!(msg.contains("no tools specified"));
    assert!(msg.contains("--with"));
}

#[test]
fn test_unsupported_platform_display() {
    let err = RunxError::UnsupportedPlatform("RISC-V".to_string());
    assert!(err.to_string().contains("RISC-V"));
}

#[test]
fn test_no_cwd_display() {
    let err = RunxError::NoCwd("access denied".to_string());
    let msg = err.to_string();
    assert!(msg.contains("cannot determine current directory"));
    assert!(msg.contains("access denied"));
}

#[test]
fn test_io_display() {
    let err = RunxError::Io("broken pipe".to_string());
    assert!(err.to_string().contains("broken pipe"));
}

#[test]
fn test_provider_error_converts() {
    let err: RunxError = ProviderError::UnknownTool { name: "ruby".to_string() }.into();
    assert!(matches!(err, RunxError::Provider(_)));
    assert!(err.to_string().contains("ruby"));
}

#[test]
fn test_cache_error_converts() {
    let err: RunxError = CacheError::NoHomeDir.into();
    assert!(matches!(err, RunxError::Cache(_)));
}

#[test]
fn test_no_home_dir_display() {
    let err = RunxError::NoHomeDir;
    assert_eq!(err.to_string(), "cannot determine home directory");
}

#[test]
fn test_plugin_error_display() {
    let err = RunxError::Plugin("missing manifest".to_string());
    assert!(err.to_string().contains("missing manifest"));
    assert!(err.to_string().contains("plugin error"));
}

#[test]
fn test_process_exited_display() {
    let err = RunxError::ProcessExited(42);
    assert_eq!(err.to_string(), "process exited with code 42");
}

#[test]
fn test_process_exited_zero_display() {
    let err = RunxError::ProcessExited(0);
    assert_eq!(err.to_string(), "process exited with code 0");
}

#[test]
fn test_environment_error_converts() {
    let err: RunxError = EnvironmentError::TempDir { var: "GOPATH".to_string(), reason: "denied".to_string() }.into();
    assert!(matches!(err, RunxError::Environment(_)));
    assert!(err.to_string().contains("GOPATH"));
}

#[test]
fn test_executor_error_converts() {
    let err: RunxError = ExecutorError::Spawn { program: "sh".to_string(), reason: "not found".to_string() }.into();
    assert!(matches!(err, RunxError::Executor(_)));
    assert!(err.to_string().contains("sh"));
}

#[test]
fn test_download_error_converts() {
    let err: RunxError = DownloadError::ChecksumMismatch { expected: "aaa".to_string(), actual: "bbb".to_string() }.into();
    assert!(matches!(err, RunxError::Download(_)));
    assert!(err.to_string().contains("checksum mismatch"));
}

#[test]
fn test_config_error_converts() {
    let err: RunxError = ConfigError::Parse { path: "/tmp/.runxrc".to_string(), reason: "bad toml".to_string() }.into();
    assert!(matches!(err, RunxError::Config(_)));
}

#[test]
fn negative_exit_code_display() {
    assert_eq!(RunxError::ProcessExited(-3).to_string(), "process exited with code -3");
    assert_eq!(RunxError::ProcessExited(i32::MIN).to_string(), "process exited with code -2147483648");
}

#[test]
fn wrapped_errors_display_their_own_message() {
    let err: RunxError = CacheError::Io { path: "/tmp/test".to_string(), reason: "not found".to_string() }.into();
    assert_eq!(err.to_string(), "cache I/O error at `/tmp/test`: not found");
    let err = EnvironmentError::TempDir { var: "GOPATH".to_string(), reason: "denied".to_string() };
    assert_eq!(err.to_string(), "failed to create temp directory for `GOPATH`: denied");
}
