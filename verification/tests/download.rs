use runx::download::{check_status, verify_download};
use runx::download::{DownloadError, archive_file_name, verify_checksum};

#[test]
fn test_verify_checksum_match() {
    assert!(verify_checksum("abc123", "abc123").is_ok());
}

#[test]
fn test_verify_checksum_mismatch() {
    let err = verify_checksum("abc123", "def456").unwrap_err();
    assert!(err.to_string().contains("checksum mismatch"));
}

#[test]
fn test_verify_checksum_case_sensitive() {
    assert!(verify_checksum("ABC123", "abc123").is_err());
}

#[test]
fn test_verify_checksum_empty_strings() {
    assert!(verify_checksum("", "").is_ok());
    assert!(verify_checksum("abc", "").is_err());
    assert!(verify_checksum("", "abc").is_err());
}

#[test]
fn test_download_error_display() {
    let err = DownloadError::HttpStatus { url: "https://example.com/file.tar.gz".to_string(), status: 404 };
    let msg = err.to_string();
    assert!(msg.contains("HTTP 404 error for `https://example.com/file.tar.gz`"));
    assert!(msg.contains("server may be down"));

    let err = DownloadError::ChecksumMismatch { expected: "aaa".to_string(), actual: "bbb".to_string() };
    assert!(err.to_string().contains("checksum mismatch"));
}

#[test]
fn test_download_error_display_multiple() {
    let err = DownloadError::Multiple { errors: vec!["node: HTTP 404".to_string(), "python: timeout".to_string()] };
    let msg = err.to_string();
    assert!(msg.contains("multiple download failures"));
    assert!(msg.contains("node: HTTP 404"));
    assert!(msg.contains("python: timeout"));
}

#[test]
fn test_download_error_display_extraction() {
    let err = DownloadError::Extraction { path: "/tmp/archive.tar.gz".to_string(), reason: "unexpected EOF".to_string() };
    let msg = err.to_string();
    assert!(msg.contains("failed to extract"));
    assert!(msg.contains("unexpected EOF"));
}

#[test]
fn checksum_mismatch_message() {
    let err = verify_checksum("bbb", "aaa").unwrap_err();
    assert_eq!(err.to_string(), "checksum mismatch: expected aaa, got bbb");
}

#[test]
fn archive_names() {
    assert_eq!(archive_file_name("https://nodejs.org/dist/v1/node-v1-linux-x64.tar.gz"), "node-v1-linux-x64.tar.gz");
    assert_eq!(archive_file_name("archive.zip"), "archive.zip");
    assert_eq!(archive_file_name("https://example.com/dir/"), "");
}

#[test]
fn multiple_failures_joined_by_lines() {
    let err = DownloadError::Multiple { errors: vec!["a".to_string(), "b".to_string()] };
    assert_eq!(err.to_string(), "multiple download failures:\n  a\n  b");
}

#[test]
fn verify_download_digests_with_sha256() {
    let abc = "ba7816bf8f01cfea414140de5dae2223b00361a396177a9cb410ff61f20015ad";
    assert_eq!(verify_download(b"abc", None).unwrap(), abc);
    assert_eq!(verify_download(b"abc", Some(abc)).unwrap(), abc);
    let empty = "e3b0c44298fc1c149afbf4c8996fb92427ae41e4649b934ca495991b7852b855";
    assert_eq!(verify_download(b"", None).unwrap(), empty);
    match verify_download(b"abc", Some("00")) {
        Err(runx::download::DownloadError::ChecksumMismatch { expected, actual }) => {
            assert_eq!(expected, "00");
            assert_eq!(actual, abc);
        }
        other => panic!("expected a mismatch, got {other:?}"),
    }
}

#[test]
fn check_status_accepts_only_success() {
    assert!(check_status("https://x/a.tar.gz", 200).is_ok());
    assert!(check_status("https://x/a.tar.gz", 299).is_ok());
    match check_status("https://x/a.tar.gz", 404) {
        Err(runx::download::DownloadError::HttpStatus { url, status }) => {
            assert_eq!(url, "https://x/a.tar.gz");
            assert_eq!(status, 404);
        }
        other => panic!("expected an HTTP status error, got {other:?}"),
    }
    assert!(check_status("https://x/a.tar.gz", 302).is_err());
}
