//! Download outcomes: checksum checks, archive names and the errors of
//! downloading and extracting.

use sha2::Digest;
use vstd::prelude::*;

use crate::text::{
    chars_of, join_seqs, join_strings, push_all, push_decimal, push_str, str_eq, string_of,
    texts_of, decimal
};

verus! {

/// Errors of download and extraction.
#[derive(Debug, Clone)]
pub enum DownloadError {
    /// The request failed (its error text given).
    Http { url: String, reason: String },
    /// The server answered with a non-success status.
    HttpStatus { url: String, status: u16 },
    /// A file operation failed at a path (its error text given).
    Io { path: String, reason: String },
    /// An archive could not be extracted.
    Extraction { path: String, reason: String },
    /// The downloaded file's digest is not the expected one.
    ChecksumMismatch { expected: String, actual: String },
    /// Several downloads failed.
    Multiple { errors: Vec<String> },
}

/// The message each download error displays.
pub open spec fn download_error_text(e: DownloadError) -> Seq<char> {
    match e {
        DownloadError::Http { url, reason } => "HTTP request failed for `"@ + url@ + "`: "@ + reason@
            + "\n  Check your network connection and try again."@,
        DownloadError::HttpStatus { url, status } => "HTTP "@ + decimal(status as nat) + " error for `"@ + url@
            + "`.\n  The download URL may be incorrect or the server may be down."@,
        DownloadError::Io { path, reason } => "I/O error at `"@ + path@ + "`: "@ + reason@,
        DownloadError::Extraction { path, reason } => "failed to extract `"@ + path@ + "`: "@ + reason@,
        DownloadError::ChecksumMismatch { expected, actual } => "checksum mismatch: expected "@ + expected@
            + ", got "@ + actual@,
        DownloadError::Multiple { errors } => "multiple download failures:\n  "@ + join_seqs(
            texts_of(errors@),
            "\n  "@,
        ),
    }
}

impl DownloadError {
    /// The message this error displays.
    pub fn to_string(&self) -> (r: String)
        ensures
            r@ == download_error_text(*self),
    {
        let mut m: Vec<char> = Vec::new();
        match self {
            DownloadError::Http { url, reason } => {
                push_str(&mut m, "HTTP request failed for `");
                push_str(&mut m, url.as_str());
                push_str(&mut m, "`: ");
                push_str(&mut m, reason.as_str());
                push_str(&mut m, "\n  Check your network connection and try again.");
            },
            DownloadError::HttpStatus { url, status } => {
                push_str(&mut m, "HTTP ");
                push_decimal(&mut m, *status as u64);
                push_str(&mut m, " error for `");
                push_str(&mut m, url.as_str());
                push_str(&mut m, "`.\n  The download URL may be incorrect or the server may be down.");
            },
            DownloadError::Io { path, reason } => {
                push_str(&mut m, "I/O error at `");
                push_str(&mut m, path.as_str());
                push_str(&mut m, "`: ");
                push_str(&mut m, reason.as_str());
            },
            DownloadError::Extraction { path, reason } => {
                push_str(&mut m, "failed to extract `");
                push_str(&mut m, path.as_str());
                push_str(&mut m, "`: ");
                push_str(&mut m, reason.as_str());
            },
            DownloadError::ChecksumMismatch { expected, actual } => {
                push_str(&mut m, "checksum mismatch: expected ");
                push_str(&mut m, expected.as_str());
                push_str(&mut m, ", got ");
                push_str(&mut m, actual.as_str());
            },
            DownloadError::Multiple { errors } => {
                push_str(&mut m, "multiple download failures:\n  ");
                let j = join_strings(errors, "\n  ");
                push_all(&mut m, &j);
            },
        }
        string_of(&m)
    }
}

/// Checks a digest against the expected one: equal texts pass (the
/// comparison is exact, so case matters); otherwise a mismatch naming both.
pub fn verify_checksum(actual: &str, expected: &str) -> (r: Result<(), DownloadError>)
    ensures
        actual@ == expected@ ==> r is Ok,
        actual@ != expected@ ==> (r matches Err(DownloadError::ChecksumMismatch { expected: e, actual: a })
            && e@ == expected@ && a@ == actual@),
{
    if !str_eq(actual, expected) {
        return Err(DownloadError::ChecksumMismatch {
            expected: string_of(&chars_of(expected)),
            actual: string_of(&chars_of(actual)),
        });
    }
    Ok(())
}

/// The answer to a download request: a success status (200 to 299) goes
/// on; any other fails with `HttpStatus` naming the URL and the status.
pub fn check_status(url: &str, status: u16) -> (r: Result<(), DownloadError>)
    ensures
        (200 <= status < 300) <==> r is Ok,
        !(200 <= status < 300) ==> (r matches Err(DownloadError::HttpStatus { url: u, status: s }) && u@ == url@
            && s == status),
{
    if 200 <= status && status < 300 {
        Ok(())
    } else {
        Err(DownloadError::HttpStatus { url: string_of(&chars_of(url)), status })
    }
}

/// What `sha2::Sha256` digests bytes to, written in lowercase hex.
pub uninterp spec fn sha256_hex(data: Seq<u8>) -> Seq<char>;

/// Digests bytes with `sha2::Sha256` (`Digest::digest`) and writes the
/// digest in lowercase hex.
///
/// Claims that the text is the digest of these bytes (named by
/// `sha256_hex`).
#[verifier::external_body]
fn sha256_hex_of(data: &[u8]) -> (r: String)
    ensures
        r@ == sha256_hex(data@),
{
    format!("{:x}", sha2::Sha256::digest(data))
}

/// The digest of a downloaded archive, checked against the expected one
/// when there is one: the digest when it matches (or nothing is
/// expected), else a mismatch naming both.
pub fn verify_download(data: &[u8], expected: Option<&str>) -> (r: Result<String, DownloadError>)
    ensures
        match expected {
            None => r matches Ok(d) && d@ == sha256_hex(data@),
            Some(e) => if e@ == sha256_hex(data@) {
                r matches Ok(d) && d@ == sha256_hex(data@)
            } else {
                r matches Err(DownloadError::ChecksumMismatch { expected: x, actual: a }) && x@ == e@
                    && a@ == sha256_hex(data@)
            },
        },
{
    let digest = sha256_hex_of(data);
    match expected {
        None => Ok(digest),
        Some(e) => match verify_checksum(digest.as_str(), e) {
            Ok(()) => Ok(digest),
            Err(err) => Err(err),
        },
    }
}

/// The position of the last `c` in `s`, or `-1`.
pub open spec fn last_index(s: Seq<char>, c: char) -> int
    decreases s.len(),
{
    if s.len() == 0 {
        -1
    } else if s.last() == c {
        s.len() - 1
    } else {
        last_index(s.drop_last(), c)
    }
}

/// The file name an archive is saved under: the URL's text after its last
/// `/` (the whole URL when it has none).
pub open spec fn archive_name(url: Seq<char>) -> Seq<char> {
    url.subrange(last_index(url, '/') + 1, url.len() as int)
}

/// The file name an archive downloaded from a URL is saved under (see
/// [`archive_name`]).
pub fn archive_file_name(url: &str) -> (r: String)
    ensures
        r@ == archive_name(url@),
{
    let u = chars_of(url);
    let mut k: usize = u.len();
    assert(u@.subrange(0, u@.len() as int) =~= u@);
    while k > 0 && u[k - 1] != '/'
        invariant
            k <= u.len(),
            last_index(u@, '/') == last_index(u@.subrange(0, k as int), '/'),
        decreases k,
    {
        assert(u@.subrange(0, k as int).drop_last() =~= u@.subrange(0, k - 1));
        k = k - 1;
    }
    proof {
        if k > 0 {
            assert(last_index(u@.subrange(0, k as int), '/') == k - 1);
        } else {
            assert(u@.subrange(0, 0) =~= Seq::<char>::empty());
        }
    }
    string_of(&crate::text::slice_chars(&u, k, u.len()))
}

} // verus!
