//! The errors runx reports, and their messages.

use vstd::prelude::*;

use crate::cache::{CacheError, cache_error_text};
use crate::config::{ConfigError, config_error_text};
use crate::download::{DownloadError, download_error_text};
use crate::environment::{EnvironmentError, environment_error_text};
use crate::executor::{ExecutorError, executor_error_text};
use crate::provider::{ProviderError, provider_error_text};
use crate::provider::owned;
use crate::text::{decimal, push_decimal, push_str, string_of};

verus! {

/// Errors of a runx invocation.
#[derive(Debug, Clone)]
pub enum RunxError {
    /// No command was given after `--`.
    NoCommand,
    /// No tools were given with `--with` (nor by a config file).
    NoTools,
    /// The platform is not supported (its description given).
    UnsupportedPlatform(String),
    /// A provider operation failed.
    Provider(ProviderError),
    /// A cache operation failed.
    Cache(CacheError),
    /// A download operation failed.
    Download(DownloadError),
    /// The environment could not be built.
    Environment(EnvironmentError),
    /// The command could not be run.
    Executor(ExecutorError),
    /// The config file could not be used.
    Config(ConfigError),
    /// The current directory cannot be determined (the error text given).
    NoCwd(String),
    /// An I/O error while prompting (the error text given).
    Io(String),
    /// The home directory cannot be determined.
    NoHomeDir,
    /// A plugin operation failed.
    Plugin(String),
    /// The child process exited with a non-zero code.
    ProcessExited(i32),
}

/// The decimal text of an integer, with a leading `-` when negative.
pub open spec fn signed_text(n: int) -> Seq<char> {
    if n < 0 {
        "-"@ + decimal((-n) as nat)
    } else {
        decimal(n as nat)
    }
}

/// The message each error displays; wrapped errors display their own.
pub open spec fn runx_error_text(e: RunxError) -> Seq<char> {
    match e {
        RunxError::NoCommand => "no command specified. Use -- to separate the command.\nExample: runx --with node@18 -- node -v"@,
        RunxError::NoTools => "no tools specified. Use --with to add tools.\nExample: runx --with node@18 -- node -v"@,
        RunxError::UnsupportedPlatform(s) => "unsupported platform: "@ + s@,
        RunxError::Provider(x) => provider_error_text(x),
        RunxError::Cache(x) => cache_error_text(x),
        RunxError::Download(x) => download_error_text(x),
        RunxError::Environment(x) => environment_error_text(x),
        RunxError::Executor(x) => executor_error_text(x),
        RunxError::Config(x) => config_error_text(x),
        RunxError::NoCwd(s) => "cannot determine current directory: "@ + s@,
        RunxError::Io(s) => "I/O error: "@ + s@,
        RunxError::NoHomeDir => "cannot determine home directory"@,
        RunxError::Plugin(s) => "plugin error: "@ + s@,
        RunxError::ProcessExited(n) => "process exited with code "@ + signed_text(n as int),
    }
}

/// Appends the decimal text of an `i32`.
fn push_signed(m: &mut Vec<char>, n: i32)
    ensures
        final(m)@ == old(m)@ + signed_text(n as int),
{
    if n < 0 {
        push_str(m, "-");
        let w: i64 = n as i64;
        push_decimal(m, (-w) as u64);
        assert(final(m)@ =~= old(m)@ + signed_text(n as int));
    } else {
        push_decimal(m, n as u64);
    }
}

impl RunxError {
    /// The message this error displays.
    pub fn to_string(&self) -> (r: String)
        ensures
            r@ == runx_error_text(*self),
    {
        match self {
            RunxError::NoCommand => owned(
                "no command specified. Use -- to separate the command.\nExample: runx --with node@18 -- node -v",
            ),
            RunxError::NoTools => owned(
                "no tools specified. Use --with to add tools.\nExample: runx --with node@18 -- node -v",
            ),
            RunxError::UnsupportedPlatform(s) => {
                let mut m: Vec<char> = Vec::new();
                push_str(&mut m, "unsupported platform: ");
                push_str(&mut m, s.as_str());
                string_of(&m)
            },
            RunxError::Provider(x) => x.to_string(),
            RunxError::Cache(x) => x.to_string(),
            RunxError::Download(x) => x.to_string(),
            RunxError::Environment(x) => x.to_string(),
            RunxError::Executor(x) => x.to_string(),
            RunxError::Config(x) => x.to_string(),
            RunxError::NoCwd(s) => {
                let mut m: Vec<char> = Vec::new();
                push_str(&mut m, "cannot determine current directory: ");
                push_str(&mut m, s.as_str());
                string_of(&m)
            },
            RunxError::Io(s) => {
                let mut m: Vec<char> = Vec::new();
                push_str(&mut m, "I/O error: ");
                push_str(&mut m, s.as_str());
                string_of(&m)
            },
            RunxError::NoHomeDir => owned("cannot determine home directory"),
            RunxError::Plugin(s) => {
                let mut m: Vec<char> = Vec::new();
                push_str(&mut m, "plugin error: ");
                push_str(&mut m, s.as_str());
                string_of(&m)
            },
            RunxError::ProcessExited(n) => {
                let mut m: Vec<char> = Vec::new();
                push_str(&mut m, "process exited with code ");
                push_signed(&mut m, *n);
                string_of(&m)
            },
        }
    }
}

impl From<ProviderError> for RunxError {
    fn from(e: ProviderError) -> (r: RunxError) {
        RunxError::Provider(e)
    }
}

impl vstd::std_specs::convert::FromSpecImpl<ProviderError> for RunxError {
    open spec fn obeys_from_spec() -> bool {
        true
    }

    open spec fn from_spec(e: ProviderError) -> RunxError {
        RunxError::Provider(e)
    }
}

impl From<CacheError> for RunxError {
    fn from(e: CacheError) -> (r: RunxError) {
        RunxError::Cache(e)
    }
}

impl vstd::std_specs::convert::FromSpecImpl<CacheError> for RunxError {
    open spec fn obeys_from_spec() -> bool {
        true
    }

    open spec fn from_spec(e: CacheError) -> RunxError {
        RunxError::Cache(e)
    }
}

impl From<DownloadError> for RunxError {
    fn from(e: DownloadError) -> (r: RunxError) {
        RunxError::Download(e)
    }
}

impl vstd::std_specs::convert::FromSpecImpl<DownloadError> for RunxError {
    open spec fn obeys_from_spec() -> bool {
        true
    }

    open spec fn from_spec(e: DownloadError) -> RunxError {
        RunxError::Download(e)
    }
}

impl From<EnvironmentError> for RunxError {
    fn from(e: EnvironmentError) -> (r: RunxError) {
        RunxError::Environment(e)
    }
}

impl vstd::std_specs::convert::FromSpecImpl<EnvironmentError> for RunxError {
    open spec fn obeys_from_spec() -> bool {
        true
    }

    open spec fn from_spec(e: EnvironmentError) -> RunxError {
        RunxError::Environment(e)
    }
}

impl From<ExecutorError> for RunxError {
    fn from(e: ExecutorError) -> (r: RunxError) {
        RunxError::Executor(e)
    }
}

impl vstd::std_specs::convert::FromSpecImpl<ExecutorError> for RunxError {
    open spec fn obeys_from_spec() -> bool {
        true
    }

    open spec fn from_spec(e: ExecutorError) -> RunxError {
        RunxError::Executor(e)
    }
}

impl From<ConfigError> for RunxError {
    fn from(e: ConfigError) -> (r: RunxError) {
        RunxError::Config(e)
    }
}

impl vstd::std_specs::convert::FromSpecImpl<ConfigError> for RunxError {
    open spec fn obeys_from_spec() -> bool {
        true
    }

    open spec fn from_spec(e: ConfigError) -> RunxError {
        RunxError::Config(e)
    }
}

} // verus!
