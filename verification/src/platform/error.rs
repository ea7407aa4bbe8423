use vstd::prelude::*;

verus! {

/// `std::io::Error`, carried through as the source of an I/O failure.
#[verifier::external_type_specification]
#[verifier::external_body]
pub struct ExIoError(std::io::Error);

/// `rcgen::Error`, carried through as the source of a certificate failure.
#[verifier::external_type_specification]
#[verifier::external_body]
pub struct ExRcgenError(rcgen::Error);

/// An operating-system integration failure.
#[derive(Debug)]
pub enum PlatformError {
    /// A platform I/O operation failed.
    Io {
        /// The operation that failed.
        context: String,
        /// The underlying I/O failure.
        source: std::io::Error,
    },
    /// Persistent or operating-system state is internally inconsistent.
    InvalidState(String),
    /// The current operating system does not support the requested operation.
    Unsupported(String),
    /// Certificate parsing or generation failed.
    Certificate(rcgen::Error),
    /// An external platform command returned an unsuccessful status.
    CommandFailed {
        /// The executable or safe command label that failed.
        command: String,
        /// The process exit code, or `None` when it exited by signal.
        status: Option<i32>,
        /// Sanitized command output that is safe to render and log.
        output: String,
    },
    /// A platform operation exceeded its time budget.
    Timeout {
        /// The operation that timed out.
        operation: String,
        /// The elapsed timeout budget, in milliseconds.
        timeout_ms: u64,
        /// Sanitized partial output that is safe to render and log.
        output: String,
    },
}

/// A convenient result alias for platform operations.
pub type PlatformResult<T> = Result<T, PlatformError>;

} // verus!
