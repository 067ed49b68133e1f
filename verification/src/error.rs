//! Error kinds of the tool and the process exit code that each one leads to.

use vstd::prelude::*;
use vstd::string::*;

verus! {

/// The process exit codes of the tool.
#[derive(Debug, Clone, Copy, PartialEq, Eq, Structural)]
pub enum ExitCode {
    Success,
    CliError,
    NetworkError,
    ProtocolError,
    ExecutionError,
}

/// The number that the process exits with for each code.
pub open spec fn exit_code_number(code: ExitCode) -> i32 {
    match code {
        ExitCode::Success => 0,
        ExitCode::CliError => 1,
        ExitCode::NetworkError => 2,
        ExitCode::ProtocolError => 3,
        ExitCode::ExecutionError => 4,
    }
}

impl ExitCode {
    /// The number that the process exits with.
    pub fn as_i32(self) -> (r: i32)
        ensures
            r == exit_code_number(self),
    {
        match self {
            ExitCode::Success => 0,
            ExitCode::CliError => 1,
            ExitCode::NetworkError => 2,
            ExitCode::ProtocolError => 3,
            ExitCode::ExecutionError => 4,
        }
    }
}

/// A failure of the tool, by the stage at which it happened, with its message.
#[derive(Debug, Clone)]
pub enum AppError {
    Cli(String),
    Network(String),
    Protocol(String),
    Execution(String),
}

/// The kind of a failure, without its message.
#[derive(Debug, Clone, Copy, PartialEq, Eq, Structural)]
pub enum ErrorKind {
    Cli,
    Network,
    Protocol,
    Execution,
}

/// The kind of an error.
pub open spec fn kind_of(e: AppError) -> ErrorKind {
    match e {
        AppError::Cli(_) => ErrorKind::Cli,
        AppError::Network(_) => ErrorKind::Network,
        AppError::Protocol(_) => ErrorKind::Protocol,
        AppError::Execution(_) => ErrorKind::Execution,
    }
}

/// The message of an error.
pub open spec fn message_of(e: AppError) -> Seq<char> {
    match e {
        AppError::Cli(m) => m@,
        AppError::Network(m) => m@,
        AppError::Protocol(m) => m@,
        AppError::Execution(m) => m@,
    }
}

/// `e` is the error of kind `kind` with message `message`.
pub open spec fn is_error(e: AppError, kind: ErrorKind, message: Seq<char>) -> bool {
    kind_of(e) == kind && message_of(e) == message
}

/// The exit code that each kind of failure leads to.
pub open spec fn error_exit_code(e: AppError) -> ExitCode {
    match e {
        AppError::Cli(_) => ExitCode::CliError,
        AppError::Network(_) => ExitCode::NetworkError,
        AppError::Protocol(_) => ExitCode::ProtocolError,
        AppError::Execution(_) => ExitCode::ExecutionError,
    }
}

/// The text that an error is shown as: a label for its kind, then its message.
pub open spec fn error_text(e: AppError) -> Seq<char> {
    match e {
        AppError::Cli(m) => "CLI Error: "@ + m@,
        AppError::Network(m) => "Network Error: "@ + m@,
        AppError::Protocol(m) => "Protocol Error: "@ + m@,
        AppError::Execution(m) => "Execution Error: "@ + m@,
    }
}

impl AppError {
    /// The exit code of the process when this error ends it.
    pub fn exit_code(&self) -> (r: ExitCode)
        ensures
            r == error_exit_code(*self),
    {
        match self {
            AppError::Cli(_) => ExitCode::CliError,
            AppError::Network(_) => ExitCode::NetworkError,
            AppError::Protocol(_) => ExitCode::ProtocolError,
            AppError::Execution(_) => ExitCode::ExecutionError,
        }
    }

    /// The error of kind `kind` with message `message`.
    pub fn of_kind(kind: ErrorKind, message: String) -> (r: AppError)
        ensures
            is_error(r, kind, message@),
    {
        match kind {
            ErrorKind::Cli => AppError::Cli(message),
            ErrorKind::Network => AppError::Network(message),
            ErrorKind::Protocol => AppError::Protocol(message),
            ErrorKind::Execution => AppError::Execution(message),
        }
    }

    /// The error of kind `kind` whose message is the whole text of `inner`, as a failure
    /// reported by a lower layer is passed on.
    pub fn nested(kind: ErrorKind, inner: &AppError) -> (r: AppError)
        ensures
            is_error(r, kind, error_text(*inner)),
    {
        AppError::of_kind(kind, inner.display())
    }

    /// The error as text, as it is printed and as it is wrapped into other errors.
    pub fn display(&self) -> (r: String)
        ensures
            r@ == error_text(*self),
    {
        match self {
            AppError::Cli(m) => String::from_str("CLI Error: ").concat(m.as_str()),
            AppError::Network(m) => String::from_str("Network Error: ").concat(m.as_str()),
            AppError::Protocol(m) => String::from_str("Protocol Error: ").concat(m.as_str()),
            AppError::Execution(m) => String::from_str("Execution Error: ").concat(m.as_str()),
        }
    }
}

/// Every error ends the process with a nonzero exit code, and the four kinds of error
/// end it with four different codes.
pub proof fn lemma_errors_exit_nonzero_and_distinct(a: AppError, b: AppError)
    ensures
        exit_code_number(error_exit_code(a)) != 0,
        1 <= exit_code_number(error_exit_code(a)) <= 4,
        (exit_code_number(error_exit_code(a)) == exit_code_number(error_exit_code(b)))
            <==> (error_exit_code(a) == error_exit_code(b)),
        (error_exit_code(a) == error_exit_code(b)) <==> ((a is Cli && b is Cli) || (a is Network
            && b is Network) || (a is Protocol && b is Protocol) || (a is Execution
            && b is Execution)),
{
}

/// What went wrong in a step of the tool: an error of the tool itself, or the message of
/// an error that a library reported.
#[derive(Debug)]
pub enum Failure {
    App(AppError),
    Other(String),
}

/// The text of a failure, as it is passed on in the error that it leads to.
pub open spec fn failure_text(f: Failure) -> Seq<char> {
    match f {
        Failure::App(e) => error_text(e),
        Failure::Other(m) => m@,
    }
}

/// A failure keeps its own error where that error is a command-line error (exit 1) or a
/// network error such as a refused connection or a timeout (exit 2).
pub open spec fn keeps_own_kind(f: Failure) -> bool {
    f matches Failure::App(e) && (e is Cli || e is Network)
}

/// `e` is the error that a failure in a step whose failures are of kind `kind` ends the
/// tool with: its message is the failure's whole text, as the step wraps it; its kind is
/// the failure's own where it keeps its kind, else `kind`.
pub open spec fn is_step_error(f: Failure, kind: ErrorKind, e: AppError) -> bool {
    if keeps_own_kind(f) {
        is_error(e, kind_of(f->App_0), failure_text(f))
    } else {
        is_error(e, kind, failure_text(f))
    }
}

impl Failure {
    /// The failure's text.
    pub fn text(&self) -> (r: String)
        ensures
            r@ == failure_text(*self),
    {
        match self {
            Failure::App(e) => e.display(),
            Failure::Other(m) => m.clone(),
        }
    }
}

/// The error that a failure in a step whose failures are of kind `kind` ends the tool with.
pub fn step_failure(kind: ErrorKind, f: Failure) -> (r: AppError)
    ensures
        is_step_error(f, kind, r),
{
    let text = f.text();
    match f {
        Failure::App(AppError::Cli(_)) => AppError::Cli(text),
        Failure::App(AppError::Network(_)) => AppError::Network(text),
        _ => AppError::of_kind(kind, text),
    }
}

/// A command-line error or a network failure ends the tool with its own exit code (1 or 2)
/// whatever the step it happened in; any other failure with the code of the step's kind.
pub proof fn lemma_step_errors_keep_cli_and_network_codes(kind: ErrorKind, f: Failure, e: AppError)
    requires
        is_step_error(f, kind, e),
    ensures
        f matches Failure::App(inner) && inner is Network ==> error_exit_code(e) == ExitCode::NetworkError,
        f matches Failure::App(inner) && inner is Cli ==> error_exit_code(e) == ExitCode::CliError,
        !keeps_own_kind(f) ==> kind_of(e) == kind,
{
}

} // verus!
