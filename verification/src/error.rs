//! Errors with a stable code, the phase that failed and a message.

use vstd::prelude::*;

verus! {

/// The stable error codes.
#[derive(Debug, Clone, Copy, PartialEq, Eq, Structural)]
#[non_exhaustive]
pub enum ErrorCode {
    BoardNotFound,
    BoardBusy,
    SerialOpenFailed,
    SerialDisconnected,
    PowerBackendFailed,
    PowerIdentityMismatch,
    PowerStateUnverified,
    StateTimeout,
    UbootPromptNotFound,
    LinuxLoginFailed,
    ShellNotSynchronized,
    CommandDenied,
    ConfirmationRequired,
    CommandTimeout,
    CommandExitNonzero,
    OutputTruncated,
    RecoveryFailed,
    OperationCancelled,
    InvalidConfiguration,
}

impl ErrorCode {
    /// The published name of the code.
    pub open spec fn name(self) -> Seq<char> {
        match self {
            ErrorCode::BoardNotFound => "BOARD_NOT_FOUND"@,
            ErrorCode::BoardBusy => "BOARD_BUSY"@,
            ErrorCode::SerialOpenFailed => "SERIAL_OPEN_FAILED"@,
            ErrorCode::SerialDisconnected => "SERIAL_DISCONNECTED"@,
            ErrorCode::PowerBackendFailed => "POWER_BACKEND_FAILED"@,
            ErrorCode::PowerIdentityMismatch => "POWER_IDENTITY_MISMATCH"@,
            ErrorCode::PowerStateUnverified => "POWER_STATE_UNVERIFIED"@,
            ErrorCode::StateTimeout => "STATE_TIMEOUT"@,
            ErrorCode::UbootPromptNotFound => "UBOOT_PROMPT_NOT_FOUND"@,
            ErrorCode::LinuxLoginFailed => "LINUX_LOGIN_FAILED"@,
            ErrorCode::ShellNotSynchronized => "SHELL_NOT_SYNCHRONIZED"@,
            ErrorCode::CommandDenied => "COMMAND_DENIED"@,
            ErrorCode::ConfirmationRequired => "CONFIRMATION_REQUIRED"@,
            ErrorCode::CommandTimeout => "COMMAND_TIMEOUT"@,
            ErrorCode::CommandExitNonzero => "COMMAND_EXIT_NONZERO"@,
            ErrorCode::OutputTruncated => "OUTPUT_TRUNCATED"@,
            ErrorCode::RecoveryFailed => "RECOVERY_FAILED"@,
            ErrorCode::OperationCancelled => "OPERATION_CANCELLED"@,
            ErrorCode::InvalidConfiguration => "INVALID_CONFIGURATION"@,
        }
    }

    /// The published name of the code.
    pub fn as_str(self) -> (name: &'static str)
        ensures
            name@ == self.name(),
    {
        match self {
            ErrorCode::BoardNotFound => "BOARD_NOT_FOUND",
            ErrorCode::BoardBusy => "BOARD_BUSY",
            ErrorCode::SerialOpenFailed => "SERIAL_OPEN_FAILED",
            ErrorCode::SerialDisconnected => "SERIAL_DISCONNECTED",
            ErrorCode::PowerBackendFailed => "POWER_BACKEND_FAILED",
            ErrorCode::PowerIdentityMismatch => "POWER_IDENTITY_MISMATCH",
            ErrorCode::PowerStateUnverified => "POWER_STATE_UNVERIFIED",
            ErrorCode::StateTimeout => "STATE_TIMEOUT",
            ErrorCode::UbootPromptNotFound => "UBOOT_PROMPT_NOT_FOUND",
            ErrorCode::LinuxLoginFailed => "LINUX_LOGIN_FAILED",
            ErrorCode::ShellNotSynchronized => "SHELL_NOT_SYNCHRONIZED",
            ErrorCode::CommandDenied => "COMMAND_DENIED",
            ErrorCode::ConfirmationRequired => "CONFIRMATION_REQUIRED",
            ErrorCode::CommandTimeout => "COMMAND_TIMEOUT",
            ErrorCode::CommandExitNonzero => "COMMAND_EXIT_NONZERO",
            ErrorCode::OutputTruncated => "OUTPUT_TRUNCATED",
            ErrorCode::RecoveryFailed => "RECOVERY_FAILED",
            ErrorCode::OperationCancelled => "OPERATION_CANCELLED",
            ErrorCode::InvalidConfiguration => "INVALID_CONFIGURATION",
        }
    }
}

/// What an error says.
pub struct ErrorView {
    pub code: ErrorCode,
    pub phase: Seq<char>,
    pub message: Seq<char>,
    pub recovery: Option<Seq<char>>,
}

/// An error without recovery guidance.
pub open spec fn fault(code: ErrorCode, phase: Seq<char>, message: Seq<char>) -> ErrorView {
    ErrorView { code, phase, message, recovery: None }
}

impl ErrorView {
    /// The line that stands for the error: code, phase and message.
    pub open spec fn line(self) -> Seq<char> {
        self.code.name() + " during "@ + self.phase + ": "@ + self.message
    }
}

/// An error: its code, the phase that failed, a message and recovery guidance, if any.
#[derive(Debug, PartialEq, Eq)]
pub struct Error {
    pub code: ErrorCode,
    pub phase: &'static str,
    pub message: String,
    pub recovery: Option<String>,
}

impl View for Error {
    type V = ErrorView;

    open spec fn view(&self) -> ErrorView {
        ErrorView {
            code: self.code,
            phase: self.phase@,
            message: self.message@,
            recovery: match self.recovery {
                Some(text) => Some(text@),
                None => None,
            },
        }
    }
}

impl Clone for Error {
    fn clone(&self) -> (copy: Self)
        ensures
            copy@ == self@,
    {
        Error {
            code: self.code,
            phase: self.phase,
            message: self.message.clone(),
            recovery: match &self.recovery {
                Some(text) => Some(text.clone()),
                None => None,
            },
        }
    }
}

impl Error {
    /// An error without recovery guidance.
    pub fn new(code: ErrorCode, phase: &'static str, message: String) -> (error: Self)
        ensures
            error@ == fault(code, phase@, message@),
    {
        Error { code, phase, message, recovery: None }
    }

    /// The line that stands for the error: code, phase and message.
    pub fn describe(&self) -> (line: String)
        ensures
            line@ == self@.line(),
    {
        let mut line = self.code.as_str().to_owned();
        line.append(" during ");
        line.append(self.phase);
        line.append(": ");
        line.append(self.message.as_str());
        line
    }
}

/// The length and the first character of a code's name.
spec fn signature(code: ErrorCode) -> (int, char) {
    match code {
        ErrorCode::BoardNotFound => (15, 'B'),
        ErrorCode::BoardBusy => (10, 'B'),
        ErrorCode::SerialOpenFailed => (18, 'S'),
        ErrorCode::SerialDisconnected => (19, 'S'),
        ErrorCode::PowerBackendFailed => (20, 'P'),
        ErrorCode::PowerIdentityMismatch => (23, 'P'),
        ErrorCode::PowerStateUnverified => (22, 'P'),
        ErrorCode::StateTimeout => (13, 'S'),
        ErrorCode::UbootPromptNotFound => (22, 'U'),
        ErrorCode::LinuxLoginFailed => (18, 'L'),
        ErrorCode::ShellNotSynchronized => (22, 'S'),
        ErrorCode::CommandDenied => (14, 'C'),
        ErrorCode::ConfirmationRequired => (21, 'C'),
        ErrorCode::CommandTimeout => (15, 'C'),
        ErrorCode::CommandExitNonzero => (20, 'C'),
        ErrorCode::OutputTruncated => (16, 'O'),
        ErrorCode::RecoveryFailed => (15, 'R'),
        ErrorCode::OperationCancelled => (19, 'O'),
        ErrorCode::InvalidConfiguration => (21, 'I'),
    }
}

proof fn name_has_signature(code: ErrorCode)
    ensures
        (code.name().len() as int, code.name()[0]) == signature(code),
{
    reveal_strlit("BOARD_NOT_FOUND");
    reveal_strlit("BOARD_BUSY");
    reveal_strlit("SERIAL_OPEN_FAILED");
    reveal_strlit("SERIAL_DISCONNECTED");
    reveal_strlit("POWER_BACKEND_FAILED");
    reveal_strlit("POWER_IDENTITY_MISMATCH");
    reveal_strlit("POWER_STATE_UNVERIFIED");
    reveal_strlit("STATE_TIMEOUT");
    reveal_strlit("UBOOT_PROMPT_NOT_FOUND");
    reveal_strlit("LINUX_LOGIN_FAILED");
    reveal_strlit("SHELL_NOT_SYNCHRONIZED");
    reveal_strlit("COMMAND_DENIED");
    reveal_strlit("CONFIRMATION_REQUIRED");
    reveal_strlit("COMMAND_TIMEOUT");
    reveal_strlit("COMMAND_EXIT_NONZERO");
    reveal_strlit("OUTPUT_TRUNCATED");
    reveal_strlit("RECOVERY_FAILED");
    reveal_strlit("OPERATION_CANCELLED");
    reveal_strlit("INVALID_CONFIGURATION");
}

/// Different codes have different published names.
pub proof fn code_names_are_distinct(a: ErrorCode, b: ErrorCode)
    requires
        a.name() == b.name(),
    ensures
        a == b,
{
    name_has_signature(a);
    name_has_signature(b);
}

} // verus!
