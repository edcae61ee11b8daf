//! The failure kinds that cross component boundaries.

use vstd::prelude::*;

verus! {

/// The mathematical shape of an `RpmError`.
pub ghost enum RpmErrorV {
    Io(Seq<char>),
    Serde(Seq<char>),
    Process(Seq<char>),
    Daemon(Seq<char>),
    Ipc(Seq<char>),
    Config(Seq<char>),
    ProcessNotFound(Seq<char>),
}

/// Uniform error taxonomy of the supervisor. Every failure that crosses a
/// component boundary is one of these kinds; the payload is a human-readable
/// message (for the kinds that wrap an underlying failure) or the looked-up
/// name (for `ProcessNotFound`).
#[derive(Debug, Clone, PartialEq, Eq)]
pub enum RpmError {
    /// An underlying read, write or open failed.
    Io(String),
    /// Malformed persisted state or a malformed IPC frame.
    Serde(String),
    /// A spawn or signalling operation failed.
    Process(String),
    /// Harness setup failed.
    Daemon(String),
    /// Transport bind, connect, or a protocol violation.
    Ipc(String),
    /// Malformed persisted config or bad user-supplied settings.
    Config(String),
    /// A looked-up process name is absent from the roster.
    ProcessNotFound(String),
}

impl View for RpmError {
    type V = RpmErrorV;

    open spec fn view(&self) -> RpmErrorV {
        match self {
            RpmError::Io(m) => RpmErrorV::Io(m@),
            RpmError::Serde(m) => RpmErrorV::Serde(m@),
            RpmError::Process(m) => RpmErrorV::Process(m@),
            RpmError::Daemon(m) => RpmErrorV::Daemon(m@),
            RpmError::Ipc(m) => RpmErrorV::Ipc(m@),
            RpmError::Config(m) => RpmErrorV::Config(m@),
            RpmError::ProcessNotFound(m) => RpmErrorV::ProcessNotFound(m@),
        }
    }
}

/// The message text of an error, as the error taxonomy words it.
pub open spec fn spec_error_message(e: RpmErrorV) -> Seq<char> {
    match e {
        RpmErrorV::Io(m) => "IO error: "@ + m,
        RpmErrorV::Serde(m) => "Serialization error: "@ + m,
        RpmErrorV::Process(m) => "Process error: "@ + m,
        RpmErrorV::Daemon(m) => "Daemon error: "@ + m,
        RpmErrorV::Ipc(m) => "IPC error: "@ + m,
        RpmErrorV::Config(m) => "Configuration error: "@ + m,
        RpmErrorV::ProcessNotFound(m) => "Process not found: "@ + m,
    }
}

impl RpmError {
    /// The human-readable rendering of this error.
    pub fn message(&self) -> (r: String)
        ensures
            r@ == spec_error_message(self@),
    {
        match self {
            RpmError::Io(m) => crate::text::concat2("IO error: ", m.as_str()),
            RpmError::Serde(m) => crate::text::concat2("Serialization error: ", m.as_str()),
            RpmError::Process(m) => crate::text::concat2("Process error: ", m.as_str()),
            RpmError::Daemon(m) => crate::text::concat2("Daemon error: ", m.as_str()),
            RpmError::Ipc(m) => crate::text::concat2("IPC error: ", m.as_str()),
            RpmError::Config(m) => crate::text::concat2("Configuration error: ", m.as_str()),
            RpmError::ProcessNotFound(m) => crate::text::concat2(
                "Process not found: ",
                m.as_str(),
            ),
        }
    }
}

} // verus!
