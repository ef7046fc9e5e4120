//! The error type of the crate.

use vstd::prelude::*;

verus! {

/// Errors that can occur anywhere in the crate.
#[derive(Debug)]
pub enum Error {
    /// The client could not be set up.
    Initialization(String),
    /// A value was refused.
    Validation { kind: &'static str, reason: String },
    /// A value could not be turned into JSON, or JSON into a value.
    Serialization(String),
    /// A request could not be sent, or its response not be received.
    Transport(String),
    /// A request body could not be compressed.
    Compression(String),
    /// A server address could not be used.
    InvalidServerUrl { env_var: &'static str, reason: String },
}

/// What an [`Error`] says.
pub enum ErrorView {
    Initialization(Seq<char>),
    Validation { kind: Seq<char>, reason: Seq<char> },
    Serialization(Seq<char>),
    Transport(Seq<char>),
    Compression(Seq<char>),
    InvalidServerUrl { env_var: Seq<char>, reason: Seq<char> },
}

impl View for Error {
    type V = ErrorView;

    open spec fn view(&self) -> ErrorView {
        match *self {
            Error::Initialization(reason) => ErrorView::Initialization(reason@),
            Error::Validation { kind, reason } => ErrorView::Validation {
                kind: kind@,
                reason: reason@,
            },
            Error::Serialization(reason) => ErrorView::Serialization(reason@),
            Error::Transport(reason) => ErrorView::Transport(reason@),
            Error::Compression(reason) => ErrorView::Compression(reason@),
            Error::InvalidServerUrl { env_var, reason } => ErrorView::InvalidServerUrl {
                env_var: env_var@,
                reason: reason@,
            },
        }
    }
}

/// The error that a value of the given kind is refused with.
pub open spec fn refused(kind: Seq<char>, reason: Seq<char>) -> ErrorView {
    ErrorView::Validation { kind, reason }
}

/// The line that describes an error to a reader.
pub open spec fn error_text(error: ErrorView) -> Seq<char> {
    match error {
        ErrorView::Initialization(reason) => "error in initialization: "@ + reason,
        ErrorView::Validation { kind, reason } => "invalid "@ + kind + ": "@ + reason,
        ErrorView::Serialization(reason) => "serialization error: "@ + reason,
        ErrorView::Transport(reason) => "transport error: "@ + reason,
        ErrorView::Compression(reason) => "compression error: "@ + reason,
        ErrorView::InvalidServerUrl { env_var, reason } => "invalid server url in "@ + env_var
            + ": "@ + reason,
    }
}

impl Error {
    /// Builds an [`Error::Validation`] error.
    pub fn validation(kind: &'static str, reason: &str) -> (error: Self)
        ensures
            error@ == refused(kind@, reason@),
    {
        Error::Validation { kind, reason: reason.to_owned() }
    }

    /// The line that describes the error to a reader.
    pub fn message(&self) -> (s: String)
        ensures
            s@ == error_text(self@),
    {
        let mut s = String::new();
        match self {
            Error::Initialization(reason) => {
                s.append("error in initialization: ");
                s.append(reason.as_str());
            },
            Error::Validation { kind, reason } => {
                s.append("invalid ");
                s.append(kind);
                s.append(": ");
                s.append(reason.as_str());
            },
            Error::Serialization(reason) => {
                s.append("serialization error: ");
                s.append(reason.as_str());
            },
            Error::Transport(reason) => {
                s.append("transport error: ");
                s.append(reason.as_str());
            },
            Error::Compression(reason) => {
                s.append("compression error: ");
                s.append(reason.as_str());
            },
            Error::InvalidServerUrl { env_var, reason } => {
                s.append("invalid server url in ");
                s.append(env_var);
                s.append(": ");
                s.append(reason.as_str());
            },
        }
        assert(s@ =~= error_text(self@));
        s
    }
}

} // verus!
