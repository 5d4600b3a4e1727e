//! The single error type for the engine.

use vstd::prelude::*;

use crate::text::{decimal, push_decimal};

verus! {

/// Everything that can go wrong while serving one request.
#[derive(Debug)]
pub enum Error {
    Backend(String),
    Timeout,
    Quorum { got: usize, needed: usize },
    Synthesis(String),
    UnknownProfile(String),
    InvalidModel(String),
    Config(String),
}

/// The mathematical value of an [`Error`].
pub enum ErrorView {
    Backend(Seq<char>),
    Timeout,
    Quorum { got: nat, needed: nat },
    Synthesis(Seq<char>),
    UnknownProfile(Seq<char>),
    InvalidModel(Seq<char>),
    Config(Seq<char>),
}

impl View for Error {
    type V = ErrorView;

    open spec fn view(&self) -> ErrorView {
        match self {
            Error::Backend(s) => ErrorView::Backend(s@),
            Error::Timeout => ErrorView::Timeout,
            Error::Quorum { got, needed } => ErrorView::Quorum {
                got: *got as nat,
                needed: *needed as nat,
            },
            Error::Synthesis(s) => ErrorView::Synthesis(s@),
            Error::UnknownProfile(s) => ErrorView::UnknownProfile(s@),
            Error::InvalidModel(s) => ErrorView::InvalidModel(s@),
            Error::Config(s) => ErrorView::Config(s@),
        }
    }
}

/// The human-readable rendering of an error.
pub open spec fn error_message(e: ErrorView) -> Seq<char> {
    match e {
        ErrorView::Backend(s) => "backend request failed: "@ + s,
        ErrorView::Timeout => "backend timed out"@,
        ErrorView::Quorum { got, needed } => "quorum not met: "@ + decimal(got) + " of "@ + decimal(
            needed,
        ) + " panel members returned"@,
        ErrorView::Synthesis(s) => "synthesis failed: "@ + s,
        ErrorView::UnknownProfile(s) => "unknown profile: "@ + s,
        ErrorView::InvalidModel(s) => "invalid model alias: "@ + s,
        ErrorView::Config(s) => "config error: "@ + s,
    }
}

impl Clone for Error {
    fn clone(&self) -> (r: Self)
        ensures
            r == *self,
    {
        match self {
            Error::Backend(s) => Error::Backend(s.clone()),
            Error::Timeout => Error::Timeout,
            Error::Quorum { got, needed } => Error::Quorum { got: *got, needed: *needed },
            Error::Synthesis(s) => Error::Synthesis(s.clone()),
            Error::UnknownProfile(s) => Error::UnknownProfile(s.clone()),
            Error::InvalidModel(s) => Error::InvalidModel(s.clone()),
            Error::Config(s) => Error::Config(s.clone()),
        }
    }
}

impl Error {
    /// The human-readable message of this error, as it is shown to clients.
    pub fn message(&self) -> (m: String)
        ensures
            m@ == error_message(self@),
    {
        let mut m = String::new();
        match self {
            Error::Backend(s) => {
                m.append("backend request failed: ");
                m.append(s.as_str());
            },
            Error::Timeout => {
                m.append("backend timed out");
            },
            Error::Quorum { got, needed } => {
                m.append("quorum not met: ");
                push_decimal(&mut m, *got as u64);
                m.append(" of ");
                push_decimal(&mut m, *needed as u64);
                m.append(" panel members returned");
            },
            Error::Synthesis(s) => {
                m.append("synthesis failed: ");
                m.append(s.as_str());
            },
            Error::UnknownProfile(s) => {
                m.append("unknown profile: ");
                m.append(s.as_str());
            },
            Error::InvalidModel(s) => {
                m.append("invalid model alias: ");
                m.append(s.as_str());
            },
            Error::Config(s) => {
                m.append("config error: ");
                m.append(s.as_str());
            },
        }
        proof {
            assert(m@ =~= error_message(self@));
        }
        m
    }
}

} // verus!
