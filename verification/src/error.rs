//! What can go wrong while policies are fetched and read.

use vstd::prelude::*;

verus! {

/// Why a policy, its assignment or its settings could not be had.
#[derive(Debug, PartialEq, Eq)]
pub enum PolicyError {
    /// The settings of a policy were asked for before they were loaded.
    NotLoaded,
    /// The directory service answered with a status other than success.
    Status(u16),
    /// The request did not get an answer; the text is the transport's.
    Transport(String),
    /// The answer's body could not be read; the text is the decoder's.
    Malformed(String),
    /// The address of a request could not be built; the text says why.
    InvalidUrl(String),
    /// A definition came with a number of presentation values other than one.
    WrongValueCount,
    /// A definition came without a list of presentation values.
    NoValues,
    /// The answer is not one to the request that was pending.
    Unexpected,
}

/// An error as a mathematical value.
pub enum ErrorView {
    NotLoaded,
    Status(int),
    Transport(Seq<char>),
    Malformed(Seq<char>),
    /// The address of a request could not be built. The text of the message
    /// is left out: it is for the reader of a log.
    InvalidUrl,
    WrongValueCount,
    NoValues,
    Unexpected,
}

impl View for PolicyError {
    type V = ErrorView;

    open spec fn view(&self) -> ErrorView {
        match self {
            PolicyError::NotLoaded => ErrorView::NotLoaded,
            PolicyError::Status(code) => ErrorView::Status(*code as int),
            PolicyError::Transport(text) => ErrorView::Transport(text@),
            PolicyError::Malformed(text) => ErrorView::Malformed(text@),
            PolicyError::InvalidUrl(_) => ErrorView::InvalidUrl,
            PolicyError::WrongValueCount => ErrorView::WrongValueCount,
            PolicyError::NoValues => ErrorView::NoValues,
            PolicyError::Unexpected => ErrorView::Unexpected,
        }
    }
}

impl Clone for PolicyError {
    fn clone(&self) -> (r: Self)
        ensures
            r@ == self@,
    {
        match self {
            PolicyError::NotLoaded => PolicyError::NotLoaded,
            PolicyError::Status(code) => PolicyError::Status(*code),
            PolicyError::Transport(text) => PolicyError::Transport(text.clone()),
            PolicyError::Malformed(text) => PolicyError::Malformed(text.clone()),
            PolicyError::InvalidUrl(text) => PolicyError::InvalidUrl(text.clone()),
            PolicyError::WrongValueCount => PolicyError::WrongValueCount,
            PolicyError::NoValues => PolicyError::NoValues,
            PolicyError::Unexpected => PolicyError::Unexpected,
        }
    }
}

} // verus!
