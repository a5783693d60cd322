//! Failures to read.
use vstd::prelude::*;

verus! {

/// Why bytes could not be read.
#[derive(Debug)]
pub enum IoError {
    /// The bytes end before what was to be read.
    UnexpectedEof,
    /// Anything else, in words.
    Other(String),
}

/// The model of [`IoError`].
pub enum IoErrorView {
    UnexpectedEof,
    Other(Seq<char>),
}

impl View for IoError {
    type V = IoErrorView;

    open spec fn view(&self) -> IoErrorView {
        match self {
            IoError::UnexpectedEof => IoErrorView::UnexpectedEof,
            IoError::Other(message) => IoErrorView::Other(message@),
        }
    }
}

impl IoErrorView {
    /// What the error says.
    pub open spec fn message(self) -> Seq<char> {
        match self {
            IoErrorView::UnexpectedEof => "failed to fill whole buffer"@,
            IoErrorView::Other(message) => message,
        }
    }
}

impl IoError {
    /// What the error says.
    pub fn message(&self) -> (text: String)
        ensures
            text@ == self@.message(),
    {
        match self {
            IoError::UnexpectedEof => "failed to fill whole buffer".to_owned(),
            IoError::Other(message) => message.clone(),
        }
    }
}

} // verus!
