//! What a transport reports where it fails, and what it hands on where it
//! does not.
use vstd::prelude::*;

verus! {

/// Why a call failed.
#[derive(Clone, Debug, PartialEq, Eq)]
pub enum TransportError {
    /// What was asked cannot be done, however often it is asked.
    Permanent(String),
    /// The far end answered what its protocol does not allow.
    Protocol(String),
    /// The connection, or the far end, failed as told here.
    Reported { message: String, retryable: bool },
}

/// A failure, in characters.
pub enum ErrorView {
    Permanent(Seq<char>),
    Protocol(Seq<char>),
    Reported { message: Seq<char>, retryable: bool },
}

impl View for TransportError {
    type V = ErrorView;

    open spec fn view(&self) -> ErrorView {
        match self {
            TransportError::Permanent(message) => ErrorView::Permanent(message@),
            TransportError::Protocol(message) => ErrorView::Protocol(message@),
            TransportError::Reported { message, retryable } => ErrorView::Reported {
                message: message@,
                retryable: *retryable,
            },
        }
    }
}

impl ErrorView {
    pub open spec fn message(self) -> Seq<char> {
        match self {
            ErrorView::Permanent(message) => message,
            ErrorView::Protocol(message) => message,
            ErrorView::Reported { message, .. } => message,
        }
    }

    pub open spec fn retryable(self) -> Option<bool> {
        match self {
            ErrorView::Permanent(_) => Some(false),
            ErrorView::Protocol(_) => None,
            ErrorView::Reported { retryable, .. } => Some(retryable),
        }
    }
}

impl TransportError {
    /// What went wrong, in words.
    pub fn message(&self) -> (message: &str)
        ensures
            message@ == self@.message(),
    {
        match self {
            TransportError::Permanent(message) => message.as_str(),
            TransportError::Protocol(message) => message.as_str(),
            TransportError::Reported { message, .. } => message.as_str(),
        }
    }

    /// Whether asking again may help; `None` where the far end broke its
    /// protocol, which is for whoever carries the protocol to judge.
    pub fn retryable(&self) -> (retryable: Option<bool>)
        ensures
            retryable == self@.retryable(),
    {
        match self {
            TransportError::Permanent(_) => Some(false),
            TransportError::Protocol(_) => None,
            TransportError::Reported { retryable, .. } => Some(*retryable),
        }
    }
}

/// A Stream as it arrived: its bytes, and where they came from.
#[derive(Clone, Debug, PartialEq, Eq)]
pub struct Arrived {
    pub origin_uri: String,
    pub bytes: Vec<u8>,
}

pub struct ArrivedView {
    pub origin_uri: Seq<char>,
    pub bytes: Seq<u8>,
}

impl View for Arrived {
    type V = ArrivedView;

    open spec fn view(&self) -> ArrivedView {
        ArrivedView { origin_uri: self.origin_uri@, bytes: self.bytes@ }
    }
}

impl Arrived {
    pub fn new(origin_uri: String, bytes: Vec<u8>) -> (arrived: Arrived)
        ensures
            arrived.origin_uri == origin_uri,
            arrived.bytes == bytes,
    {
        Arrived { origin_uri, bytes }
    }
}

} // verus!
