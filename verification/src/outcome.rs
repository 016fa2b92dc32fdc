//! How a login attempt ends.

use crate::text::copy_text;
use vstd::prelude::*;
use vstd::string::StringExecFns;

verus! {

/// What kind of trouble the transport met.
#[derive(Clone, Copy, Debug, PartialEq, Eq, Structural)]
pub enum TransportKind {
    Unreachable,
    Refused,
    Timeout,
    Other,
}

/// A failure of the transport, with the transport's own words.
#[derive(Debug, Clone, PartialEq, Eq)]
pub struct TransportError {
    pub kind: TransportKind,
    pub detail: String,
}

/// A `TransportError` as plain values.
pub struct TransportErrorView {
    pub kind: TransportKind,
    pub detail: Seq<char>,
}

impl View for TransportError {
    type V = TransportErrorView;

    open spec fn view(&self) -> TransportErrorView {
        TransportErrorView { kind: self.kind, detail: self.detail@ }
    }
}

impl TransportError {
    /// A copy of this error.
    pub fn duplicate(&self) -> (r: TransportError)
        ensures
            r@ == self@,
    {
        TransportError { kind: self.kind, detail: self.detail.clone() }
    }
}

/// A failure on this side of the wire: the transport failed, the server
/// answered what cannot be read, or the attempt could not be made as asked.
#[derive(Debug, Clone, PartialEq, Eq)]
pub enum Failure {
    Transport(TransportError),
    MalformedResponse,
    Precondition,
}

/// A `Failure` as plain values.
pub enum FailureView {
    Transport(TransportErrorView),
    MalformedResponse,
    Precondition,
}

impl View for Failure {
    type V = FailureView;

    open spec fn view(&self) -> FailureView {
        match self {
            Failure::Transport(e) => FailureView::Transport(e@),
            Failure::MalformedResponse => FailureView::MalformedResponse,
            Failure::Precondition => FailureView::Precondition,
        }
    }
}

impl Failure {
    /// A copy of this failure.
    pub fn duplicate(&self) -> (r: Failure)
        ensures
            r@ == self@,
    {
        match self {
            Failure::Transport(e) => Failure::Transport(e.duplicate()),
            Failure::MalformedResponse => Failure::MalformedResponse,
            Failure::Precondition => Failure::Precondition,
        }
    }
}

/// Why a login was turned down: the server said so, with its code and
/// message as it sent them, or the server logged in another address than
/// the one asked for.
#[derive(Debug, Clone, PartialEq, Eq)]
pub enum Rejection {
    Server { code: Option<String>, message: Option<String> },
    IpMismatch { requested: String, reported: String },
}

/// A `Rejection` as plain values.
pub enum RejectionView {
    Server { code: Option<Seq<char>>, message: Option<Seq<char>> },
    IpMismatch { requested: Seq<char>, reported: Seq<char> },
}

impl View for Rejection {
    type V = RejectionView;

    open spec fn view(&self) -> RejectionView {
        match self {
            Rejection::Server { code, message } => RejectionView::Server {
                code: code.deep_view(),
                message: message.deep_view(),
            },
            Rejection::IpMismatch { requested, reported } => RejectionView::IpMismatch {
                requested: requested@,
                reported: reported@,
            },
        }
    }
}

impl Rejection {
    /// A copy of this rejection.
    pub fn duplicate(&self) -> (r: Rejection)
        ensures
            r@ == self@,
    {
        match self {
            Rejection::Server { code, message } => Rejection::Server {
                code: copy_text(code),
                message: copy_text(message),
            },
            Rejection::IpMismatch { requested, reported } => Rejection::IpMismatch {
                requested: requested.clone(),
                reported: reported.clone(),
            },
        }
    }
}

/// The end of a login attempt.
#[derive(Debug, Clone, PartialEq, Eq)]
pub enum LoginResult {
    Success,
    Rejected(Rejection),
    Failed(Failure),
}

/// A `LoginResult` as plain values.
pub enum LoginResultView {
    Success,
    Rejected(RejectionView),
    Failed(FailureView),
}

impl View for LoginResult {
    type V = LoginResultView;

    open spec fn view(&self) -> LoginResultView {
        match self {
            LoginResult::Success => LoginResultView::Success,
            LoginResult::Rejected(r) => LoginResultView::Rejected(r@),
            LoginResult::Failed(f) => LoginResultView::Failed(f@),
        }
    }
}

impl LoginResult {
    /// A copy of this result.
    pub fn duplicate(&self) -> (r: LoginResult)
        ensures
            r@ == self@,
    {
        match self {
            LoginResult::Success => LoginResult::Success,
            LoginResult::Rejected(r) => LoginResult::Rejected(r.duplicate()),
            LoginResult::Failed(f) => LoginResult::Failed(f.duplicate()),
        }
    }

    /// Whether the login went through.
    pub fn is_success(&self) -> (r: bool)
        ensures
            r == (self@ is Success),
    {
        match self {
            LoginResult::Success => true,
            _ => false,
        }
    }
}


/// The words for a kind of transport trouble.
pub open spec fn kind_words(kind: TransportKind) -> Seq<char> {
    match kind {
        TransportKind::Unreachable => "network unreachable"@,
        TransportKind::Refused => "connection refused"@,
        TransportKind::Timeout => "timed out"@,
        TransportKind::Other => "transport error"@,
    }
}

/// A result in words, for whoever has to show it: the server's code and
/// message as they came, the two addresses of a mismatch, the transport's own
/// words behind the kind of its failure.
pub open spec fn described(result: LoginResultView) -> Seq<char> {
    match result {
        LoginResultView::Success => "login succeeded"@,
        LoginResultView::Rejected(RejectionView::Server { code: Some(c), message: Some(m) }) => c
            + ": "@ + m,
        LoginResultView::Rejected(RejectionView::Server { code: Some(c), message: None }) => c,
        LoginResultView::Rejected(RejectionView::Server { code: None, message: Some(m) }) => m,
        LoginResultView::Rejected(RejectionView::Server { code: None, message: None }) =>
            "login rejected"@,
        LoginResultView::Rejected(RejectionView::IpMismatch { requested, reported }) =>
            "address mismatch: asked for "@ + requested + ", server reports "@ + reported,
        LoginResultView::Failed(FailureView::Transport(e)) => kind_words(e.kind) + ": "@
            + e.detail,
        LoginResultView::Failed(FailureView::MalformedResponse) => "malformed server response"@,
        LoginResultView::Failed(FailureView::Precondition) =>
            "the login cannot be attempted as asked"@,
    }
}

impl LoginResult {
    /// This result in words.
    pub fn describe(&self) -> (words: String)
        ensures
            words@ == described(self@),
    {
        match self {
            LoginResult::Success => "login succeeded".to_owned(),
            LoginResult::Rejected(Rejection::Server { code, message }) => match (code, message) {
                (Some(c), Some(m)) => {
                    let mut words = c.clone();
                    words.append(": ");
                    words.append(m.as_str());
                    words
                },
                (Some(c), None) => c.clone(),
                (None, Some(m)) => m.clone(),
                (None, None) => "login rejected".to_owned(),
            },
            LoginResult::Rejected(Rejection::IpMismatch { requested, reported }) => {
                let mut words = "address mismatch: asked for ".to_owned();
                words.append(requested.as_str());
                words.append(", server reports ");
                words.append(reported.as_str());
                words
            },
            LoginResult::Failed(Failure::Transport(e)) => {
                let mut words = match e.kind {
                    TransportKind::Unreachable => "network unreachable".to_owned(),
                    TransportKind::Refused => "connection refused".to_owned(),
                    TransportKind::Timeout => "timed out".to_owned(),
                    TransportKind::Other => "transport error".to_owned(),
                };
                words.append(": ");
                words.append(e.detail.as_str());
                words
            },
            LoginResult::Failed(Failure::MalformedResponse) => "malformed server response".to_owned(),
            LoginResult::Failed(Failure::Precondition) =>
                "the login cannot be attempted as asked".to_owned(),
        }
    }
}

} // verus!
