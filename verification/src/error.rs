use vstd::prelude::*;

verus! {

/// What can go wrong in the control plane.
#[derive(Debug, PartialEq, Eq)]
pub enum Error {
    /// The control connection could not be made or was lost.
    Connect(String),
    /// The supervised process refused the authentication; holds its reply.
    Auth(String),
    /// The supervised process answered a command with an error line.
    ControlProtocol(String),
    /// No control cookie was found; names the sources that were tried.
    CookieNotFound(String),
    /// The supervised process ended before it was ready; holds its exit code.
    ProcessExited(Option<i32>),
    /// The request lacks the credential that the endpoint demands.
    RequestForbidden,
    /// The peer sent more requests than the limits allow.
    RateLimited,
    /// The exit address could not be learned.
    Probe,
}

/// The mathematical content of an [`Error`].
pub enum ErrorView {
    Connect(Seq<char>),
    Auth(Seq<char>),
    ControlProtocol(Seq<char>),
    CookieNotFound(Seq<char>),
    ProcessExited(Option<i32>),
    RequestForbidden,
    RateLimited,
    Probe,
}

impl View for Error {
    type V = ErrorView;

    open spec fn view(&self) -> ErrorView {
        match self {
            Error::Connect(s) => ErrorView::Connect(s@),
            Error::Auth(s) => ErrorView::Auth(s@),
            Error::ControlProtocol(s) => ErrorView::ControlProtocol(s@),
            Error::CookieNotFound(s) => ErrorView::CookieNotFound(s@),
            Error::ProcessExited(c) => ErrorView::ProcessExited(*c),
            Error::RequestForbidden => ErrorView::RequestForbidden,
            Error::RateLimited => ErrorView::RateLimited,
            Error::Probe => ErrorView::Probe,
        }
    }
}

} // verus!
