//! The failures a request can end in, and how each is shown to the client.

use vstd::prelude::*;

verus! {

/// Why a request was turned down.
#[derive(Debug)]
pub enum Error {
    /// The captcha was absent, expired or already used.
    Unauthorized,
    /// The caller's input broke a stated limit; the text says which.
    BadRequest(String),
    /// Something outside the captcha store was asked for and is not there.
    /// The store itself never answers with this.
    NotFound,
    /// A server-side fault; the text is for the log, never for the client.
    InternalServer(String),
}

/// An [`Error`] with its texts as sequences of characters.
pub enum ErrorView {
    Unauthorized,
    BadRequest(Seq<char>),
    NotFound,
    InternalServer(Seq<char>),
}

impl View for Error {
    type V = ErrorView;

    open spec fn view(&self) -> ErrorView {
        match self {
            Error::Unauthorized => ErrorView::Unauthorized,
            Error::BadRequest(text) => ErrorView::BadRequest(text@),
            Error::NotFound => ErrorView::NotFound,
            Error::InternalServer(text) => ErrorView::InternalServer(text@),
        }
    }
}

/// The HTTP status that stands for a failure.
pub open spec fn status_of(error: ErrorView) -> u16 {
    match error {
        ErrorView::Unauthorized => 401,
        ErrorView::BadRequest(_) => 400,
        ErrorView::NotFound => 404,
        ErrorView::InternalServer(_) => 500,
    }
}

/// The message the client is shown for a failure. A bad request is told what
/// was wrong with it; a server-side fault is shown one fixed sentence, so
/// that its detail never leaves the server.
pub open spec fn client_message_of(error: ErrorView) -> Seq<char> {
    match error {
        ErrorView::Unauthorized => "Unauthorized"@,
        ErrorView::BadRequest(text) => text,
        ErrorView::NotFound => "Not found"@,
        ErrorView::InternalServer(_) => "Internal server error"@,
    }
}

impl Error {
    /// The HTTP status that stands for this failure.
    pub fn status(&self) -> (code: u16)
        ensures
            code == status_of(self@),
    {
        match self {
            Error::Unauthorized => 401,
            Error::BadRequest(_) => 400,
            Error::NotFound => 404,
            Error::InternalServer(_) => 500,
        }
    }

    /// The message to show the client, taking the text out of a bad request.
    pub fn client_message(self) -> (message: String)
        ensures
            message@ == client_message_of(self@),
    {
        match self {
            Error::Unauthorized => "Unauthorized".to_owned(),
            Error::BadRequest(text) => text,
            Error::NotFound => "Not found".to_owned(),
            Error::InternalServer(_) => "Internal server error".to_owned(),
        }
    }

    /// Status and client message together: all that a response is built from.
    pub fn response_parts(self) -> (parts: (u16, String))
        ensures
            parts.0 == status_of(self@),
            parts.1@ == client_message_of(self@),
    {
        let code = self.status();
        (code, self.client_message())
    }
}

} // verus!
