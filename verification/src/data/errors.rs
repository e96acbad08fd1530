//! What can go wrong, and how it is worded.

use crate::text::concat;
use vstd::prelude::*;

verus! {

/// Why a vendor gave no usable answer to a search.
#[derive(Clone, Debug)]
pub enum SearchError {
    /// The exchange of credentials for an access token failed.
    Auth(String),
    /// The request did not get through, or the vendor refused it.
    Transport(String),
    /// The body of the answer could not be read.
    Parse(String),
}

/// A search error as plain values.
pub enum SearchErrorView {
    Auth(Seq<char>),
    Transport(Seq<char>),
    Parse(Seq<char>),
}

impl View for SearchError {
    type V = SearchErrorView;

    open spec fn view(&self) -> SearchErrorView {
        match self {
            SearchError::Auth(m) => SearchErrorView::Auth(m@),
            SearchError::Transport(m) => SearchErrorView::Transport(m@),
            SearchError::Parse(m) => SearchErrorView::Parse(m@),
        }
    }
}

impl SearchError {
    /// The message that the error carries.
    pub fn message(&self) -> (text: String)
        ensures
            text@ == match self@ {
                SearchErrorView::Auth(m) => m,
                SearchErrorView::Transport(m) => m,
                SearchErrorView::Parse(m) => m,
            },
    {
        match self {
            SearchError::Auth(m) => m.clone(),
            SearchError::Transport(m) => m.clone(),
            SearchError::Parse(m) => m.clone(),
        }
    }
}

/// A failure of the order store or of what is built on it.
#[derive(Clone, Debug)]
pub enum DataError {
    Query(String),
    FailedQuery(String),
    Internal(String),
    Bcrypt(String),
    Utf8Conversion(String),
    Mail(String),
    TokenError(String),
}

/// A data error as plain values.
pub enum DataErrorView {
    Query(Seq<char>),
    FailedQuery(Seq<char>),
    Internal(Seq<char>),
    Bcrypt(Seq<char>),
    Utf8Conversion(Seq<char>),
    Mail(Seq<char>),
    TokenError(Seq<char>),
}

impl View for DataError {
    type V = DataErrorView;

    open spec fn view(&self) -> DataErrorView {
        match self {
            DataError::Query(m) => DataErrorView::Query(m@),
            DataError::FailedQuery(m) => DataErrorView::FailedQuery(m@),
            DataError::Internal(m) => DataErrorView::Internal(m@),
            DataError::Bcrypt(m) => DataErrorView::Bcrypt(m@),
            DataError::Utf8Conversion(m) => DataErrorView::Utf8Conversion(m@),
            DataError::Mail(m) => DataErrorView::Mail(m@),
            DataError::TokenError(m) => DataErrorView::TokenError(m@),
        }
    }
}

/// The wording of a data error: what kind it is, then its detail.
pub open spec fn data_error_text(e: DataErrorView) -> Seq<char> {
    match e {
        DataErrorView::Query(m) => "Failed database query: "@ + m,
        DataErrorView::FailedQuery(m) => "Failed to query: "@ + m,
        DataErrorView::Internal(m) => "Internal error: "@ + m,
        DataErrorView::Bcrypt(m) => "Failed to hash: "@ + m,
        DataErrorView::Utf8Conversion(m) => "Failed to convert from utf8: "@ + m,
        DataErrorView::Mail(m) => "Failed to send mail: "@ + m,
        DataErrorView::TokenError(m) => "Invalid token: "@ + m,
    }
}

impl DataError {
    /// The wording of the error.
    pub fn message(&self) -> (text: String)
        ensures
            text@ == data_error_text(self@),
    {
        match self {
            DataError::Query(m) => concat("Failed database query: ", m.as_str()),
            DataError::FailedQuery(m) => concat("Failed to query: ", m.as_str()),
            DataError::Internal(m) => concat("Internal error: ", m.as_str()),
            DataError::Bcrypt(m) => concat("Failed to hash: ", m.as_str()),
            DataError::Utf8Conversion(m) => concat("Failed to convert from utf8: ", m.as_str()),
            DataError::Mail(m) => concat("Failed to send mail: ", m.as_str()),
            DataError::TokenError(m) => concat("Invalid token: ", m.as_str()),
        }
    }
}

/// A failure as a request handler reports it.
#[derive(Clone, Debug)]
pub enum AppError {
    Database(DataError),
    Template(String),
    Session(String),
}

/// An application error as plain values.
pub enum AppErrorView {
    Database(DataErrorView),
    Template(Seq<char>),
    Session(Seq<char>),
}

impl View for AppError {
    type V = AppErrorView;

    open spec fn view(&self) -> AppErrorView {
        match self {
            AppError::Database(e) => AppErrorView::Database(e@),
            AppError::Template(m) => AppErrorView::Template(m@),
            AppError::Session(m) => AppErrorView::Session(m@),
        }
    }
}

/// The wording of an application error: its kind alone.
pub open spec fn app_error_text(e: AppErrorView) -> Seq<char> {
    match e {
        AppErrorView::Database(_) => "Database error"@,
        AppErrorView::Template(_) => "Template error"@,
        AppErrorView::Session(_) => "Failed loading session"@,
    }
}

/// The status that an application error is answered with.
pub const SERVER_ERROR_STATUS: u16 = 500;

/// The page that reports an error worded `e`.
pub open spec fn server_error_page(e: Seq<char>) -> Seq<char> {
    "<!DOCTYPE html>
        <html>
        <head><title>500 Internal Server Error</title></head>
        <body>
            <h1>Internal Server Error</h1>
            <pre>"@
        + e + "</pre>
        </body>
        </html>"@
}

impl AppError {
    /// The wording of the error.
    pub fn message(&self) -> (text: String)
        ensures
            text@ == app_error_text(self@),
    {
        match self {
            AppError::Database(_) => String::from_str("Database error"),
            AppError::Template(_) => String::from_str("Template error"),
            AppError::Session(_) => String::from_str("Failed loading session"),
        }
    }

    /// The status and the page that answer a request on which the error
    /// occurred.
    pub fn into_response(&self) -> (response: (u16, String))
        ensures
            response.0 == SERVER_ERROR_STATUS,
            response.1@ == server_error_page(app_error_text(self@)),
    {
        server_error(self.message().as_str())
    }
}

/// The status and the page that report an error worded `e`.
pub fn server_error(e: &str) -> (response: (u16, String))
    ensures
        response.0 == SERVER_ERROR_STATUS,
        response.1@ == server_error_page(e@),
{
    let mut page = String::from_str(
        "<!DOCTYPE html>
        <html>
        <head><title>500 Internal Server Error</title></head>
        <body>
            <h1>Internal Server Error</h1>
            <pre>",
    );
    page.append(e);
    page.append("</pre>
        </body>
        </html>");
    (SERVER_ERROR_STATUS, page)
}

} // verus!
