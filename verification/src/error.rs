//! The errors that the client reports.
use vstd::prelude::*;
use vstd::string::to_string_from_display_ensures;
use crate::text::concat_str;

verus! {

/// Error types that can occur when using the library.
#[derive(Debug)]
pub enum ChxError {
    ConnectionError(String),
    IoError(String),
    ResponseError(String),
    InvalidResponse,
    Other(String),
}

/// A `ChxError` with its messages taken as character sequences.
pub enum ChxErrorView {
    ConnectionError(Seq<char>),
    IoError(Seq<char>),
    ResponseError(Seq<char>),
    InvalidResponse,
    Other(Seq<char>),
}

impl View for ChxError {
    type V = ChxErrorView;

    open spec fn view(&self) -> ChxErrorView {
        match self {
            ChxError::ConnectionError(m) => ChxErrorView::ConnectionError(m@),
            ChxError::IoError(m) => ChxErrorView::IoError(m@),
            ChxError::ResponseError(m) => ChxErrorView::ResponseError(m@),
            ChxError::InvalidResponse => ChxErrorView::InvalidResponse,
            ChxError::Other(m) => ChxErrorView::Other(m@),
        }
    }
}

/// The text that an error displays.
pub open spec fn error_text(e: ChxErrorView) -> Seq<char> {
    match e {
        ChxErrorView::ConnectionError(m) => "Connection error: "@ + m,
        ChxErrorView::IoError(m) => "I/O error: "@ + m,
        ChxErrorView::ResponseError(m) => "Server response error: "@ + m,
        ChxErrorView::InvalidResponse => "Invalid server response"@,
        ChxErrorView::Other(m) => "Error: "@ + m,
    }
}

impl ChxError {
    /// The text that this error displays.
    pub fn to_string(&self) -> (s: String)
        ensures
            s@ == error_text(self@),
    {
        match self {
            ChxError::ConnectionError(m) => concat_str("Connection error: ", m.as_str()),
            ChxError::IoError(m) => concat_str("I/O error: ", m.as_str()),
            ChxError::ResponseError(m) => concat_str("Server response error: ", m.as_str()),
            ChxError::InvalidResponse => "Invalid server response".to_owned(),
            ChxError::Other(m) => concat_str("Error: ", m.as_str()),
        }
    }
}

impl ChxError {
    /// The error that a failed send of a request reports, `detail` being
    /// the cause's text.
    pub fn send_failed(detail: &str) -> (e: ChxError)
        ensures
            e@ == ChxErrorView::IoError("Failed to send command: "@ + detail@),
    {
        ChxError::IoError(concat_str("Failed to send command: ", detail))
    }

    /// The error that a failed read of a reply reports, `detail` being the
    /// cause's text.
    pub fn read_failed(detail: &str) -> (e: ChxError)
        ensures
            e@ == ChxErrorView::IoError("Failed to read response: "@ + detail@),
    {
        ChxError::IoError(concat_str("Failed to read response: ", detail))
    }
}

/// The standard library's I/O error, carried as a value.
#[verifier::external_type_specification]
#[verifier::external_body]
pub struct ExIoError(std::io::Error);

impl From<std::io::Error> for ChxError {
    /// An I/O error becomes `IoError` with the error's displayed text.
    fn from(err: std::io::Error) -> (e: ChxError)
        ensures
            e matches ChxError::IoError(m) && to_string_from_display_ensures(&err, m),
    {
        ChxError::IoError(err.to_string())
    }
}

impl vstd::std_specs::convert::FromSpecImpl<std::io::Error> for ChxError {
    /// The displayed text of an I/O error is not a function of the value
    /// alone (an OS error is described by the platform), so no single
    /// result is promised.
    open spec fn obeys_from_spec() -> bool {
        false
    }

    open spec fn from_spec(v: std::io::Error) -> ChxError {
        ChxError::IoError(choose|m: String| to_string_from_display_ensures(&v, m))
    }
}

/// The line editor's error, carried as a value.
#[verifier::external_type_specification]
#[verifier::external_body]
pub struct ExReadlineError(rustyline::error::ReadlineError);

impl From<rustyline::error::ReadlineError> for ChxError {
    /// A line editor's error becomes `Other` with the error's displayed text.
    fn from(err: rustyline::error::ReadlineError) -> (e: ChxError)
        ensures
            e matches ChxError::Other(m) && to_string_from_display_ensures(&err, m),
    {
        ChxError::Other(err.to_string())
    }
}

impl vstd::std_specs::convert::FromSpecImpl<rustyline::error::ReadlineError> for ChxError {
    /// The displayed text of a line editor's error may come from the
    /// platform (an I/O or OS error), so no single result is promised.
    open spec fn obeys_from_spec() -> bool {
        false
    }

    open spec fn from_spec(v: rustyline::error::ReadlineError) -> ChxError {
        ChxError::Other(choose|m: String| to_string_from_display_ensures(&v, m))
    }
}

} // verus!
