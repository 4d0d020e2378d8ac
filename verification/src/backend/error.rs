use vstd::prelude::*;
use vstd::std_specs::convert::FromSpecImpl;
use std::string::FromUtf8Error;

verus! {

/// What can go wrong when a backend handles a request.
#[derive(Debug)]
pub enum BackendError {
    /// The app could not be found.
    NotFound,
    /// An internal error occurred; the string says which.
    InternalError(String),
}

/// What an error holds.
pub enum ErrorView {
    NotFound,
    Internal(Seq<char>),
}

impl View for BackendError {
    type V = ErrorView;

    open spec fn view(&self) -> ErrorView {
        match self {
            BackendError::NotFound => ErrorView::NotFound,
            BackendError::InternalError(m) => ErrorView::Internal(m@),
        }
    }
}

/// The view of a result whose error is a backend error.
pub open spec fn result_view<T: View>(r: Result<T, BackendError>) -> Result<T::V, ErrorView> {
    match r {
        Ok(t) => Ok(t@),
        Err(e) => Err(e@),
    }
}

/// The text that describes an error.
pub open spec fn error_message(e: BackendError) -> Seq<char> {
    match e {
        BackendError::NotFound => "The app could not be found."@,
        BackendError::InternalError(m) => "An internal error occurred: "@ + m@,
    }
}

impl BackendError {
    /// The text that describes this error.
    pub fn message(&self) -> (s: String)
        ensures
            s@ == error_message(*self),
    {
        match self {
            BackendError::NotFound => String::from_str("The app could not be found."),
            BackendError::InternalError(m) => crate::text::joined(
                "An internal error occurred: ",
                m.as_str(),
            ),
        }
    }

    /// An internal error with the given description.
    pub fn internal(message: &str) -> (e: Self)
        ensures
            e matches BackendError::InternalError(m) && m@ == message@,
    {
        BackendError::InternalError(String::from_str(message))
    }
}

impl Clone for BackendError {
    fn clone(&self) -> (e: Self)
        ensures
            e == *self,
    {
        match self {
            BackendError::NotFound => BackendError::NotFound,
            BackendError::InternalError(m) => BackendError::InternalError(m.clone()),
        }
    }
}

/// What a failed request to a cluster's API reported: the HTTP status code
/// when the API answered with an error response, and the error's text.
#[derive(Debug)]
pub struct ApiFailure {
    pub code: Option<u16>,
    pub message: String,
}

/// The status code with which an API says that an object does not exist.
pub const NOT_FOUND_CODE: u16 = 404;

/// The error that a failed API request stands for: an error response with
/// status 404 means the app was not found, anything else is an internal
/// error that carries the failure's text.
pub open spec fn error_for_failure(f: ApiFailure) -> BackendError {
    if f.code == Some(NOT_FOUND_CODE) {
        BackendError::NotFound
    } else {
        BackendError::InternalError(f.message)
    }
}

impl From<ApiFailure> for BackendError {
    fn from(f: ApiFailure) -> (e: Self) {
        if f.code == Some(NOT_FOUND_CODE) {
            BackendError::NotFound
        } else {
            BackendError::InternalError(f.message)
        }
    }
}

impl FromSpecImpl<ApiFailure> for BackendError {
    open spec fn obeys_from_spec() -> bool {
        true
    }

    open spec fn from_spec(v: ApiFailure) -> BackendError {
        error_for_failure(v)
    }
}


/// `std::string::FromUtf8Error`, the error of reading bytes that are not
/// valid UTF-8 as a `String`.
#[verifier::external_type_specification]
#[verifier::external_body]
pub struct ExFromUtf8Error(FromUtf8Error);

/// The text of a `FromUtf8Error`'s message, as its `Display` writes it
/// (which invalid sequence, and where).
pub uninterp spec fn utf8_error_message(e: FromUtf8Error) -> Seq<char>;

/// `ToString::to_string` on a `FromUtf8Error`: the error's message, named
/// `utf8_error_message`.
#[verifier::external_body]
fn utf8_error_text(e: &FromUtf8Error) -> (s: String)
    ensures
        s@ == utf8_error_message(*e),
{
    e.to_string()
}

impl From<FromUtf8Error> for BackendError {
    /// An internal error that carries the error's message.
    fn from(e: FromUtf8Error) -> (r: Self)
        ensures
            r matches BackendError::InternalError(m) && m@ == utf8_error_message(e),
    {
        BackendError::InternalError(utf8_error_text(&e))
    }
}

/// The conversion is stated by the `ensures` of `from` above, over the text
/// of the message; a specification function would have to produce the
/// message as a `String` value, which spec code cannot build from its text.
impl FromSpecImpl<FromUtf8Error> for BackendError {
    open spec fn obeys_from_spec() -> bool {
        false
    }

    open spec fn from_spec(v: FromUtf8Error) -> BackendError {
        vstd::pervasive::arbitrary()
    }
}

} // verus!
