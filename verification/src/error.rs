//! The application's error type.

use vstd::prelude::*;
use vstd::string::StringExecFns;

verus! {

broadcast use vstd::string::group_string_axioms;

/// Application error types.
#[derive(Debug)]
pub enum AppError {
    Network(String),
    Validation(String),
    IO(String),
    Image(String),
}

/// The text of an error as it is shown to the user.
pub open spec fn error_text(e: AppError) -> Seq<char> {
    match e {
        AppError::Network(m) => "Network error: "@ + m@,
        AppError::Validation(m) => "Validation error: "@ + m@,
        AppError::IO(m) => "IO error: "@ + m@,
        AppError::Image(m) => "Image error: "@ + m@,
    }
}

impl AppError {
    /// The text of the error, a prefix naming its kind and then its message.
    pub fn to_text(&self) -> (r: String)
        ensures
            r@ == error_text(*self),
    {
        let (mut r, m) = match self {
            AppError::Network(m) => ("Network error: ".to_string(), m),
            AppError::Validation(m) => ("Validation error: ".to_string(), m),
            AppError::IO(m) => ("IO error: ".to_string(), m),
            AppError::Image(m) => ("Image error: ".to_string(), m),
        };
        r.append(m.as_str());
        r
    }
}

/// Results of the application's fallible operations.
pub type AppResult<T> = Result<T, AppError>;

} // verus!
