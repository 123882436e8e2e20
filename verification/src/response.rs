//! The uniform envelope every endpoint answers with: a code, a message, the
//! data when there is any, and a success flag.

use vstd::prelude::*;

verus! {

/// Code of a successful response.
pub const APP_OK: u16 = 0;

/// Code of an otherwise unclassified failure.
pub const APP_OTHER: u16 = 5000;

/// The response envelope.
pub struct ApiResponse<T> {
    pub code: u16,
    pub message: String,
    pub data: Option<T>,
    pub success: bool,
}

impl<T> ApiResponse<T> {
    /// A successful response carrying `data`.
    pub fn success(data: T) -> (r: Self)
        ensures
            r.code == APP_OK,
            r.message@ == "success"@,
            r.data == Some(data),
            r.success,
    {
        Self { code: APP_OK, message: "success".to_owned(), data: Some(data), success: true }
    }

    /// A failure with a message and the catch-all code.
    pub fn error_with_message(message: String) -> (r: Self)
        ensures
            r.code == APP_OTHER,
            r.message == message,
            r.data is None,
            !r.success,
    {
        Self { code: APP_OTHER, message, data: None, success: false }
    }

    /// A failure with a message and a caller-chosen code.
    pub fn error_with_message_and_code(message: String, code: u16) -> (r: Self)
        ensures
            r.code == code,
            r.message == message,
            r.data is None,
            !r.success,
    {
        Self { code, message, data: None, success: false }
    }
}

} // verus!
