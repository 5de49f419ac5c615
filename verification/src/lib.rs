//! Derives login usernames and display names from corporate email
//! addresses, and renders message templates against recipient records,
//! fanning each recipient out into one or two concrete messages
//! depending on a privacy policy.

use vstd::prelude::*;

pub mod identity;
pub mod render;
pub mod text;

pub use identity::{fullname, username, uppercase_first_letter, Identity};
pub use render::{create_emails, render, MessageTemplate, RecipientRecord, RenderedMessage};

verus! {

/// The error taxonomy of the library and of the surrounding application.
///
/// Identity derivation reports `MalformedAddress` (the address has no
/// `@`, so there is no local part) and `EmptyLocalPart` (there is a
/// local part, but it yields no name material) distinctly; the other
/// variants belong to the application boundary around the library.
#[derive(Clone, Copy, Debug, PartialEq, Eq, Structural)]
pub enum AppError {
    MalformedAddress,
    EmptyLocalPart,
    CancelledFileError,
    UserListEmptyError,
}

/// The message text that belongs to each error variant.
pub open spec fn error_message(e: AppError) -> Seq<char> {
    match e {
        AppError::MalformedAddress => "Email has no local part."@,
        AppError::EmptyLocalPart => "Email local part yields no name material."@,
        AppError::CancelledFileError => "cancelled file open"@,
        AppError::UserListEmptyError => "No user list loaded."@,
    }
}

/// Turns an operation result into an optional error message for display:
/// nothing on success, the error's message on failure.
pub fn error_to_string(res: Result<(), AppError>) -> (r: Option<String>)
    ensures
        match res {
            Ok(()) => r is None,
            Err(e) => r matches Some(msg) && msg@ == error_message(e),
        },
{
    match res {
        Ok(()) => None,
        Err(AppError::MalformedAddress) => Some(String::from_str("Email has no local part.")),
        Err(AppError::EmptyLocalPart) => Some(
            String::from_str("Email local part yields no name material."),
        ),
        Err(AppError::CancelledFileError) => Some(String::from_str("cancelled file open")),
        Err(AppError::UserListEmptyError) => Some(String::from_str("No user list loaded.")),
    }
}

} // verus!
