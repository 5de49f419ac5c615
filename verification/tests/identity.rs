use email_sender::{error_to_string, fullname, uppercase_first_letter, username, AppError};

#[test]
fn basic_two_tokens() {
    let id = email_sender::identity::derive("John.Smith@co.com").unwrap();
    assert_eq!(id.username, "jsmith");
    assert_eq!(id.full_name, "John Smith");
}

#[test]
fn username_and_fullname_agree_with_derive() {
    let id = email_sender::identity::derive("John.Smith@co.com").unwrap();
    assert_eq!(username("John.Smith@co.com").unwrap(), id.username);
    assert_eq!(fullname("John.Smith@co.com").unwrap(), id.full_name);
}

#[test]
fn case_insensitive() {
    assert_eq!(
        username("John.Smith@co.com").unwrap(),
        username("john.smith@co.com").unwrap()
    );
    assert_eq!(
        fullname("JOHN.SMITH@co.com").unwrap(),
        fullname("john.smith@co.com").unwrap()
    );
}

#[test]
fn contractor_token_dropped_from_username() {
    // The single-character token contributes nothing, and the
    // "contractor" token is dropped whole.
    let id = email_sender::identity::derive("a.b.contractor@co.com").unwrap();
    assert_eq!(id.username, "a");
}

#[test]
fn contractor_substring_stripped_from_fullname() {
    // The full-name path strips the substring from the whole local part
    // before splitting, so the trailing dot leaves an empty token and a
    // trailing space.
    let id = email_sender::identity::derive("a.b.contractor@co.com").unwrap();
    assert_eq!(id.full_name, "A B ");
}

#[test]
fn contractor_inside_token() {
    // Username path: the whole token containing "contractor" is
    // dropped. Full-name path: only the substring is removed.
    let id = email_sender::identity::derive("jo.xcontractory@co.com").unwrap();
    assert_eq!(id.username, "j");
    assert_eq!(id.full_name, "Jo Xy");
}

#[test]
fn ki_token_normalized() {
    let id = email_sender::identity::derive("x.ki@co.com").unwrap();
    assert_eq!(id.username, "xk");
    assert_eq!(id.full_name, "X Ki");
}

#[test]
fn hyphens_removed_from_username() {
    let id = email_sender::identity::derive("mary.jane-doe@co.com").unwrap();
    assert_eq!(id.username, "mjanedoe");
    assert_eq!(id.full_name, "Mary Jane-doe");
}

#[test]
fn hyphenated_ki_normalized() {
    // Hyphens are removed before the "ki" correction applies.
    let id = email_sender::identity::derive("x.k-i@co.com").unwrap();
    assert_eq!(id.username, "xk");
}

#[test]
fn single_token() {
    let id = email_sender::identity::derive("solo@co.com").unwrap();
    assert_eq!(id.username, "s");
    assert_eq!(id.full_name, "Solo");
}

#[test]
fn empty_local_part() {
    assert_eq!(
        email_sender::identity::derive("@co.com").unwrap_err(),
        AppError::EmptyLocalPart
    );
    assert_eq!(username("@co.com").unwrap_err(), AppError::EmptyLocalPart);
    assert_eq!(fullname("@co.com").unwrap_err(), AppError::EmptyLocalPart);
}

#[test]
fn empty_first_token() {
    assert_eq!(
        email_sender::identity::derive(".x@co.com").unwrap_err(),
        AppError::EmptyLocalPart
    );
}

#[test]
fn missing_at_sign() {
    assert_eq!(
        email_sender::identity::derive("no-at-sign").unwrap_err(),
        AppError::MalformedAddress
    );
    assert_eq!(username("no-at-sign").unwrap_err(), AppError::MalformedAddress);
    assert_eq!(
        email_sender::identity::derive("").unwrap_err(),
        AppError::MalformedAddress
    );
}

#[test]
fn rederiving_is_identical() {
    let a = email_sender::identity::derive("Jane.Van-der.Berg@co.com").unwrap();
    let b = email_sender::identity::derive("Jane.Van-der.Berg@co.com").unwrap();
    assert_eq!(a.username, b.username);
    assert_eq!(a.full_name, b.full_name);
}

#[test]
fn uppercase_first_letter_cases() {
    assert_eq!(uppercase_first_letter(""), "");
    assert_eq!(uppercase_first_letter("hello"), "Hello");
    assert_eq!(uppercase_first_letter("hELLO"), "HELLO");
}

#[test]
fn error_messages() {
    assert_eq!(error_to_string(Ok(())), None);
    assert_eq!(
        error_to_string(Err(AppError::MalformedAddress)).unwrap(),
        "Email has no local part."
    );
    assert_eq!(
        error_to_string(Err(AppError::EmptyLocalPart)).unwrap(),
        "Email local part yields no name material."
    );
    assert_eq!(
        error_to_string(Err(AppError::CancelledFileError)).unwrap(),
        "cancelled file open"
    );
    assert_eq!(
        error_to_string(Err(AppError::UserListEmptyError)).unwrap(),
        "No user list loaded."
    );
}
