use email_sender::{create_emails, render, MessageTemplate, RecipientRecord};

fn template(cc: &str) -> MessageTemplate {
    MessageTemplate {
        cc: cc.to_string(),
        subject: "Account for {fullname}".to_string(),
        body: "Hi {fullname}, login {username}, password {password}, extra {var1}|{var2}|{var3}."
            .to_string(),
    }
}

fn recipient() -> RecipientRecord {
    RecipientRecord {
        email: "John.Smith@co.com".to_string(),
        password: "s3cret".to_string(),
        var1: Some("alpha".to_string()),
        var2: None,
        var3: Some("gamma".to_string()),
    }
}

#[test]
fn visible_cc_single_message() {
    let rec = recipient();
    let id = email_sender::identity::derive(&rec.email).unwrap();
    let msgs = render(&template("boss@co.com"), &id, &rec, false);
    assert_eq!(msgs.len(), 1);
    assert_eq!(msgs[0].to, "John.Smith@co.com");
    assert_eq!(msgs[0].cc, "boss@co.com");
    assert_eq!(msgs[0].subject, "Account for John Smith");
    assert_eq!(
        msgs[0].body,
        "Hi John Smith, login jsmith, password s3cret, extra alpha||gamma."
    );
}

#[test]
fn hidden_password_splits_into_two() {
    let rec = recipient();
    let id = email_sender::identity::derive(&rec.email).unwrap();
    let msgs = render(&template("boss@co.com"), &id, &rec, true);
    assert_eq!(msgs.len(), 2);
    // Primary first: the real password, no CC.
    assert_eq!(msgs[0].to, "John.Smith@co.com");
    assert_eq!(msgs[0].cc, "");
    assert_eq!(msgs[0].subject, "Account for John Smith");
    assert!(msgs[0].body.contains("password s3cret"));
    // CC copy second: sent to the CC address, body hides the password,
    // subject still carries it.
    assert_eq!(msgs[1].to, "boss@co.com");
    assert_eq!(msgs[1].cc, "");
    assert_eq!(msgs[1].subject, "Account for John Smith");
    assert_eq!(
        msgs[1].body,
        "Hi John Smith, login jsmith, password [hidden], extra alpha||gamma."
    );
}

#[test]
fn hidden_password_empty_cc_falls_back() {
    let rec = recipient();
    let id = email_sender::identity::derive(&rec.email).unwrap();
    let msgs = render(&template(""), &id, &rec, true);
    assert_eq!(msgs.len(), 1);
    assert_eq!(msgs[0].to, "John.Smith@co.com");
    assert_eq!(msgs[0].cc, "");
    assert!(msgs[0].body.contains("password s3cret"));
}

#[test]
fn no_placeholders_renders_verbatim() {
    let rec = recipient();
    let id = email_sender::identity::derive(&rec.email).unwrap();
    let t = MessageTemplate {
        cc: "".to_string(),
        subject: "A plain subject with {unknown} braces".to_string(),
        body: "Nothing { to } replace here.".to_string(),
    };
    let msgs = render(&t, &id, &rec, false);
    assert_eq!(msgs.len(), 1);
    assert_eq!(msgs[0].subject, "A plain subject with {unknown} braces");
    assert_eq!(msgs[0].body, "Nothing { to } replace here.");
}

#[test]
fn every_occurrence_replaced() {
    let rec = recipient();
    let id = email_sender::identity::derive(&rec.email).unwrap();
    let t = MessageTemplate {
        cc: "".to_string(),
        subject: "{username} {username}".to_string(),
        body: "{password}-{password}-{password}".to_string(),
    };
    let msgs = render(&t, &id, &rec, false);
    assert_eq!(msgs[0].subject, "jsmith jsmith");
    assert_eq!(msgs[0].body, "s3cret-s3cret-s3cret");
}

#[test]
fn batch_continues_past_bad_address() {
    let recipients = vec![
        RecipientRecord {
            email: "broken".to_string(),
            password: "p1".to_string(),
            var1: None,
            var2: None,
            var3: None,
        },
        recipient(),
        RecipientRecord {
            email: "@co.com".to_string(),
            password: "p2".to_string(),
            var1: None,
            var2: None,
            var3: None,
        },
    ];
    let (msgs, failures) = create_emails(&template("boss@co.com"), &recipients, false);
    assert_eq!(msgs.len(), 1);
    assert_eq!(msgs[0].to, "John.Smith@co.com");
    assert_eq!(failures.len(), 2);
    assert_eq!(failures[0].0, "broken");
    assert_eq!(failures[0].1, email_sender::AppError::MalformedAddress);
    assert_eq!(failures[1].0, "@co.com");
    assert_eq!(failures[1].1, email_sender::AppError::EmptyLocalPart);
}

#[test]
fn batch_hidden_password_doubles_messages() {
    let recipients = vec![recipient(), recipient()];
    let (msgs, failures) = create_emails(&template("boss@co.com"), &recipients, true);
    assert_eq!(msgs.len(), 4);
    assert_eq!(failures.len(), 0);
    assert_eq!(msgs[0].to, "John.Smith@co.com");
    assert_eq!(msgs[1].to, "boss@co.com");
    assert_eq!(msgs[2].to, "John.Smith@co.com");
    assert_eq!(msgs[3].to, "boss@co.com");
}
