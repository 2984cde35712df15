use wtmm::email::Email;
use wtmm::gmail_forwarding_confirmation::GmailForwardingConfirmation;

fn confirmation_email() -> Email {
    Email::new(
        "alerts@dev.whotookmy.money",
        "forwarding-noreply@google.com",
        "Wed, 8 Jun 2022 12:23:38 -0400",
        "person@gmail.com has requested to automatically forward mail to your email address.\nConfirmation code: 83581330\n\nTo allow them to do this, click the link below.\nhttps://mail-settings.google.com/mail/vf-abc123xyz\n",
    )
    .unwrap()
}

#[test]
fn test_parse_confirmation_email() {
    let confirmation = GmailForwardingConfirmation::try_from(&confirmation_email()).unwrap();
    assert_eq!(confirmation.get_confirmation_code(), "83581330");
    assert_eq!(
        confirmation.get_confirmation_url(),
        "https://mail-settings.google.com/mail/vf-abc123xyz"
    );
    assert_eq!(confirmation.get_user_email(), "person@gmail.com");
}

#[test]
fn test_confirmation_requires_code_line() {
    let email = Email::new(
        "a@example.com",
        "forwarding-noreply@google.com",
        "Wed, 8 Jun 2022 12:23:38 -0400",
        "no code here\nhttps://mail-settings.google.com/mail/x\n",
    )
    .unwrap();
    assert!(GmailForwardingConfirmation::try_from(&email).is_err());
}

#[test]
fn test_confirmation_requires_url_line() {
    let email = Email::new(
        "a@example.com",
        "forwarding-noreply@google.com",
        "Wed, 8 Jun 2022 12:23:38 -0400",
        "person@gmail.com asked\nConfirmation code: 1234\n",
    )
    .unwrap();
    assert!(GmailForwardingConfirmation::try_from(&email).is_err());
}

#[test]
fn test_confirmation_empty_body_fails() {
    let email = Email::new(
        "a@example.com",
        "forwarding-noreply@google.com",
        "Wed, 8 Jun 2022 12:23:38 -0400",
        "",
    )
    .unwrap();
    assert!(GmailForwardingConfirmation::try_from(&email).is_err());
}
