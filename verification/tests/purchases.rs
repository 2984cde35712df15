use wtmm::email::Email;
use wtmm::purchase::{Purchase, PurchaseError};

const SCHWAB_ALERT_EMAIL: &str = "donotreply-comm@schwab.com";
const CHASE_ALERT_EMAIL: &str = "no.reply.alerts@chase.com";

#[test]
fn test_email_from_unknown_sender() {
    let email = Email::new(
        "a@example.com",
        "b@example.com",
        "Wed, 8 Jun 2022 12:23:38 -0400 (EDT)",
        "",
    )
    .unwrap();

    let purchase = Purchase::try_from(&email);

    assert!(matches!(purchase, Err(PurchaseError::UnknownSender)));
}

#[test]
fn test_invalid_purchase_amount() {
    let email = Email::new(
        "a@example.com",
        SCHWAB_ALERT_EMAIL,
        "Wed, 8 Jun 2022 12:23:38 -0400 (EDT)",
        "Merchant\nAmount\nAIRBNB\n1200",
    )
    .unwrap();

    let purchase = Purchase::try_from(&email);

    assert!(matches!(purchase, Err(PurchaseError::InvalidPurchaseAmount)));
}

#[test]
fn test_parse_schwab_like_email() {
    let email = Email::new(
        "a@example.com",
        SCHWAB_ALERT_EMAIL,
        "Wed, 8 Jun 2022 12:23:38 -0400 (EDT)",
        "Merchant\nAmount\nAIRBNB\n$120.00",
    )
    .unwrap();

    let purchase = Purchase::try_from(&email).unwrap();

    assert_eq!(purchase.get_amount_in_cents(), 12000);
    assert_eq!(purchase.get_merchant(), "AIRBNB");
    assert_eq!(purchase.get_timestamp(), 1654705418);
}

#[test]
fn test_parse_chase_like_email() {
    let email = Email::new(
        "a@example.com",
        CHASE_ALERT_EMAIL,
        "Wed, 8 Jun 2022 12:23:38 -0400 (EDT)",
        "Merchant\nAIRBNB\nAmount\n$120.00",
    )
    .unwrap();

    let purchase = Purchase::try_from(&email).unwrap();

    assert_eq!(purchase.get_amount_in_cents(), 12000);
    assert_eq!(purchase.get_merchant(), "AIRBNB");
    assert_eq!(purchase.get_timestamp(), 1654705418);
}

#[test]
fn test_missing_merchant_line() {
    let email = Email::new(
        "a@example.com",
        CHASE_ALERT_EMAIL,
        "Wed, 8 Jun 2022 12:23:38 -0400 (EDT)",
        "Amount\n$120.00",
    )
    .unwrap();
    assert!(matches!(
        Purchase::try_from(&email),
        Err(PurchaseError::ParsingError(_))
    ));
}

#[test]
fn test_purchase_lines_are_trimmed() {
    // Lines are trimmed and blank lines dropped before positions count.
    let email = Email::new(
        "a@example.com",
        CHASE_ALERT_EMAIL,
        "Wed, 8 Jun 2022 12:23:38 -0400 (EDT)",
        "  Merchant  \n\n  AIRBNB \n\n Amount \n $120.00 \n",
    )
    .unwrap();
    let purchase = Purchase::try_from(&email).unwrap();
    assert_eq!(purchase.get_merchant(), "AIRBNB");
    assert_eq!(purchase.get_amount_in_cents(), 12000);
}

#[test]
fn test_purchase_uses_recipient_as_user() {
    let email = Email::new(
        "user@example.com",
        CHASE_ALERT_EMAIL,
        "Wed, 8 Jun 2022 12:23:38 -0400 (EDT)",
        "Merchant\nAIRBNB\nAmount\n$120.00",
    )
    .unwrap();
    let purchase = Purchase::try_from(&email).unwrap();
    assert_eq!(purchase.get_user_email(), "user@example.com");
}

#[test]
fn test_purchase_new_getters() {
    let p = Purchase::new("a@example.com", 499, "SPOTIFY", 7);
    assert_eq!(p.get_user_email(), "a@example.com");
    assert_eq!(p.get_amount_in_cents(), 499);
    assert_eq!(p.get_merchant(), "SPOTIFY");
    assert_eq!(p.get_timestamp(), 7);
}
