use wtmm::comms::{purchase_digest, welcome_email};
use wtmm::db::repeat_vars;
use wtmm::outbound_email::OutboundEmail;
use wtmm::user::User;

#[test]
fn test_welcome_email_names_alert_address() {
    let (subject, body) = welcome_email("alerts@dev.whotookmy.money");
    assert_eq!(subject, "Welcome!");
    assert!(body.contains("Here is your bank alert email address: alerts@dev.whotookmy.money\n"));
}

#[test]
fn test_purchase_digest_body() {
    let purchases = vec![(1500u64, String::from("AIRBNB")), (500u64, String::from("SPOTIFY"))];
    let merchants = vec![(2000u64, String::from("AIRBNB"))];
    let (subject, body) = purchase_digest(2000, &purchases, &merchants);
    assert_eq!(subject, "Your Weekly Purchase Digest");
    assert_eq!(
        body,
        "Total Spent this period: $20.00\nYour Top Purchases:\nAIRBNB: $15.00\nSPOTIFY: $5.00\nYour Favorite Merchants:\nAIRBNB: $20.00\n"
    );
}

#[test]
fn test_outbound_email_defaults() {
    let email = OutboundEmail::new("@dev.whotookmy.money", "person@example.org", None, None, None);
    assert_eq!(email.get_from(), "alerts@dev.whotookmy.money");
    assert_eq!(email.get_to(), "person@example.org");
    assert_eq!(email.get_subject(), "");
    assert_eq!(email.get_body(), "");
    assert_eq!(email.get_body_html(), "");
}

#[test]
fn test_outbound_email_fields() {
    let email = OutboundEmail::new(
        "@x.test",
        "person@example.org",
        Some("Hello"),
        Some("Bye"),
        Some("<p>Bye</p>"),
    );
    assert_eq!(email.get_subject(), "Hello");
    assert_eq!(email.get_body(), "Bye");
    assert_eq!(email.get_body_html(), "<p>Bye</p>");
}

#[test]
fn test_user_fields() {
    let user = User::new("person@example.org", 3600);
    assert_eq!(user.get_email(), "person@example.org");
    assert_eq!(user.get_tz_offset(), 3600);
}

#[test]
fn test_repeat_vars_shapes() {
    assert_eq!(repeat_vars(0), "");
    assert_eq!(repeat_vars(1), "?");
    assert_eq!(repeat_vars(3), "?,?,?");
}
