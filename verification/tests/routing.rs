use wtmm::email::get_bank_alert_email;
use wtmm::{route_inbound_email, EmailRoute, InboundEmailError};

const BANK_ALERT: &str = "alerts@dev.whotookmy.money";

#[test]
fn test_bank_alert_address_shape() {
    assert_eq!(get_bank_alert_email("@dev.whotookmy.money"), BANK_ALERT);
}

#[test]
fn test_route_unrecognized_email() {
    let mime = "MIME-Version: 1.0\nDate: Tue, 31 May 2022 15:23:12 -0400\nFrom: Some One<someone@example.org>\nTo: Person One<person1@example.org>\nContent-Type: text/plain\n\nMSG1\n";
    let routed = route_inbound_email(mime, BANK_ALERT);
    assert!(matches!(routed, Err(InboundEmailError::RoutingError)));
}

#[test]
fn test_route_bank_alert_email() {
    let mime = "MIME-Version: 1.0\nDate: Wed, 8 Jun 2022 12:23:38 -0400\nFrom: <no.reply.alerts@chase.com>\nTo: <alerts@dev.whotookmy.money>\nContent-Type: text/plain\n\nMerchant\nAIRBNB\nAmount\n$120.00\n";
    let (email, route) = route_inbound_email(mime, BANK_ALERT).unwrap();
    assert_eq!(email.get_tz_offset(), -14_400);
    match route {
        EmailRoute::BankPurchase(p) => {
            assert_eq!(p.get_merchant(), "AIRBNB");
            assert_eq!(p.get_amount_in_cents(), 12000);
            assert_eq!(p.get_user_email(), "alerts@dev.whotookmy.money");
        }
        _ => panic!("expected the bank purchase route"),
    }
}

#[test]
fn test_route_gmail_confirmation_email() {
    let mime = "MIME-Version: 1.0\nDate: Wed, 8 Jun 2022 12:23:38 -0400\nFrom: <forwarding-noreply@google.com>\nTo: <alerts@dev.whotookmy.money>\nContent-Type: text/plain\n\nperson@gmail.com has requested forwarding.\nConfirmation code: 99\nhttps://mail-settings.google.com/mail/ok\n";
    let (_, route) = route_inbound_email(mime, BANK_ALERT).unwrap();
    match route {
        EmailRoute::GmailConfirmation(c) => {
            assert_eq!(c.get_confirmation_code(), "99");
            assert_eq!(c.get_confirmation_url(), "https://mail-settings.google.com/mail/ok");
        }
        _ => panic!("expected the gmail confirmation route"),
    }
}

#[test]
fn test_route_unparseable_email_is_processing_error() {
    let mime = "MIME-Version: 1.0\nDate: not a date\nFrom: <a@example.org>\nTo: <b@example.org>\nContent-Type: text/plain\n\nhello\n";
    let routed = route_inbound_email(mime, BANK_ALERT);
    assert!(matches!(routed, Err(InboundEmailError::ProcessingError(_))));
}
