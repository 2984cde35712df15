//! Verified core of an email-driven purchase tracker.
//!
//! Inbound emails (bank purchase alerts, Gmail forwarding confirmations)
//! arrive as raw MIME text.  This crate parses them into a normalized
//! [`email::Email`] model, classifies each message by sender, and extracts
//! either a [`purchase::Purchase`] or a
//! [`gmail_forwarding_confirmation::GmailForwardingConfirmation`].
//! Persistence, scheduling, and transport live outside this crate and are
//! handed plain values.

pub mod comms;
pub mod currency;
pub mod db;
pub mod email;
pub mod gmail_forwarding_confirmation;
pub mod mime;
pub mod outbound_email;
pub mod purchase;
pub mod report;
pub mod text;
pub mod url_match;
pub mod user;

use crate::email::{Email, EmailError, EmailModel};
use crate::gmail_forwarding_confirmation::{
    extract_confirmation, GmailForwardingConfirmation, GmailForwardingConfirmationModel,
    TryFromEmailError,
};
use crate::purchase::{
    extract_purchase, purchase_error_view, Purchase, PurchaseError, PurchaseErrorModel,
    PurchaseModel,
};
use vstd::prelude::*;

verus! {

/// The fixed sender address of Gmail's forwarding-confirmation emails.
pub open spec fn gmail_confirmation_sender() -> Seq<char> {
    "forwarding-noreply@google.com"@
}

/// The extraction failure behind a processing error.
#[derive(Debug)]
pub enum ProcessingCause {
    /// The raw text could not be parsed into the email model.
    Email(EmailError),
    /// The bank branch matched but purchase extraction failed.
    Purchase(PurchaseError),
    /// The Gmail branch matched but confirmation extraction failed.
    Confirmation(TryFromEmailError),
}

/// Why handling an inbound email failed.
#[derive(Debug)]
pub enum InboundEmailError {
    /// A branch matched but its extraction failed; carries the cause.
    ProcessingError(ProcessingCause),
    /// No classification branch matched the email.
    RoutingError,
}

/// The classification outcome: exactly one branch per email.
pub enum EmailRoute {
    /// A bank purchase alert, with the extracted purchase.
    BankPurchase(Purchase),
    /// Gmail's forwarding confirmation, with code and URL.
    GmailConfirmation(GmailForwardingConfirmation),
}

/// Spec-level image of an [`EmailRoute`].
pub ghost enum EmailRouteModel {
    BankPurchase(PurchaseModel),
    GmailConfirmation(GmailForwardingConfirmationModel),
}

/// Spec-level image of an [`InboundEmailError`].
pub ghost enum InboundEmailErrorModel {
    ProcessingEmail(EmailError),
    ProcessingPurchase(PurchaseErrorModel),
    ProcessingConfirmation,
    RoutingError,
}

/// The view of a routing error.
pub open spec fn inbound_error_view(e: InboundEmailError) -> InboundEmailErrorModel {
    match e {
        InboundEmailError::ProcessingError(c) => match c {
            ProcessingCause::Email(x) => InboundEmailErrorModel::ProcessingEmail(x),
            ProcessingCause::Purchase(p) => InboundEmailErrorModel::ProcessingPurchase(
                purchase_error_view(p),
            ),
            ProcessingCause::Confirmation(_) => InboundEmailErrorModel::ProcessingConfirmation,
        },
        InboundEmailError::RoutingError => InboundEmailErrorModel::RoutingError,
    }
}

/// The view of a routing result, for stating contracts.
pub open spec fn route_result_view(r: Result<(Email, EmailRoute), InboundEmailError>) -> Result<
    (EmailModel, EmailRouteModel),
    InboundEmailErrorModel,
> {
    match r {
        Ok(p) => Ok(
            (
                p.0@,
                match p.1 {
                    EmailRoute::BankPurchase(x) => EmailRouteModel::BankPurchase(x@),
                    EmailRoute::GmailConfirmation(c) => EmailRouteModel::GmailConfirmation(c@),
                },
            ),
        ),
        Err(e) => Err(inbound_error_view(e)),
    }
}

/// What the email model of raw text is: the verified conversion applied to
/// what the outside parser decomposes the text into.
pub open spec fn email_of_raw(raw: Seq<char>) -> Result<EmailModel, EmailError> {
    match mime::mime_envelope_of(raw) {
        None => Err(EmailError::ParsingError),
        Some(env) => email::email_of_mime(
            env,
            mime::mime_addresses_of(raw, "To"@),
            mime::mime_addresses_of(raw, "From"@),
        ),
    }
}

/// How an inbound email is classified and extracted, in fixed priority
/// order: the Gmail confirmation sender first; then, if the raw text
/// contains the bank-alert address anywhere, the purchase branch; else the
/// email routes nowhere.
pub open spec fn route_outcome(raw: Seq<char>, bank_alert: Seq<char>) -> Result<
    (EmailModel, EmailRouteModel),
    InboundEmailErrorModel,
> {
    match email_of_raw(raw) {
        Err(e) => Err(InboundEmailErrorModel::ProcessingEmail(e)),
        Ok(m) => {
            if m.from == gmail_confirmation_sender() {
                match extract_confirmation(m) {
                    Err(_) => Err(InboundEmailErrorModel::ProcessingConfirmation),
                    Ok(c) => Ok((m, EmailRouteModel::GmailConfirmation(c))),
                }
            } else if text::contains_seq(raw, bank_alert) {
                match extract_purchase(m) {
                    Err(p) => Err(InboundEmailErrorModel::ProcessingPurchase(p)),
                    Ok(p) => Ok((m, EmailRouteModel::BankPurchase(p))),
                }
            } else {
                Err(InboundEmailErrorModel::RoutingError)
            }
        },
    }
}

/// Classifies one inbound email and runs the matched extraction, pinned to
/// [`route_outcome`].  The caller supplies the configured bank-alert
/// address and afterwards performs whatever effects the route calls for.
pub fn route_inbound_email(raw_email: &str, bank_alert_email: &str) -> (r: Result<
    (Email, EmailRoute),
    InboundEmailError,
>)
    ensures
        route_result_view(r) == route_outcome(raw_email@, bank_alert_email@),
{
    let parsed = match Email::try_from(raw_email) {
        Ok(e) => e,
        Err(e) => {
            return Err(InboundEmailError::ProcessingError(ProcessingCause::Email(e)));
        },
    };
    if text::str_eq(parsed.get_from(), "forwarding-noreply@google.com") {
        match GmailForwardingConfirmation::try_from(&parsed) {
            Ok(c) => Ok((parsed, EmailRoute::GmailConfirmation(c))),
            Err(e) => Err(InboundEmailError::ProcessingError(ProcessingCause::Confirmation(e))),
        }
    } else if text::contains_str(raw_email, bank_alert_email) {
        match Purchase::try_from(&parsed) {
            Ok(p) => Ok((parsed, EmailRoute::BankPurchase(p))),
            Err(e) => Err(InboundEmailError::ProcessingError(ProcessingCause::Purchase(e))),
        }
    } else {
        Err(InboundEmailError::RoutingError)
    }
}

/// Law: an email whose sender is not the Gmail confirmation sender and
/// whose raw text nowhere contains the bank-alert address yields a routing
/// error — distinct from every extraction failure.
pub proof fn lemma_unrecognized_route(raw: Seq<char>, bank_alert: Seq<char>)
    requires
        email_of_raw(raw) is Ok,
        email_of_raw(raw)->Ok_0.from != gmail_confirmation_sender(),
        !text::contains_seq(raw, bank_alert),
    ensures
        route_outcome(raw, bank_alert) == Err::<
            (EmailModel, EmailRouteModel),
            InboundEmailErrorModel,
        >(InboundEmailErrorModel::RoutingError),
{
}

/// Law: an email that fails to parse — a missing or invalid `Date` header
/// included — never reaches routing: the outcome carries the parse error
/// itself.
pub proof fn lemma_parse_failure_precedes_routing(raw: Seq<char>, bank_alert: Seq<char>)
    requires
        email_of_raw(raw) is Err,
    ensures
        route_outcome(raw, bank_alert) == Err::<
            (EmailModel, EmailRouteModel),
            InboundEmailErrorModel,
        >(InboundEmailErrorModel::ProcessingEmail(email_of_raw(raw)->Err_0)),
{
}

} // verus!
