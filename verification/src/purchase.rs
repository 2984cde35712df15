//! Extraction of a card purchase from a bank alert email.
//!
//! Two bank formats are supported, each with its own line-position rule
//! relative to the literal `Merchant` and `Amount` label lines.

use crate::currency;
use crate::email::{resolved_body, Email, EmailModel};
use crate::mime;
use crate::text;
use vstd::prelude::*;

verus! {

/// Sender address of the Chase alert format.
pub open spec fn chase_sender() -> Seq<char> {
    "no.reply.alerts@chase.com"@
}

/// Sender address of the Schwab alert format.
pub open spec fn schwab_sender() -> Seq<char> {
    "donotreply-comm@schwab.com"@
}

/// The closed set of supported bank alert formats; adding a bank means
/// adding a variant and its extraction rule.
#[derive(Debug, Clone, Copy, PartialEq, Eq, Structural)]
pub enum BankFormat {
    ChaseFormat,
    SchwabFormat,
}

/// Which format a sender address selects, if any.
pub open spec fn bank_format_of(from: Seq<char>) -> Option<BankFormat> {
    if from == chase_sender() {
        Some(BankFormat::ChaseFormat)
    } else if from == schwab_sender() {
        Some(BankFormat::SchwabFormat)
    } else {
        None
    }
}

/// Classifies a sender address, pinned to [`bank_format_of`].
pub fn classify_sender(from: &str) -> (r: Option<BankFormat>)
    ensures
        r == bank_format_of(from@),
{
    if text::str_eq(from, "no.reply.alerts@chase.com") {
        Some(BankFormat::ChaseFormat)
    } else if text::str_eq(from, "donotreply-comm@schwab.com") {
        Some(BankFormat::SchwabFormat)
    } else {
        None
    }
}

/// Errors that can occur while extracting purchase information from an email.
#[derive(Debug)]
pub enum PurchaseError {
    /// A required part of the email could not be located; names which.
    ParsingError(&'static str),
    /// The sender matches no supported bank format.
    UnknownSender,
    /// The amount line is missing or not shaped like a dollar amount.
    InvalidPurchaseAmount,
}

/// Spec-level image of a [`PurchaseError`].
pub ghost enum PurchaseErrorModel {
    ParsingError(Seq<char>),
    UnknownSender,
    InvalidPurchaseAmount,
}

/// The view of a purchase error.
pub open spec fn purchase_error_view(e: PurchaseError) -> PurchaseErrorModel {
    match e {
        PurchaseError::ParsingError(s) => PurchaseErrorModel::ParsingError(s@),
        PurchaseError::UnknownSender => PurchaseErrorModel::UnknownSender,
        PurchaseError::InvalidPurchaseAmount => PurchaseErrorModel::InvalidPurchaseAmount,
    }
}

/// A user purchase, extracted from an email alert.
pub struct Purchase {
    user_email: String,
    amount_in_cents: u64,
    merchant: String,
    timestamp: i64,
}

/// Spec-level image of a [`Purchase`].
pub ghost struct PurchaseModel {
    pub user_email: Seq<char>,
    pub amount_in_cents: int,
    pub merchant: Seq<char>,
    pub timestamp: int,
}

impl View for Purchase {
    type V = PurchaseModel;

    closed spec fn view(&self) -> PurchaseModel {
        PurchaseModel {
            user_email: self.user_email@,
            amount_in_cents: self.amount_in_cents as int,
            merchant: self.merchant@,
            timestamp: self.timestamp as int,
        }
    }
}

/// The view of an extraction result, for stating contracts.
pub open spec fn purchase_result_view(r: Result<Purchase, PurchaseError>) -> Result<
    PurchaseModel,
    PurchaseErrorModel,
> {
    match r {
        Ok(p) => Ok(p@),
        Err(e) => Err(purchase_error_view(e)),
    }
}

/// Index of the first line at or after `i` equal to `target`; -1 if none.
pub open spec fn first_line_from(lines: Seq<Seq<char>>, target: Seq<char>, i: int) -> int
    decreases lines.len() - i + 1,
{
    if i < 0 || i >= lines.len() {
        -1
    } else if lines[i] == target {
        i
    } else {
        first_line_from(lines, target, i + 1)
    }
}

/// The merchant and amount lines the Chase rule selects: the line after the
/// first line `Merchant`, and the line after the first line `Amount`.
pub open spec fn chase_fields(lines: Seq<Seq<char>>) -> Result<
    (Seq<char>, Seq<char>),
    PurchaseErrorModel,
> {
    let mi = first_line_from(lines, "Merchant"@, 0);
    let ai = first_line_from(lines, "Amount"@, 0);
    if !(mi >= 0 && mi + 1 < lines.len()) {
        Err(PurchaseErrorModel::ParsingError("Merchant"@))
    } else if !(ai >= 0 && ai + 1 < lines.len()) {
        Err(PurchaseErrorModel::InvalidPurchaseAmount)
    } else {
        Ok((lines[mi + 1], lines[ai + 1]))
    }
}

/// The merchant and amount lines the Schwab rule selects: both positioned
/// after the first line `Amount` — the merchant one line after it, the
/// amount two lines after it.  (The label ordering of that bank's template
/// really does place the merchant name after the word `Amount`.)
pub open spec fn schwab_fields(lines: Seq<Seq<char>>) -> Result<
    (Seq<char>, Seq<char>),
    PurchaseErrorModel,
> {
    let ai = first_line_from(lines, "Amount"@, 0);
    if !(ai >= 0 && ai + 1 < lines.len()) {
        Err(PurchaseErrorModel::ParsingError("Merchant"@))
    } else if !(ai + 2 < lines.len()) {
        Err(PurchaseErrorModel::InvalidPurchaseAmount)
    } else {
        Ok((lines[ai + 1], lines[ai + 2]))
    }
}

/// What extracting a purchase from an email model yields.  The body is
/// split into trimmed non-empty lines; the sender selects the line-position
/// rule; the amount line must read as a dollar string whose cent count fits
/// a `u64`; the timestamp comes from the validated date string.
pub open spec fn extract_purchase(e: EmailModel) -> Result<PurchaseModel, PurchaseErrorModel> {
    if resolved_body(e) is None {
        Err(PurchaseErrorModel::ParsingError("Missing body"@))
    } else {
        let lines = text::clean_lines_spec(resolved_body(e).unwrap());
        let fields = match bank_format_of(e.from) {
            Some(BankFormat::ChaseFormat) => chase_fields(lines),
            Some(BankFormat::SchwabFormat) => schwab_fields(lines),
            None => Err(PurchaseErrorModel::UnknownSender),
        };
        match fields {
            Err(err) => Err(err),
            Ok(pair) => {
                let amount = currency::dollar_value(pair.1);
                if !(amount matches Some(v) && v <= u64::MAX as int) {
                    Err(PurchaseErrorModel::InvalidPurchaseAmount)
                } else {
                    match mime::rfc2822_timestamp_of(e.rfc2822_date) {
                        None => Err(PurchaseErrorModel::ParsingError("Date"@)),
                        Some(ts) => Ok(
                            PurchaseModel {
                                user_email: e.to,
                                amount_in_cents: amount.unwrap(),
                                merchant: pair.0,
                                timestamp: ts as int,
                            },
                        ),
                    }
                }
            },
        }
    }
}

/// Index of the first line equal to `target`, pinned to [`first_line_from`].
fn find_line(lines: &Vec<String>, target: &str) -> (r: Option<usize>)
    ensures
        r matches Some(i) ==> i < lines@.len() && i as int == first_line_from(
            lines.deep_view(),
            target@,
            0,
        ),
        r is None ==> first_line_from(lines.deep_view(), target@, 0) == -1,
{
    let ghost lv = lines.deep_view();
    let n = lines.len();
    let mut i: usize = 0;
    while i < n
        invariant
            n == lines@.len(),
            lv == lines.deep_view(),
            i <= n,
            first_line_from(lv, target@, 0) == first_line_from(lv, target@, i as int),
        decreases n - i,
    {
        proof {
            assert(lv[i as int] == lines@[i as int]@);
        }
        if text::str_eq(lines[i].as_str(), target) {
            return Some(i);
        }
        i += 1;
    }
    None
}

impl Purchase {
    /// Assembles a purchase from its plain fields.
    pub fn new(email: &str, amount_in_cents: u64, merchant: &str, timestamp: i64) -> (r: Purchase)
        ensures
            r@ == (PurchaseModel {
                user_email: email@,
                amount_in_cents: amount_in_cents as int,
                merchant: merchant@,
                timestamp: timestamp as int,
            }),
    {
        Purchase {
            user_email: String::from_str(email),
            amount_in_cents,
            merchant: String::from_str(merchant),
            timestamp,
        }
    }

    /// The user to which this purchase belongs.
    pub fn get_user_email(&self) -> (r: &str)
        ensures
            r@ == self@.user_email,
    {
        self.user_email.as_str()
    }

    /// The purchase amount in cents.
    pub fn get_amount_in_cents(&self) -> (r: u64)
        ensures
            r as int == self@.amount_in_cents,
    {
        self.amount_in_cents
    }

    /// The name of the merchant for this purchase.
    pub fn get_merchant(&self) -> (r: &str)
        ensures
            r@ == self@.merchant,
    {
        self.merchant.as_str()
    }

    /// The Unix timestamp at which this purchase occurred.
    pub fn get_timestamp(&self) -> (r: i64)
        ensures
            r as int == self@.timestamp,
    {
        self.timestamp
    }

    /// Extracts a purchase from an email, pinned to [`extract_purchase`].
    pub fn try_from(input: &Email) -> (r: Result<Purchase, PurchaseError>)
        ensures
            purchase_result_view(r) == extract_purchase(input@),
    {
        let body = match input.get_body() {
            Some(b) => b,
            None => {
                return Err(PurchaseError::ParsingError("Missing body"));
            },
        };
        let lines = text::clean_lines(body);
        let format = classify_sender(input.get_from());
        let (merchant, amount_idx): (usize, usize);
        if matches!(format, Some(BankFormat::ChaseFormat)) {
            let mi = match find_line(&lines, "Merchant") {
                Some(i) => i,
                None => {
                    return Err(PurchaseError::ParsingError("Merchant"));
                },
            };
            if mi >= lines.len() - 1 {
                return Err(PurchaseError::ParsingError("Merchant"));
            }
            let ai = match find_line(&lines, "Amount") {
                Some(i) => i,
                None => {
                    return Err(PurchaseError::InvalidPurchaseAmount);
                },
            };
            if ai >= lines.len() - 1 {
                return Err(PurchaseError::InvalidPurchaseAmount);
            }
            merchant = mi + 1;
            amount_idx = ai + 1;
        } else if matches!(format, Some(BankFormat::SchwabFormat)) {
            let ai = match find_line(&lines, "Amount") {
                Some(i) => i,
                None => {
                    return Err(PurchaseError::ParsingError("Merchant"));
                },
            };
            if ai >= lines.len() - 1 {
                return Err(PurchaseError::ParsingError("Merchant"));
            }
            if ai >= lines.len() - 2 {
                return Err(PurchaseError::InvalidPurchaseAmount);
            }
            merchant = ai + 1;
            amount_idx = ai + 2;
        } else {
            return Err(PurchaseError::UnknownSender);
        }
        proof {
            assert(lines.deep_view()[merchant as int] == lines@[merchant as int]@);
            assert(lines.deep_view()[amount_idx as int] == lines@[amount_idx as int]@);
        }
        let amount = match currency::dollar_string_to_cents(lines[amount_idx].as_str()) {
            Ok(v) => v,
            Err(_) => {
                return Err(PurchaseError::InvalidPurchaseAmount);
            },
        };
        let timestamp = match input.get_timestamp() {
            Ok(t) => t,
            Err(_) => {
                return Err(PurchaseError::ParsingError("Date"));
            },
        };
        Ok(
            Purchase {
                user_email: String::from_str(input.get_to()),
                amount_in_cents: amount,
                merchant: String::from_str(lines[merchant].as_str()),
                timestamp,
            },
        )
    }
}

/// Law: a successfully extracted purchase is well formed — its merchant
/// name is one of the cleaned body lines and therefore non-empty, and its
/// cent amount is non-negative and fits a `u64`.
pub proof fn lemma_purchase_well_formed(e: EmailModel)
    requires
        extract_purchase(e) is Ok,
    ensures
        ({
            let p = extract_purchase(e)->Ok_0;
            &&& p.merchant.len() > 0
            &&& 0 <= p.amount_in_cents <= u64::MAX as int
        }),
{
    let body = resolved_body(e).unwrap();
    let lines = text::clean_lines_spec(body);
    if bank_format_of(e.from) == Some(BankFormat::ChaseFormat) {
        let mi = first_line_from(lines, "Merchant"@, 0);
        text::lemma_clean_split_nonempty(body, '\n', mi + 1);
    } else {
        let ai = first_line_from(lines, "Amount"@, 0);
        text::lemma_clean_split_nonempty(body, '\n', ai + 1);
    }
    let p = extract_purchase(e)->Ok_0;
    assert(0 <= p.amount_in_cents) by {
        let fields = if bank_format_of(e.from) == Some(BankFormat::ChaseFormat) {
            chase_fields(lines)
        } else {
            schwab_fields(lines)
        };
        let amount_line = fields->Ok_0.1;
        let rest = amount_line.skip(1);
        let dot = text::find_sub_spec(rest, seq!['.']);
        currency::lemma_digits_val_nonneg(rest.take(dot));
        currency::lemma_digits_val_nonneg(rest.skip(dot + 1));
    }
}

} // verus!
