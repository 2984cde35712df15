//! Report generation: the purchase digest and its text rendering.

use crate::currency;
use crate::purchase::{Purchase, PurchaseModel};
use crate::text;
use chrono::Datelike;
use vstd::prelude::*;

verus! {

// ---------------------------------------------------------------------------
// Calendar facts
// ---------------------------------------------------------------------------

/// The calendar facts the renderer needs about a Unix timestamp: year,
/// month (0-based), day of month, and weekday (0 = Monday).  `None` when
/// the timestamp lies outside the date library's range.  A function of the
/// timestamp alone.
pub uninterp spec fn civil_date_of(ts: i64) -> Option<(i64, u8, u8, u8)>;

/// Relies on `chrono`'s `TimeZone::timestamp_opt` for `Utc` and the
/// `Datelike` accessors `year`, `month0` and `day`, plus
/// `Weekday::num_days_from_monday`: the calendar facts of a timestamp.
/// The month, day and weekday bounds are the ones those accessors
/// document; the year fits an `i32`.
#[verifier::external_body]
fn civil_date(ts: i64) -> (r: Option<(i64, u8, u8, u8)>)
    ensures
        r == civil_date_of(ts),
        r matches Some(t) ==> -2147483648 <= t.0 <= 2147483647 && t.1 < 12 && 1 <= t.2 <= 31
            && t.3 < 7,
{
    let d = chrono::TimeZone::timestamp_opt(&chrono::Utc, ts, 0).single()?;
    Some((
        d.year() as i64,
        d.month0() as u8,
        d.day() as u8,
        d.weekday().num_days_from_monday() as u8,
    ))
}

/// The three-letter month name, by 0-based month number.
pub open spec fn month_abbrev(m0: int) -> Seq<char> {
    if m0 == 0 {
        "Jan"@
    } else if m0 == 1 {
        "Feb"@
    } else if m0 == 2 {
        "Mar"@
    } else if m0 == 3 {
        "Apr"@
    } else if m0 == 4 {
        "May"@
    } else if m0 == 5 {
        "Jun"@
    } else if m0 == 6 {
        "Jul"@
    } else if m0 == 7 {
        "Aug"@
    } else if m0 == 8 {
        "Sep"@
    } else if m0 == 9 {
        "Oct"@
    } else if m0 == 10 {
        "Nov"@
    } else {
        "Dec"@
    }
}

/// The three-letter weekday name, 0 being Monday.
pub open spec fn weekday_abbrev(w: int) -> Seq<char> {
    if w == 0 {
        "Mon"@
    } else if w == 1 {
        "Tue"@
    } else if w == 2 {
        "Wed"@
    } else if w == 3 {
        "Thu"@
    } else if w == 4 {
        "Fri"@
    } else if w == 5 {
        "Sat"@
    } else {
        "Sun"@
    }
}

/// A possibly negative number in decimal.
pub open spec fn signed_decimal(n: int) -> Seq<char> {
    if n < 0 {
        seq!['-'] + currency::dec_digits(-n)
    } else {
        currency::dec_digits(n)
    }
}

/// A date as the reports write it: `Tue, 31 May 2022`, with the day
/// unpadded as the date library's own RFC 2822 form writes it.
pub open spec fn format_date_spec(y: int, m0: int, d: int, w: int) -> Seq<char> {
    weekday_abbrev(w) + ", "@ + currency::dec_digits(d) + " "@ + month_abbrev(m0) + " "@
        + signed_decimal(y)
}

/// Formats a timestamp's date, pinned to [`format_date_spec`] over the
/// calendar facts; `None` when the timestamp is out of range.
pub fn format_date(ts: i64) -> (r: Option<String>)
    ensures
        r is Some <==> civil_date_of(ts) is Some,
        r matches Some(s) ==> ({
            let t = civil_date_of(ts).unwrap();
            s@ == format_date_spec(t.0 as int, t.1 as int, t.2 as int, t.3 as int)
        }),
{
    let (y, m0, d, w) = match civil_date(ts) {
        Some(t) => t,
        None => {
            return None;
        },
    };
    let weekday: &str = if w == 0 {
        "Mon"
    } else if w == 1 {
        "Tue"
    } else if w == 2 {
        "Wed"
    } else if w == 3 {
        "Thu"
    } else if w == 4 {
        "Fri"
    } else if w == 5 {
        "Sat"
    } else {
        "Sun"
    };
    let month: &str = if m0 == 0 {
        "Jan"
    } else if m0 == 1 {
        "Feb"
    } else if m0 == 2 {
        "Mar"
    } else if m0 == 3 {
        "Apr"
    } else if m0 == 4 {
        "May"
    } else if m0 == 5 {
        "Jun"
    } else if m0 == 6 {
        "Jul"
    } else if m0 == 7 {
        "Aug"
    } else if m0 == 8 {
        "Sep"
    } else if m0 == 9 {
        "Oct"
    } else if m0 == 10 {
        "Nov"
    } else {
        "Dec"
    };
    let mut out = String::from_str(weekday);
    out.append(", ");
    let day_digits = currency::u64_to_dec(d as u64);
    out.append(day_digits.as_str());
    out.append(" ");
    out.append(month);
    out.append(" ");
    if y < 0 {
        text::push_char(&mut out, '-');
        let year_digits = currency::u64_to_dec((-y) as u64);
        out.append(year_digits.as_str());
    } else {
        let year_digits = currency::u64_to_dec(y as u64);
        out.append(year_digits.as_str());
    }
    proof {
        assert(out@ =~= format_date_spec(y as int, m0 as int, d as int, w as int));
    }
    Some(out)
}

// ---------------------------------------------------------------------------
// The purchase digest
// ---------------------------------------------------------------------------

/// A digest of purchases over a reporting period.
pub struct PurchaseDigest {
    purchase_by_cost: Vec<Purchase>,
    start: i64,
    end: i64,
}

/// Spec-level image of a [`PurchaseDigest`].
pub ghost struct PurchaseDigestModel {
    pub purchases: Seq<PurchaseModel>,
    pub start: i64,
    pub end: i64,
}

impl View for PurchaseDigest {
    type V = PurchaseDigestModel;

    closed spec fn view(&self) -> PurchaseDigestModel {
        PurchaseDigestModel {
            purchases: self.purchase_by_cost@.map_values(|p: Purchase| p@),
            start: self.start,
            end: self.end,
        }
    }
}

/// `u64` addition clamped at the maximum.
pub open spec fn sat_add_u64(a: int, b: int) -> int {
    if a + b > u64::MAX as int {
        u64::MAX as int
    } else {
        a + b
    }
}

/// The cents spent over a purchase list, clamped at the `u64` maximum.
pub open spec fn total_cents(ps: Seq<PurchaseModel>) -> int
    decreases ps.len(),
{
    if ps.len() == 0 {
        0
    } else {
        sat_add_u64(total_cents(ps.drop_last()), ps.last().amount_in_cents)
    }
}

/// One `merchant: $amount` line per purchase, in order.
pub open spec fn digest_lines(ps: Seq<PurchaseModel>) -> Seq<char>
    decreases ps.len(),
{
    if ps.len() == 0 {
        Seq::empty()
    } else {
        ps[0].merchant + ": "@ + currency::dollar_string_of(ps[0].amount_in_cents) + "\n"@
            + digest_lines(ps.skip(1))
    }
}

/// The digest body: the reporting period and total, then one line for each
/// of the three costliest purchases; with no transactions, a notice line
/// and a zero total.
pub open spec fn digest_text_spec(
    m: PurchaseDigestModel,
    start_str: Seq<char>,
    end_str: Seq<char>,
) -> Seq<char> {
    if m.purchases.len() == 0 {
        "No transactions from "@ + start_str + " to "@ + end_str + "\n"@ + "Total spend: "@
            + currency::dollar_string_of(0) + "\n"@
    } else {
        "Purchases from "@ + start_str + " to "@ + end_str + "\n"@ + "Total spend: "@
            + currency::dollar_string_of(total_cents(m.purchases)) + "\n"@ + "Top purchases:\n"@
            + digest_lines(
            if m.purchases.len() > 3 {
                m.purchases.take(3)
            } else {
                m.purchases
            },
        )
    }
}

impl PurchaseDigest {
    /// Creates a new purchase digest report over `[start, end]`; the
    /// purchases are taken to be sorted by cost already.
    pub fn new(purchases: Vec<Purchase>, start: i64, end: i64) -> (r: PurchaseDigest)
        ensures
            r@ == (PurchaseDigestModel {
                purchases: purchases@.map_values(|p: Purchase| p@),
                start,
                end,
            }),
    {
        PurchaseDigest { purchase_by_cost: purchases, start, end }
    }

    /// The list of purchases.
    pub fn get_purchases(&self) -> (r: &Vec<Purchase>)
        ensures
            r@.map_values(|p: Purchase| p@) == self@.purchases,
    {
        &self.purchase_by_cost
    }

    /// The timestamp of the start of this report's period.
    pub fn get_period_start(&self) -> (r: i64)
        ensures
            r == self@.start,
    {
        self.start
    }

    /// The timestamp of the end of this report's period.
    pub fn get_period_end(&self) -> (r: i64)
        ensures
            r == self@.end,
    {
        self.end
    }

    /// An HTML rendering is not offered yet.
    pub fn render_html(&self) -> (r: Option<String>)
        ensures
            r is None,
    {
        None
    }

    /// The report body as it appears in an email, pinned to
    /// [`digest_text_spec`]; `None` when either period bound is out of the
    /// calendar range.
    pub fn render_text(&self) -> (r: Option<String>)
        ensures
            r is Some <==> civil_date_of(self@.start) is Some && civil_date_of(self@.end) is Some,
            r matches Some(s) ==> ({
                let st = civil_date_of(self@.start).unwrap();
                let en = civil_date_of(self@.end).unwrap();
                s@ == digest_text_spec(
                    self@,
                    format_date_spec(st.0 as int, st.1 as int, st.2 as int, st.3 as int),
                    format_date_spec(en.0 as int, en.1 as int, en.2 as int, en.3 as int),
                )
            }),
    {
        let start_str = match format_date(self.start) {
            Some(s) => s,
            None => {
                return None;
            },
        };
        let end_str = match format_date(self.end) {
            Some(s) => s,
            None => {
                return None;
            },
        };
        let ghost pv = self@.purchases;
        let n = self.purchase_by_cost.len();
        let mut out: String;
        if n == 0 {
            out = String::from_str("No transactions from ");
            out.append(start_str.as_str());
            out.append(" to ");
            out.append(end_str.as_str());
            out.append("\n");
            out.append("Total spend: ");
            let zero = currency::cents_to_dollar_string(0);
            out.append(zero.as_str());
            out.append("\n");
            proof {
                assert(out@ =~= digest_text_spec(self@, start_str@, end_str@));
            }
        } else {
            let mut total: u64 = 0;
            let mut i: usize = 0;
            proof {
                assert(pv.take(0) =~= Seq::<PurchaseModel>::empty());
            }
            while i < n
                invariant
                    n == self.purchase_by_cost@.len(),
                    pv == self@.purchases,
                    i <= n,
                    total as int == total_cents(pv.take(i as int)),
                decreases n - i,
            {
                let amt = self.purchase_by_cost[i].get_amount_in_cents();
                proof {
                    assert(pv[i as int] == self.purchase_by_cost@[i as int]@);
                    assert(pv.take(i + 1).drop_last() =~= pv.take(i as int));
                    assert(pv.take(i + 1).last() == pv[i as int]);
                }
                if total > u64::MAX - amt {
                    total = u64::MAX;
                } else {
                    total = total + amt;
                }
                i += 1;
            }
            proof {
                assert(pv.take(n as int) =~= pv);
            }
            out = String::from_str("Purchases from ");
            out.append(start_str.as_str());
            out.append(" to ");
            out.append(end_str.as_str());
            out.append("\n");
            out.append("Total spend: ");
            let total_str = currency::cents_to_dollar_string(total);
            out.append(total_str.as_str());
            out.append("\n");
            out.append("Top purchases:\n");
            let k: usize = if n > 3 {
                3
            } else {
                n
            };
            let ghost shown = if pv.len() > 3 {
                pv.take(3)
            } else {
                pv
            };
            let ghost before_lines = out@;
            let mut j: usize = 0;
            proof {
                assert(shown.skip(0) =~= shown);
            }
            while j < k
                invariant
                    n == self.purchase_by_cost@.len(),
                    pv == self@.purchases,
                    k <= n,
                    k as int == (if pv.len() > 3 {
                        3int
                    } else {
                        pv.len() as int
                    }),
                    shown == (if pv.len() > 3 {
                        pv.take(3)
                    } else {
                        pv
                    }),
                    j <= k,
                    out@ + digest_lines(shown.skip(j as int)) == before_lines + digest_lines(shown),
                decreases k - j,
            {
                proof {
                    assert(shown.skip(j as int)[0] == shown[j as int]);
                    assert(shown[j as int] == pv[j as int]);
                    assert(pv[j as int] == self.purchase_by_cost@[j as int]@);
                    assert(shown.skip(j as int).skip(1) =~= shown.skip(j + 1));
                }
                let ghost prev = out@;
                let p = &self.purchase_by_cost[j];
                let amount_str = currency::cents_to_dollar_string(p.get_amount_in_cents());
                out.append(p.get_merchant());
                out.append(": ");
                out.append(amount_str.as_str());
                out.append("\n");
                proof {
                    assert(prev + (shown[j as int].merchant + ": "@ + currency::dollar_string_of(
                        shown[j as int].amount_in_cents,
                    ) + "\n"@ + digest_lines(shown.skip(j + 1))) =~= out@ + digest_lines(
                        shown.skip(j + 1),
                    ));
                }
                j += 1;
            }
            proof {
                assert(shown.skip(k as int) =~= Seq::<PurchaseModel>::empty());
                assert(out@ + Seq::<char>::empty() =~= out@);
                assert(out@ =~= digest_text_spec(self@, start_str@, end_str@));
            }
        }
        Some(out)
    }
}

} // verus!

verus! {

// ---------------------------------------------------------------------------
// Reports
// ---------------------------------------------------------------------------

/// A user report.
pub enum Report {
    PurchaseDigest(PurchaseDigest),
}

/// Spec-level image of a [`Report`].
pub ghost enum ReportModel {
    PurchaseDigest(PurchaseDigestModel),
}

impl View for Report {
    type V = ReportModel;

    closed spec fn view(&self) -> ReportModel {
        match self {
            Report::PurchaseDigest(d) => ReportModel::PurchaseDigest(d@),
        }
    }
}

/// The digest behind a report.
pub open spec fn report_digest(r: ReportModel) -> PurchaseDigestModel {
    match r {
        ReportModel::PurchaseDigest(d) => d,
    }
}

impl Report {
    /// The report's subject line as it appears in an email.
    pub fn get_subject(&self) -> (r: String)
        ensures
            r@ == "Your Purchase Digest Report is here"@,
    {
        match self {
            Report::PurchaseDigest(_) => String::from_str("Your Purchase Digest Report is here"),
        }
    }

    /// The report's text body, pinned to [`digest_text_spec`] of its
    /// digest.
    pub fn get_text_body(&self) -> (r: Option<String>)
        ensures
            ({
                let m = report_digest(self@);
                &&& (r is Some <==> civil_date_of(m.start) is Some && civil_date_of(m.end)
                    is Some)
                &&& (r matches Some(s) ==> ({
                    let st = civil_date_of(m.start).unwrap();
                    let en = civil_date_of(m.end).unwrap();
                    s@ == digest_text_spec(
                        m,
                        format_date_spec(st.0 as int, st.1 as int, st.2 as int, st.3 as int),
                        format_date_spec(en.0 as int, en.1 as int, en.2 as int, en.3 as int),
                    )
                }))
            }),
    {
        match self {
            Report::PurchaseDigest(d) => d.render_text(),
        }
    }

    /// The report's HTML body; not offered yet.
    pub fn get_html_body(&self) -> (r: Option<String>)
        ensures
            r is None,
    {
        match self {
            Report::PurchaseDigest(d) => d.render_html(),
        }
    }
}

/// The kinds of report the service supports.
#[derive(Debug, Clone, Copy, PartialEq, Eq, Structural)]
pub enum ReportType {
    PurchaseDigest,
}

/// An error converting a string to [`ReportType`]; carries the upper-cased
/// input that matched nothing.
#[derive(Debug)]
pub struct TryFromReportTypeError(pub String);

impl ReportType {
    /// Parses the stored name of a report type, ASCII-case-insensitively.
    pub fn try_from(i: String) -> (r: Result<ReportType, TryFromReportTypeError>)
        ensures
            r is Ok <==> text::upper_seq(i@) == "PURCHASE_DIGEST"@,
            r matches Ok(t) ==> t == ReportType::PurchaseDigest,
            r matches Err(e) ==> e.0@ == text::upper_seq(i@),
    {
        let u = text::ascii_uppercase(i.as_str());
        if text::str_eq(u.as_str(), "PURCHASE_DIGEST") {
            Ok(ReportType::PurchaseDigest)
        } else {
            Err(TryFromReportTypeError(u))
        }
    }

    /// The stored name of this report type.
    pub fn name(&self) -> (r: &'static str)
        ensures
            r@ == "PURCHASE_DIGEST"@,
    {
        match self {
            ReportType::PurchaseDigest => "PURCHASE_DIGEST",
        }
    }
}

} // verus!
