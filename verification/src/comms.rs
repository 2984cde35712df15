//! Bodies of the emails this service sends to its users.

use crate::currency;
use vstd::prelude::*;

verus! {

/// The welcome email body, built around the user's bank-alert address.
pub open spec fn welcome_body_spec(bank: Seq<char>) -> Seq<char> {
    "You are receiving this email because you signed up for the whotookmy.money service\n"@
        + "You'll receive an email every week detailing where you money has gone.\n"@
        + "Here is your bank alert email address: "@ + bank + "\n"@
        + "Use that to register for online banking alerts\n"@
}

/// Subject and body of the welcome email for a new user.
pub fn welcome_email(bank_alert_email: &str) -> (r: (String, String))
    ensures
        r.0@ == "Welcome!"@,
        r.1@ == welcome_body_spec(bank_alert_email@),
{
    let subject = String::from_str("Welcome!");
    let mut body = String::from_str(
        "You are receiving this email because you signed up for the whotookmy.money service\n",
    );
    body.append("You'll receive an email every week detailing where you money has gone.\n");
    body.append("Here is your bank alert email address: ");
    body.append(bank_alert_email);
    body.append("\n");
    body.append("Use that to register for online banking alerts\n");
    proof {
        assert(body@ =~= welcome_body_spec(bank_alert_email@));
    }
    (subject, body)
}

/// The spec view of a list of amount/label pairs.
pub open spec fn pairs_view(v: Seq<(u64, String)>) -> Seq<(u64, Seq<char>)> {
    v.map_values(|p: (u64, String)| (p.0, p.1@))
}

/// One `label: $amount` line per pair, in order.
pub open spec fn amount_lines_spec(items: Seq<(u64, Seq<char>)>) -> Seq<char>
    decreases items.len(),
{
    if items.len() == 0 {
        Seq::empty()
    } else {
        items[0].1 + ": "@ + currency::dollar_string_of(items[0].0 as int) + "\n"@
            + amount_lines_spec(items.skip(1))
    }
}

/// The purchase-digest body: the total, then the top purchases, then the
/// favourite merchants, one dollar-amount line each.
pub open spec fn digest_body_spec(
    total: int,
    purchases: Seq<(u64, Seq<char>)>,
    merchants: Seq<(u64, Seq<char>)>,
) -> Seq<char> {
    "Total Spent this period: "@ + currency::dollar_string_of(total) + "\n"@
        + "Your Top Purchases:\n"@ + amount_lines_spec(purchases) + "Your Favorite Merchants:\n"@
        + amount_lines_spec(merchants)
}

/// Renders one line per amount/label pair, pinned to [`amount_lines_spec`].
fn amount_lines(items: &Vec<(u64, String)>) -> (r: String)
    ensures
        r@ == amount_lines_spec(pairs_view(items@)),
{
    let ghost pv = pairs_view(items@);
    let mut out = String::new();
    let n = items.len();
    let mut i: usize = 0;
    proof {
        assert(pv.skip(0) =~= pv);
        assert(out@ + amount_lines_spec(pv) =~= amount_lines_spec(pv));
    }
    while i < n
        invariant
            n == items@.len(),
            pv == pairs_view(items@),
            i <= n,
            amount_lines_spec(pv) == out@ + amount_lines_spec(pv.skip(i as int)),
        decreases n - i,
    {
        let ghost prev = out@;
        proof {
            assert(pv.skip(i as int)[0] == pv[i as int]);
            assert(pv[i as int] == (items@[i as int].0, items@[i as int].1@));
            assert(pv.skip(i as int).skip(1) =~= pv.skip(i + 1));
        }
        let amount = currency::cents_to_dollar_string(items[i].0);
        out.append(items[i].1.as_str());
        out.append(": ");
        out.append(amount.as_str());
        out.append("\n");
        proof {
            assert(prev + (items@[i as int].1@ + ": "@ + currency::dollar_string_of(
                items@[i as int].0 as int,
            ) + "\n"@ + amount_lines_spec(pv.skip(i + 1))) =~= out@ + amount_lines_spec(
                pv.skip(i + 1),
            ));
        }
        i += 1;
    }
    proof {
        assert(pv.skip(n as int) =~= Seq::<(u64, Seq<char>)>::empty());
        assert(out@ + Seq::<char>::empty() =~= out@);
    }
    out
}

/// Subject and body of the weekly purchase digest email.
pub fn purchase_digest(
    total_spent: u64,
    top_purchases: &Vec<(u64, String)>,
    top_merchants: &Vec<(u64, String)>,
) -> (r: (String, String))
    ensures
        r.0@ == "Your Weekly Purchase Digest"@,
        r.1@ == digest_body_spec(
            total_spent as int,
            pairs_view(top_purchases@),
            pairs_view(top_merchants@),
        ),
{
    let subject = String::from_str("Your Weekly Purchase Digest");
    let total = currency::cents_to_dollar_string(total_spent);
    let purchases_str = amount_lines(top_purchases);
    let merchants_str = amount_lines(top_merchants);
    let mut body = String::from_str("Total Spent this period: ");
    body.append(total.as_str());
    body.append("\n");
    body.append("Your Top Purchases:\n");
    body.append(purchases_str.as_str());
    body.append("Your Favorite Merchants:\n");
    body.append(merchants_str.as_str());
    proof {
        assert(body@ =~= digest_body_spec(
            total_spent as int,
            pairs_view(top_purchases@),
            pairs_view(top_merchants@),
        ));
    }
    (subject, body)
}

} // verus!
