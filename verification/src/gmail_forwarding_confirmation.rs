//! Handling of the forwarding-confirmation email that Gmail sends.
//!
//! The body must carry a line starting with `Confirmation code:` — the code
//! is that line's last space-separated token — and a line starting with the
//! Gmail settings URL prefix, which is the confirmation URL in full.

use crate::email::{resolved_body, Email, EmailModel};
use crate::text;
use vstd::prelude::*;

verus! {

/// Failure to read an email as a Gmail forwarding confirmation.
#[derive(Debug)]
pub struct TryFromEmailError {}

/// The prefix that marks the confirmation-code line.
pub open spec fn code_line_prefix() -> Seq<char> {
    "Confirmation code:"@
}

/// The prefix that marks the confirmation-URL line.
pub open spec fn url_line_prefix() -> Seq<char> {
    "https://mail-settings.google.com/"@
}

/// The result of parsing a Gmail forwarding confirmation email.
pub struct GmailForwardingConfirmation {
    confirmation_url: String,
    confirmation_code: String,
    user_email: String,
}

/// Spec-level image of a [`GmailForwardingConfirmation`].
pub ghost struct GmailForwardingConfirmationModel {
    pub confirmation_url: Seq<char>,
    pub confirmation_code: Seq<char>,
    pub user_email: Seq<char>,
}

impl View for GmailForwardingConfirmation {
    type V = GmailForwardingConfirmationModel;

    closed spec fn view(&self) -> GmailForwardingConfirmationModel {
        GmailForwardingConfirmationModel {
            confirmation_url: self.confirmation_url@,
            confirmation_code: self.confirmation_code@,
            user_email: self.user_email@,
        }
    }
}

/// The view of an extraction result, for stating contracts.
pub open spec fn confirmation_result_view(
    r: Result<GmailForwardingConfirmation, TryFromEmailError>,
) -> Result<GmailForwardingConfirmationModel, TryFromEmailError> {
    match r {
        Ok(c) => Ok(c@),
        Err(e) => Err(e),
    }
}

/// Index of the first line at or after `i` that starts with `prefix`; -1 if
/// none.
pub open spec fn first_prefixed_line_from(
    lines: Seq<Seq<char>>,
    prefix: Seq<char>,
    i: int,
) -> int
    decreases lines.len() - i + 1,
{
    if i < 0 || i >= lines.len() {
        -1
    } else if text::starts_with_spec(lines[i], prefix) {
        i
    } else {
        first_prefixed_line_from(lines, prefix, i + 1)
    }
}

/// What extracting a confirmation from an email model yields.  A missing
/// body counts as an empty one; either marker line being absent fails the
/// whole extraction with the one error this parser has.
pub open spec fn extract_confirmation(e: EmailModel) -> Result<
    GmailForwardingConfirmationModel,
    TryFromEmailError,
> {
    let body = match resolved_body(e) {
        Some(b) => b,
        None => Seq::empty(),
    };
    let lines = text::clean_lines_spec(body);
    let ci = first_prefixed_line_from(lines, code_line_prefix(), 0);
    let ui = first_prefixed_line_from(lines, url_line_prefix(), 0);
    if ci < 0 {
        Err(TryFromEmailError {  })
    } else if ui < 0 {
        Err(TryFromEmailError {  })
    } else {
        Ok(
            GmailForwardingConfirmationModel {
                confirmation_url: lines[ui],
                confirmation_code: text::last_token_spec(lines[ci], ' '),
                user_email: text::first_token_spec(lines[0], ' '),
            },
        )
    }
}

/// Index of the first line starting with `prefix`, pinned to
/// [`first_prefixed_line_from`].
fn find_prefixed_line(lines: &Vec<String>, prefix: &str) -> (r: Option<usize>)
    ensures
        r matches Some(i) ==> i < lines@.len() && i as int == first_prefixed_line_from(
            lines.deep_view(),
            prefix@,
            0,
        ),
        r is None ==> first_prefixed_line_from(lines.deep_view(), prefix@, 0) == -1,
{
    let ghost lv = lines.deep_view();
    let n = lines.len();
    let mut i: usize = 0;
    while i < n
        invariant
            n == lines@.len(),
            lv == lines.deep_view(),
            i <= n,
            first_prefixed_line_from(lv, prefix@, 0) == first_prefixed_line_from(
                lv,
                prefix@,
                i as int,
            ),
        decreases n - i,
    {
        proof {
            assert(lv[i as int] == lines@[i as int]@);
        }
        if text::starts_with(lines[i].as_str(), prefix) {
            return Some(i);
        }
        i += 1;
    }
    None
}

impl GmailForwardingConfirmation {
    /// Extracts a confirmation from an email, pinned to
    /// [`extract_confirmation`].
    pub fn try_from(parsed: &Email) -> (r: Result<
        GmailForwardingConfirmation,
        TryFromEmailError,
    >)
        ensures
            confirmation_result_view(r) == extract_confirmation(parsed@),
    {
        let body = match parsed.get_body() {
            Some(b) => b,
            None => "",
        };
        proof {
            reveal_strlit("");
            if resolved_body(parsed@) is None {
                assert(body@ =~= Seq::<char>::empty());
            }
        }
        let lines = text::clean_lines(body);
        let ci = match find_prefixed_line(&lines, "Confirmation code:") {
            Some(i) => i,
            None => {
                return Err(TryFromEmailError {  });
            },
        };
        let ui = match find_prefixed_line(&lines, "https://mail-settings.google.com/") {
            Some(i) => i,
            None => {
                return Err(TryFromEmailError {  });
            },
        };
        proof {
            assert(lines.deep_view()[ci as int] == lines@[ci as int]@);
            assert(lines.deep_view()[ui as int] == lines@[ui as int]@);
            assert(lines.deep_view()[0] == lines@[0]@);
        }
        let code = text::last_token(lines[ci].as_str(), ' ');
        let user = text::first_token(lines[0].as_str(), ' ');
        Ok(
            GmailForwardingConfirmation {
                confirmation_url: String::from_str(lines[ui].as_str()),
                confirmation_code: String::from_str(code),
                user_email: String::from_str(user),
            },
        )
    }

    /// The Gmail forwarding confirmation URL.
    pub fn get_confirmation_url(&self) -> (r: &str)
        ensures
            r@ == self@.confirmation_url,
    {
        self.confirmation_url.as_str()
    }

    /// The Gmail forwarding confirmation code.
    pub fn get_confirmation_code(&self) -> (r: &str)
        ensures
            r@ == self@.confirmation_code,
    {
        self.confirmation_code.as_str()
    }

    /// The email address of the user who is forwarding to this service.
    pub fn get_user_email(&self) -> (r: &str)
        ensures
            r@ == self@.user_email,
    {
        self.user_email.as_str()
    }
}

proof fn lemma_first_prefixed_bounds(lines: Seq<Seq<char>>, prefix: Seq<char>, i: int)
    requires
        0 <= i,
    ensures
        first_prefixed_line_from(lines, prefix, i) != -1 ==> i <= first_prefixed_line_from(
            lines,
            prefix,
            i,
        ) < lines.len(),
    decreases lines.len() - i + 1,
{
    if !(i >= lines.len()) && !text::starts_with_spec(lines[i], prefix) {
        lemma_first_prefixed_bounds(lines, prefix, i + 1);
    }
}

/// Law: a successfully extracted confirmation carries a non-empty code
/// and a non-empty URL.
pub proof fn lemma_confirmation_well_formed(e: EmailModel)
    requires
        extract_confirmation(e) is Ok,
    ensures
        ({
            let c = extract_confirmation(e)->Ok_0;
            &&& c.confirmation_code.len() > 0
            &&& c.confirmation_url.len() > 0
        }),
{
    let body = match resolved_body(e) {
        Some(b) => b,
        None => Seq::empty(),
    };
    let lines = text::clean_lines_spec(body);
    let ci = first_prefixed_line_from(lines, code_line_prefix(), 0);
    let ui = first_prefixed_line_from(lines, url_line_prefix(), 0);
    lemma_first_prefixed_bounds(lines, code_line_prefix(), 0);
    lemma_first_prefixed_bounds(lines, url_line_prefix(), 0);
    text::lemma_clean_split_trimmed(body, '\n', ci);
    text::lemma_clean_split_trimmed(body, '\n', ui);
    assert(lines[ci].last() != ' ');
}

} // verus!
