//! The normalized email model: headers validated, addresses canonicalized,
//! and the display body resolved from the MIME parts.
//!
//! Body resolution prefers a well-formed `text/html` part, stripped of
//! markup, over a `text/plain` part; an email may also have neither.

use crate::mime;
use crate::mime::{MimeEnvelope, MimeEnvelopeModel, MimePart, MimePartModel};
use crate::text;
use vstd::prelude::*;

verus! {

/// An inbound email as the webhook delivers it; only the raw content field
/// is read.  The surrounding application deserializes the webhook payload
/// into this.
pub struct PostmarkInboundEmail {
    pub raw_email: String,
}

/// The bank-alert address under the given outbound domain: users register
/// this address with their bank to have alerts forwarded here.
pub fn get_bank_alert_email(domain: &str) -> (r: String)
    ensures
        r@ == "alerts"@ + domain@,
{
    let mut email = String::from_str("alerts");
    email.append(domain);
    email
}

/// An error turning raw text into an [`Email`].
#[derive(Debug)]
pub enum EmailError {
    /// A required header or body part could not be located or decoded.
    ParsingError,
    /// The `Date` header is not valid RFC 2822, even after dropping a
    /// parenthesized trailer.
    InvalidRfc2822Date,
    /// A `text/html` part lacks an opening or closing `body` tag.
    BadlyFormatted,
}

/// Internal email representation.
pub struct Email {
    to: String,
    from: String,
    rfc2822_date: String,
    tz_offset: i32,
    html_body_stripped: Option<String>,
    text_body: Option<String>,
    message_id: Option<String>,
}

/// Spec-level image of an [`Email`].
pub ghost struct EmailModel {
    pub to: Seq<char>,
    pub from: Seq<char>,
    pub rfc2822_date: Seq<char>,
    pub tz_offset: int,
    pub html_body_stripped: Option<Seq<char>>,
    pub text_body: Option<Seq<char>>,
    pub message_id: Option<Seq<char>>,
}

impl View for Email {
    type V = EmailModel;

    closed spec fn view(&self) -> EmailModel {
        EmailModel {
            to: self.to@,
            from: self.from@,
            rfc2822_date: self.rfc2822_date@,
            tz_offset: self.tz_offset as int,
            html_body_stripped: match self.html_body_stripped {
                Some(h) => Some(h@),
                None => None,
            },
            text_body: match self.text_body {
                Some(t) => Some(t@),
                None => None,
            },
            message_id: match self.message_id {
                Some(m) => Some(m@),
                None => None,
            },
        }
    }
}

// ---------------------------------------------------------------------------
// Tag stripping
// ---------------------------------------------------------------------------

/// The byte-scan tag-stripping rule.  Characters between `'<'` and the next
/// `'>'` are discarded; a `'<'` seen after appended content first emits one
/// newline; a `'>'` outside a tag is ordinary content.  A literal `'<'`
/// inside running text therefore starts tag suppression — a known
/// limitation of the scan, kept deliberately.
pub open spec fn strip_tags_spec(s: Seq<char>, in_tag: bool, saw_content: bool) -> Seq<char>
    decreases s.len(),
{
    if s.len() == 0 {
        Seq::empty()
    } else {
        let c = s[0];
        let rest = s.skip(1);
        if c == '<' {
            (if saw_content {
                seq!['\n']
            } else {
                Seq::empty()
            }) + strip_tags_spec(rest, true, false)
        } else if c == '>' && in_tag {
            strip_tags_spec(rest, false, saw_content)
        } else if !in_tag {
            seq![c] + strip_tags_spec(rest, in_tag, true)
        } else {
            strip_tags_spec(rest, in_tag, saw_content)
        }
    }
}

// ---------------------------------------------------------------------------
// Body region extraction
// ---------------------------------------------------------------------------

/// The opening tag prefix the extractor searches for.
pub open spec fn body_open_pat() -> Seq<char> {
    seq!['<', 'b', 'o', 'd', 'y']
}

/// The closing tag the extractor searches for.
pub open spec fn body_close_pat() -> Seq<char> {
    seq!['<', '/', 'b', 'o', 'd', 'y', '>']
}

/// The slice from the first `<body` through the end of the first `</body>`,
/// when both occur and the close does not end before the open starts.
pub open spec fn html_body_region(s: Seq<char>) -> Option<Seq<char>> {
    let st = text::find_sub_spec(s, body_open_pat());
    let en = text::find_sub_spec(s, body_close_pat());
    if st >= 0 && en >= 0 && en + 7 >= st {
        Some(s.subrange(st, en + 7))
    } else {
        None
    }
}

// ---------------------------------------------------------------------------
// Date normalization
// ---------------------------------------------------------------------------

/// The date value as prepared for parsing: when a `'('` occurs, it and one
/// preceding character onward are discarded; a `'('` at position 0 leaves
/// nothing sensible and is rejected.
pub open spec fn normalized_date(d: Seq<char>) -> Option<Seq<char>> {
    let i = text::find_sub_spec(d, seq!['(']);
    if i < 0 {
        Some(d)
    } else if i >= 1 {
        Some(d.take(i - 1))
    } else {
        None
    }
}

/// The date header is acceptable: its normalized form parses as RFC 2822.
pub open spec fn valid_date(d: Seq<char>) -> bool {
    normalized_date(d) matches Some(nd) && mime::rfc2822_offset_of(nd) is Some
}

// ---------------------------------------------------------------------------
// Content selection
// ---------------------------------------------------------------------------

/// The part declares a content type containing `pat`.
pub open spec fn part_matches(p: MimePartModel, pat: Seq<char>) -> bool {
    p.content_type matches Some(ct) && text::contains_seq(ct, pat)
}

/// Index of the first part at or after `i` whose content type contains
/// `pat`; -1 if none.
pub open spec fn first_part_from(parts: Seq<MimePartModel>, pat: Seq<char>, i: int) -> int
    decreases parts.len() - i + 1,
{
    if i < 0 || i >= parts.len() {
        -1
    } else if part_matches(parts[i], pat) {
        i
    } else {
        first_part_from(parts, pat, i + 1)
    }
}

/// The `text/html` content-type pattern.
pub open spec fn pat_html() -> Seq<char> {
    seq!['t', 'e', 'x', 't', '/', 'h', 't', 'm', 'l']
}

/// The `text/plain` content-type pattern.
pub open spec fn pat_plain() -> Seq<char> {
    seq!['t', 'e', 'x', 't', '/', 'p', 'l', 'a', 'i', 'n']
}

/// How the conversion resolves the two candidate bodies from the parts:
/// the stripped `text/html` body if such a part exists (failing on a part
/// that cannot be decoded or has no `body` tags), and the `text/plain`
/// body verbatim if such a part exists.
pub open spec fn resolve_bodies(parts: Seq<MimePartModel>) -> Result<
    (Option<Seq<char>>, Option<Seq<char>>),
    EmailError,
> {
    let hi = first_part_from(parts, pat_html(), 0);
    let ti = first_part_from(parts, pat_plain(), 0);
    if hi >= 0 && parts[hi].body is None {
        Err(EmailError::ParsingError)
    } else if hi >= 0 && html_body_region(parts[hi].body.unwrap()) is None {
        Err(EmailError::BadlyFormatted)
    } else if ti >= 0 && parts[ti].body is None {
        Err(EmailError::ParsingError)
    } else {
        let html = if hi >= 0 {
            Some(
                strip_tags_spec(html_body_region(parts[hi].body.unwrap()).unwrap(), false, false),
            )
        } else {
            None
        };
        let text_body = if ti >= 0 {
            Some(parts[ti].body.unwrap())
        } else {
            None
        };
        Ok((html, text_body))
    }
}

// ---------------------------------------------------------------------------
// Address canonicalization
// ---------------------------------------------------------------------------

/// The canonical single address of a parsed address list: the last entry,
/// ASCII-lowered.  `None` when the list failed to parse or is empty.
pub open spec fn canonical_address(addrs: Option<Seq<Seq<char>>>) -> Option<Seq<char>> {
    match addrs {
        None => None,
        Some(l) => if l.len() == 0 {
            None
        } else {
            Some(text::lower_seq(l.last()))
        },
    }
}

// ---------------------------------------------------------------------------
// The conversion, as one spec function
// ---------------------------------------------------------------------------

/// What converting a decomposed message yields: every required header must
/// be present, the date must validate, each address list must produce a
/// canonical address, and the bodies must resolve.
pub open spec fn email_of_mime(
    env: MimeEnvelopeModel,
    to_addrs: Option<Seq<Seq<char>>>,
    from_addrs: Option<Seq<Seq<char>>>,
) -> Result<EmailModel, EmailError> {
    if !env.to_present || !env.from_present || env.date is None {
        Err(EmailError::ParsingError)
    } else if !valid_date(env.date.unwrap()) {
        Err(EmailError::InvalidRfc2822Date)
    } else if canonical_address(to_addrs) is None {
        Err(EmailError::ParsingError)
    } else if canonical_address(from_addrs) is None {
        Err(EmailError::ParsingError)
    } else {
        match resolve_bodies(env.parts) {
            Err(e) => Err(e),
            Ok(bodies) => {
                let nd = normalized_date(env.date.unwrap()).unwrap();
                Ok(
                    EmailModel {
                        to: canonical_address(to_addrs).unwrap(),
                        from: canonical_address(from_addrs).unwrap(),
                        rfc2822_date: nd,
                        tz_offset: mime::rfc2822_offset_of(nd).unwrap(),
                        html_body_stripped: bodies.0,
                        text_body: bodies.1,
                        message_id: env.message_id,
                    },
                )
            },
        }
    }
}

/// The view of a conversion result, for stating contracts.
pub open spec fn email_result_view(r: Result<Email, EmailError>) -> Result<
    EmailModel,
    EmailError,
> {
    match r {
        Ok(e) => Ok(e@),
        Err(x) => Err(x),
    }
}

/// The display body an email resolves to: the stripped HTML part when
/// present, otherwise the plain-text part, otherwise nothing.
pub open spec fn resolved_body(m: EmailModel) -> Option<Seq<char>> {
    if m.html_body_stripped is Some {
        m.html_body_stripped
    } else {
        m.text_body
    }
}

// ---------------------------------------------------------------------------
// Executable pipeline
// ---------------------------------------------------------------------------

impl Email {
    /// Strips markup by the byte-scan rule, pinned to [`strip_tags_spec`].
    pub fn strip_tags(input: &str) -> (r: String)
        ensures
            r@ == strip_tags_spec(input@, false, false),
    {
        let n = input.unicode_len();
        let mut out = String::new();
        let mut in_tag = false;
        let mut saw_content = false;
        let mut i: usize = 0;
        proof {
            assert(input@.skip(0) =~= input@);
            assert(out@ + strip_tags_spec(input@, false, false) =~= strip_tags_spec(
                input@,
                false,
                false,
            ));
        }
        while i < n
            invariant
                n == input@.len(),
                i <= n,
                strip_tags_spec(input@, false, false) == out@ + strip_tags_spec(
                    input@.skip(i as int),
                    in_tag,
                    saw_content,
                ),
            decreases n - i,
        {
            let ghost rem = input@.skip(i as int);
            let ghost prev_out = out@;
            proof {
                assert(rem[0] == input@[i as int]);
                assert(rem.skip(1) =~= input@.skip(i + 1));
            }
            let c = input.get_char(i);
            if c == '<' {
                in_tag = true;
                if saw_content {
                    text::push_char(&mut out, '\n');
                    saw_content = false;
                    proof {
                        assert(prev_out + (seq!['\n'] + strip_tags_spec(
                            input@.skip(i + 1),
                            true,
                            false,
                        )) =~= out@ + strip_tags_spec(input@.skip(i + 1), true, false));
                    }
                } else {
                    proof {
                        assert(prev_out + (Seq::<char>::empty() + strip_tags_spec(
                            input@.skip(i + 1),
                            true,
                            false,
                        )) =~= out@ + strip_tags_spec(input@.skip(i + 1), true, false));
                    }
                }
            } else if c == '>' && in_tag {
                in_tag = false;
            } else if !in_tag {
                text::push_char(&mut out, c);
                saw_content = true;
                proof {
                    assert(prev_out + (seq![c] + strip_tags_spec(input@.skip(i + 1), in_tag, true))
                        =~= out@ + strip_tags_spec(input@.skip(i + 1), in_tag, true));
                }
            }
            i += 1;
        }
        proof {
            assert(input@.skip(n as int) =~= Seq::<char>::empty());
            assert(out@ + Seq::<char>::empty() =~= out@);
        }
        out
    }

    /// Cuts the `<body ...> ... </body>` region out of an HTML blob, pinned
    /// to [`html_body_region`].
    pub fn extract_html_body(input: &str) -> (r: Option<&str>)
        ensures
            r is Some <==> html_body_region(input@) is Some,
            r matches Some(b) ==> b@ == html_body_region(input@).unwrap(),
    {
        proof {
            reveal_strlit("<body");
            reveal_strlit("</body>");
            assert("<body"@ =~= body_open_pat());
            assert("</body>"@ =~= body_close_pat());
        }
        let n = input.unicode_len();
        let st = text::find_substring(input, "<body");
        let en = text::find_substring(input, "</body>");
        match (st, en) {
            (Some(si), Some(ei)) => {
                if ei + 7 >= si {
                    let r = input.substring_char(si, ei + 7);
                    proof {
                        assert(r@ =~= input@.subrange(si as int, ei + 7));
                    }
                    Some(r)
                } else {
                    None
                }
            },
            _ => None,
        }
    }
}

/// Normalizes and validates a `Date` header value: a parenthesized trailer
/// and one preceding character are discarded, then the remainder must parse
/// as RFC 2822.  Returns the kept date string and its UTC offset.
fn validate_and_normalize_rfc2822_date(d: &str) -> (r: Option<(String, i32)>)
    ensures
        r is Some <==> valid_date(d@),
        r matches Some(p) ==> normalized_date(d@) == Some(p.0@) && mime::rfc2822_offset_of(p.0@)
            == Some(p.1 as int),
{
    proof {
        reveal_strlit("(");
        assert("("@ =~= seq!['(']);
    }
    let paren = text::find_substring(d, "(");
    let nd: &str = match paren {
        Some(i) => {
            if i == 0 {
                return None;
            }
            let cut = d.substring_char(0, i - 1);
            proof {
                assert(cut@ =~= d@.take(i - 1));
            }
            cut
        },
        None => d,
    };
    proof {
        assert(normalized_date(d@) == Some(nd@));
    }
    match mime::parse_rfc2822_offset(nd) {
        Some(o) => Some((String::from_str(nd), o)),
        None => None,
    }
}

/// Index of the first part whose declared content type contains `pat`,
/// pinned to [`first_part_from`].
fn find_part_index(parts: &Vec<MimePart>, pat: &str) -> (r: Option<usize>)
    ensures
        r matches Some(i) ==> i < parts@.len() && i as int == first_part_from(
            parts@.map_values(|p: MimePart| p@),
            pat@,
            0,
        ),
        r is None ==> first_part_from(parts@.map_values(|p: MimePart| p@), pat@, 0) == -1,
{
    let ghost pv = parts@.map_values(|p: MimePart| p@);
    let n = parts.len();
    let mut i: usize = 0;
    while i < n
        invariant
            n == parts@.len(),
            pv == parts@.map_values(|p: MimePart| p@),
            i <= n,
            first_part_from(pv, pat@, 0) == first_part_from(pv, pat@, i as int),
        decreases n - i,
    {
        proof {
            assert(pv[i as int] == parts@[i as int]@);
        }
        let matched = match &parts[i].content_type {
            Some(ct) => text::contains_str(ct.as_str(), pat),
            None => false,
        };
        if matched {
            return Some(i);
        }
        i += 1;
    }
    None
}

impl Email {
    /// Builds an email model from plain text fields; `body` is taken as the
    /// plain-text body.  Fails exactly when the date does not validate.
    pub fn new(to: &str, from: &str, rfc2822_date: &str, body: &str) -> (r: Result<
        Email,
        EmailError,
    >)
        ensures
            r is Ok <==> valid_date(rfc2822_date@),
            r matches Ok(e) ==> e@ == (EmailModel {
                to: to@,
                from: from@,
                rfc2822_date: normalized_date(rfc2822_date@).unwrap(),
                tz_offset: mime::rfc2822_offset_of(normalized_date(rfc2822_date@).unwrap()).unwrap(),
                html_body_stripped: None,
                text_body: Some(body@),
                message_id: None,
            }),
            r matches Err(e) ==> e is InvalidRfc2822Date,
    {
        match validate_and_normalize_rfc2822_date(rfc2822_date) {
            Some((nd, off)) => Ok(
                Email {
                    to: String::from_str(to),
                    from: String::from_str(from),
                    rfc2822_date: nd,
                    tz_offset: off,
                    html_body_stripped: None,
                    text_body: Some(String::from_str(body)),
                    message_id: None,
                },
            ),
            None => Err(EmailError::InvalidRfc2822Date),
        }
    }

    /// The verified conversion from a decomposed message to the email
    /// model, pinned to [`email_of_mime`] over the given plain values.
    pub fn from_mime(
        env: MimeEnvelope,
        to_addrs: Option<Vec<String>>,
        from_addrs: Option<Vec<String>>,
    ) -> (r: Result<Email, EmailError>)
        ensures
            email_result_view(r) == email_of_mime(
                env@,
                to_addrs.deep_view(),
                from_addrs.deep_view(),
            ),
    {
        let ghost envv = env@;
        let MimeEnvelope { to_present, from_present, date, message_id, parts } = env;
        if !to_present || !from_present {
            return Err(EmailError::ParsingError);
        }
        let date_str = match date {
            Some(d) => d,
            None => {
                return Err(EmailError::ParsingError);
            },
        };
        let (nd, off) = match validate_and_normalize_rfc2822_date(date_str.as_str()) {
            Some(p) => p,
            None => {
                return Err(EmailError::InvalidRfc2822Date);
            },
        };
        let to = match &to_addrs {
            None => {
                return Err(EmailError::ParsingError);
            },
            Some(v) => {
                if v.len() == 0 {
                    return Err(EmailError::ParsingError);
                }
                let last = &v[v.len() - 1];
                proof {
                    assert(v.deep_view()[v@.len() - 1] == last@);
                }
                text::ascii_lowercase(last.as_str())
            },
        };
        let from = match &from_addrs {
            None => {
                return Err(EmailError::ParsingError);
            },
            Some(v) => {
                if v.len() == 0 {
                    return Err(EmailError::ParsingError);
                }
                let last = &v[v.len() - 1];
                proof {
                    assert(v.deep_view()[v@.len() - 1] == last@);
                }
                text::ascii_lowercase(last.as_str())
            },
        };
        let ghost pv = envv.parts;
        proof {
            assert(pv == parts@.map_values(|p: MimePart| p@));
        }
        let hi = find_part_index(&parts, "text/html");
        proof {
            reveal_strlit("text/html");
            assert("text/html"@ =~= pat_html());
        }
        let html_body_stripped: Option<String> = match hi {
            Some(h) => {
                proof {
                    assert(pv[h as int] == parts@[h as int]@);
                }
                match &parts[h].body {
                    None => {
                        return Err(EmailError::ParsingError);
                    },
                    Some(hb) => {
                        match Email::extract_html_body(hb.as_str()) {
                            None => {
                                return Err(EmailError::BadlyFormatted);
                            },
                            Some(region) => Some(Email::strip_tags(region)),
                        }
                    },
                }
            },
            None => None,
        };
        let ti = find_part_index(&parts, "text/plain");
        proof {
            reveal_strlit("text/plain");
            assert("text/plain"@ =~= pat_plain());
        }
        let text_body: Option<String> = match ti {
            Some(t) => {
                proof {
                    assert(pv[t as int] == parts@[t as int]@);
                }
                match &parts[t].body {
                    None => {
                        return Err(EmailError::ParsingError);
                    },
                    Some(tb) => Some(String::from_str(tb.as_str())),
                }
            },
            None => None,
        };
        Ok(
            Email {
                to,
                from,
                rfc2822_date: nd,
                tz_offset: off,
                html_body_stripped,
                text_body,
                message_id,
            },
        )
    }

    /// Parses raw MIME text into the email model.  The outcome is the
    /// verified conversion [`email_of_mime`] applied to what the outside
    /// parser decomposed the text into.
    pub fn try_from(input: &str) -> (r: Result<Email, EmailError>)
        ensures
            match mime::mime_envelope_of(input@) {
                None => r matches Err(e) && e is ParsingError,
                Some(env) => email_result_view(r) == email_of_mime(
                    env,
                    mime::mime_addresses_of(input@, "To"@),
                    mime::mime_addresses_of(input@, "From"@),
                ),
            },
    {
        let env = match mime::parse_mime(input) {
            Some(e) => e,
            None => {
                return Err(EmailError::ParsingError);
            },
        };
        let to_addrs = mime::parse_mime_addresses(input, "To");
        let from_addrs = mime::parse_mime_addresses(input, "From");
        Email::from_mime(env, to_addrs, from_addrs)
    }

    /// The resolved display body: stripped HTML if present, else plain text.
    pub fn get_body(&self) -> (r: Option<&str>)
        ensures
            r is Some <==> resolved_body(self@) is Some,
            r matches Some(b) ==> b@ == resolved_body(self@).unwrap(),
    {
        match &self.html_body_stripped {
            Some(h) => Some(h.as_str()),
            None => match &self.text_body {
                Some(t) => Some(t.as_str()),
                None => None,
            },
        }
    }

    /// The address the email was sent to; with several recipients the last
    /// parsed one was kept.
    pub fn get_to(&self) -> (r: &str)
        ensures
            r@ == self@.to,
    {
        self.to.as_str()
    }

    /// The sender's address.
    pub fn get_from(&self) -> (r: &str)
        ensures
            r@ == self@.from,
    {
        self.from.as_str()
    }

    /// The validated date string as kept from the `Date` header.
    pub fn get_rfc2822_date(&self) -> (r: &str)
        ensures
            r@ == self@.rfc2822_date,
    {
        self.rfc2822_date.as_str()
    }

    /// The date's Unix timestamp, as the date parser reads the kept string.
    pub fn get_timestamp(&self) -> (r: Result<i64, EmailError>)
        ensures
            r matches Ok(t) ==> mime::rfc2822_timestamp_of(self@.rfc2822_date) == Some(t),
            r is Ok <==> mime::rfc2822_timestamp_of(self@.rfc2822_date) is Some,
            r matches Err(e) ==> e is ParsingError,
    {
        match mime::parse_rfc2822_timestamp(self.rfc2822_date.as_str()) {
            Some(t) => Ok(t),
            None => Err(EmailError::ParsingError),
        }
    }

    /// The date's offset from UTC, in seconds.
    pub fn get_tz_offset(&self) -> (r: i32)
        ensures
            r as int == self@.tz_offset,
    {
        self.tz_offset
    }

    /// The `Message-ID` header value, when one was present.
    pub fn get_message_id(&self) -> (r: Option<&str>)
        ensures
            r is Some <==> self@.message_id is Some,
            r matches Some(m) ==> m@ == self@.message_id.unwrap(),
    {
        match &self.message_id {
            Some(m) => Some(m.as_str()),
            None => None,
        }
    }
}

// ---------------------------------------------------------------------------
// Laws of body resolution and date normalization
// ---------------------------------------------------------------------------

/// Law: when the parts include a `text/html` part, a successfully converted
/// email resolves its body to that part's stripped form — never to the
/// `text/plain` part.
pub proof fn lemma_html_takes_priority(
    env: MimeEnvelopeModel,
    to_addrs: Option<Seq<Seq<char>>>,
    from_addrs: Option<Seq<Seq<char>>>,
)
    requires
        email_of_mime(env, to_addrs, from_addrs) is Ok,
        first_part_from(env.parts, pat_html(), 0) >= 0,
    ensures
        ({
            let m = email_of_mime(env, to_addrs, from_addrs)->Ok_0;
            let hi = first_part_from(env.parts, pat_html(), 0);
            resolved_body(m) == Some(
                strip_tags_spec(html_body_region(env.parts[hi].body.unwrap()).unwrap(), false, false),
            )
        }),
{
}

/// Law: with no `text/html` part but a `text/plain` part, a successfully
/// converted email resolves its body to the plain part verbatim.
pub proof fn lemma_plain_text_fallback(
    env: MimeEnvelopeModel,
    to_addrs: Option<Seq<Seq<char>>>,
    from_addrs: Option<Seq<Seq<char>>>,
)
    requires
        email_of_mime(env, to_addrs, from_addrs) is Ok,
        first_part_from(env.parts, pat_html(), 0) < 0,
        first_part_from(env.parts, pat_plain(), 0) >= 0,
    ensures
        ({
            let m = email_of_mime(env, to_addrs, from_addrs)->Ok_0;
            let ti = first_part_from(env.parts, pat_plain(), 0);
            resolved_body(m) == Some(env.parts[ti].body.unwrap())
        }),
{
}

/// Law: with neither a `text/html` nor a `text/plain` part, a successfully
/// converted email has no resolved body.
pub proof fn lemma_no_subpart_no_body(
    env: MimeEnvelopeModel,
    to_addrs: Option<Seq<Seq<char>>>,
    from_addrs: Option<Seq<Seq<char>>>,
)
    requires
        email_of_mime(env, to_addrs, from_addrs) is Ok,
        first_part_from(env.parts, pat_html(), 0) < 0,
        first_part_from(env.parts, pat_plain(), 0) < 0,
    ensures
        resolved_body(email_of_mime(env, to_addrs, from_addrs)->Ok_0) is None,
{
}

/// Law: a date value with a parenthesized trailer normalizes to the bare
/// date, so the annotated and bare forms validate alike and are kept as the
/// same string.
pub proof fn lemma_date_annotation_normalizes(d: Seq<char>, ann: Seq<char>)
    requires
        forall|i: int| 0 <= i < d.len() ==> d[i] != '(',
    ensures
        normalized_date(d + seq![' ', '('] + ann) == Some(d),
        normalized_date(d) == Some(d),
        valid_date(d + seq![' ', '('] + ann) == valid_date(d),
{
    let full = d + seq![' ', '('] + ann;
    let dl = d.len() as int;
    assert(full[dl + 1] == '(');
    assert(full.subrange(dl + 1, dl + 2) =~= seq!['(']);
    assert(text::match_at(full, seq!['('], dl + 1));
    assert forall|j: int| 0 <= j < dl + 1 implies !text::match_at(full, seq!['('], j) by {
        if j + 1 <= full.len() && full.subrange(j, j + 1) == seq!['('] {
            assert(full.subrange(j, j + 1)[0] == full[j]);
            if j < dl {
                assert(full[j] == d[j]);
            } else {
                assert(full[j] == ' ');
            }
        }
    }
    text::lemma_first_match_from(full, seq!['('], 0);
    let fm = text::find_sub_spec(full, seq!['(']);
    if fm == -1 {
        assert(!text::match_at(full, seq!['('], dl + 1));
    }
    if fm < dl + 1 {
        assert(text::match_at(full, seq!['('], fm));
    }
    assert(fm == dl + 1);
    assert(full.take(dl) =~= d);
    text::lemma_first_match_from(d, seq!['('], 0);
    let dm = text::find_sub_spec(d, seq!['(']);
    if dm != -1 {
        assert(text::match_at(d, seq!['('], dm));
        assert(d.subrange(dm, dm + 1)[0] == d[dm]);
    }
    assert(dm == -1);
}

/// Law: a message without a `Date` header never yields an email model; the
/// conversion stops with a parsing error before addresses or bodies are
/// examined.
pub proof fn lemma_missing_date_fails(
    env: MimeEnvelopeModel,
    to_addrs: Option<Seq<Seq<char>>>,
    from_addrs: Option<Seq<Seq<char>>>,
)
    requires
        env.date is None,
    ensures
        email_of_mime(env, to_addrs, from_addrs) == Err::<EmailModel, EmailError>(
            EmailError::ParsingError,
        ),
{
}

} // verus!
