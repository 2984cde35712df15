//! Trusted boundary to the outside MIME and date parsers.
//!
//! Raw email text is decomposed by the `mailparse` crate and date strings
//! are interpreted by `chrono` and `mailparse`.  Each call stands behind a
//! wrapper whose result is pinned to an uninterpreted name, so that the
//! verified pipeline can state exactly how it uses what the parsers return.

use mailparse::MailHeaderMap;
use vstd::prelude::*;

verus! {

/// One MIME part as the pipeline reads it: the declared `Content-Type`
/// header value, and the decoded body text when decoding succeeds.
pub struct MimePart {
    pub content_type: Option<String>,
    pub body: Option<String>,
}

/// Spec-level image of a [`MimePart`].
pub ghost struct MimePartModel {
    pub content_type: Option<Seq<char>>,
    pub body: Option<Seq<char>>,
}

impl View for MimePart {
    type V = MimePartModel;

    open spec fn view(&self) -> MimePartModel {
        MimePartModel {
            content_type: match self.content_type {
                Some(ct) => Some(ct@),
                None => None,
            },
            body: match self.body {
                Some(b) => Some(b@),
                None => None,
            },
        }
    }
}

/// What one pass of the MIME parser hands the pipeline: header presence and
/// values from the top-level part, plus that part and its direct children.
/// Index 0 of `parts` is the top-level part itself; deeper nesting is
/// deliberately not walked.
pub struct MimeEnvelope {
    pub to_present: bool,
    pub from_present: bool,
    pub date: Option<String>,
    pub message_id: Option<String>,
    pub parts: Vec<MimePart>,
}

/// Spec-level image of a [`MimeEnvelope`].
pub ghost struct MimeEnvelopeModel {
    pub to_present: bool,
    pub from_present: bool,
    pub date: Option<Seq<char>>,
    pub message_id: Option<Seq<char>>,
    pub parts: Seq<MimePartModel>,
}

impl View for MimeEnvelope {
    type V = MimeEnvelopeModel;

    open spec fn view(&self) -> MimeEnvelopeModel {
        MimeEnvelopeModel {
            to_present: self.to_present,
            from_present: self.from_present,
            date: match self.date {
                Some(d) => Some(d@),
                None => None,
            },
            message_id: match self.message_id {
                Some(m) => Some(m@),
                None => None,
            },
            parts: self.parts@.map_values(|p: MimePart| p@),
        }
    }
}

/// What `mailparse` decomposes the raw text into; `None` when `parse_mail`
/// rejects it.  A function of the raw text alone.
pub uninterp spec fn mime_envelope_of(raw: Seq<char>) -> Option<MimeEnvelopeModel>;

/// The flattened address list of the named header of the raw text; `None`
/// when parsing fails or the header is absent.  A function of its arguments
/// alone.
pub uninterp spec fn mime_addresses_of(raw: Seq<char>, header: Seq<char>) -> Option<
    Seq<Seq<char>>,
>;

/// The UTC offset, in seconds, that an RFC 2822 date string carries; `None`
/// when the string is not a valid RFC 2822 date.
pub uninterp spec fn rfc2822_offset_of(date: Seq<char>) -> Option<int>;

/// The Unix timestamp of an RFC 2822 date string as `mailparse::dateparse`
/// reads it; `None` when that parser rejects the string.
pub uninterp spec fn rfc2822_timestamp_of(date: Seq<char>) -> Option<i64>;

/// Relies on `mailparse::parse_mail`, the `MailHeaderMap` lookups
/// `get_first_header` and `get_first_value` on the parsed headers, and
/// `ParsedMail::get_body`: decomposes raw MIME text into header facts and
/// the decoded top-level part plus its direct children, in declaration
/// order.
#[verifier::external_body]
pub fn parse_mime(raw: &str) -> (r: Option<MimeEnvelope>)
    ensures
        r is Some <==> mime_envelope_of(raw@) is Some,
        r matches Some(e) ==> e@ == mime_envelope_of(raw@).unwrap(),
{
    let m = mailparse::parse_mail(raw.as_bytes()).ok()?;
    let parts = core::iter::once(&m).chain(m.subparts.iter()).map(|p| MimePart {
        content_type: p.headers.get_first_value("Content-Type"),
        body: p.get_body().ok(),
    }).collect();
    Some(MimeEnvelope {
        to_present: m.headers.get_first_header("To").is_some(),
        from_present: m.headers.get_first_header("From").is_some(),
        date: m.headers.get_first_value("Date"),
        message_id: m.headers.get_first_value("Message-ID"),
        parts,
    })
}

/// Relies on `mailparse::parse_mail` and `mailparse::addrparse_header`:
/// the addresses of the named header, flattened in declaration order, with
/// group members inlined; `None` when the text, the header or its address
/// list does not parse.
#[verifier::external_body]
pub fn parse_mime_addresses(raw: &str, header: &str) -> (r: Option<Vec<String>>)
    ensures
        r is Some <==> mime_addresses_of(raw@, header@) is Some,
        r matches Some(v) ==> v.deep_view() == mime_addresses_of(raw@, header@).unwrap(),
{
    let m = mailparse::parse_mail(raw.as_bytes()).ok()?;
    let h = m.headers.get_first_header(header)?;
    let l = mailparse::addrparse_header(h).ok()?;
    Some(l.into_inner().into_iter().flat_map(|a| match a {
        mailparse::MailAddr::Group(g) => g.addrs.into_iter().map(|s| s.addr).collect::<Vec<_>>(),
        mailparse::MailAddr::Single(s) => vec![s.addr],
    }).collect())
}

/// Relies on `chrono::DateTime::parse_from_rfc2822` and
/// `FixedOffset::local_minus_utc`: the date's offset from UTC in seconds,
/// `None` exactly when the string is not a valid RFC 2822 date.
#[verifier::external_body]
pub fn parse_rfc2822_offset(date: &str) -> (r: Option<i32>)
    ensures
        r is Some <==> rfc2822_offset_of(date@) is Some,
        r matches Some(o) ==> o as int == rfc2822_offset_of(date@).unwrap(),
{
    chrono::DateTime::parse_from_rfc2822(date).ok().map(|d| d.offset().local_minus_utc())
}

/// Relies on `mailparse::dateparse`: the Unix timestamp of the date string,
/// `None` exactly when that parser rejects it.
#[verifier::external_body]
pub fn parse_rfc2822_timestamp(date: &str) -> (r: Option<i64>)
    ensures
        r == rfc2822_timestamp_of(date@),
{
    mailparse::dateparse(date).ok()
}

} // verus!
