//! An email queued for delivery: destination, sender, and optional
//! subject and bodies.  The sender is always `alerts` at the configured
//! outbound domain, which callers pass in explicitly.

use vstd::prelude::*;

verus! {

/// An email to be sent to a user.
pub struct OutboundEmail {
    sender: String,
    destination: String,
    subject: Option<String>,
    body: Option<String>,
    body_html: Option<String>,
}

/// Spec-level image of an [`OutboundEmail`].
pub ghost struct OutboundEmailModel {
    pub sender: Seq<char>,
    pub destination: Seq<char>,
    pub subject: Option<Seq<char>>,
    pub body: Option<Seq<char>>,
    pub body_html: Option<Seq<char>>,
}

impl View for OutboundEmail {
    type V = OutboundEmailModel;

    closed spec fn view(&self) -> OutboundEmailModel {
        OutboundEmailModel {
            sender: self.sender@,
            destination: self.destination@,
            subject: match self.subject {
                Some(s) => Some(s@),
                None => None,
            },
            body: match self.body {
                Some(b) => Some(b@),
                None => None,
            },
            body_html: match self.body_html {
                Some(b) => Some(b@),
                None => None,
            },
        }
    }
}

/// The view of an optional text field.
pub open spec fn opt_view(o: Option<&str>) -> Option<Seq<char>> {
    match o {
        Some(s) => Some(s@),
        None => None,
    }
}

impl OutboundEmail {
    /// Assembles an outbound email; the sender is `alerts` at `domain`.
    pub fn new(
        domain: &str,
        to: &str,
        subject: Option<&str>,
        body: Option<&str>,
        body_html: Option<&str>,
    ) -> (r: OutboundEmail)
        ensures
            r@ == (OutboundEmailModel {
                sender: "alerts"@ + domain@,
                destination: to@,
                subject: opt_view(subject),
                body: opt_view(body),
                body_html: opt_view(body_html),
            }),
    {
        let mut sender = String::from_str("alerts");
        sender.append(domain);
        OutboundEmail {
            sender,
            destination: String::from_str(to),
            subject: match subject {
                Some(s) => Some(String::from_str(s)),
                None => None,
            },
            body: match body {
                Some(b) => Some(String::from_str(b)),
                None => None,
            },
            body_html: match body_html {
                Some(b) => Some(String::from_str(b)),
                None => None,
            },
        }
    }

    /// The intended recipient of this email.
    pub fn get_to(&self) -> (r: &str)
        ensures
            r@ == self@.destination,
    {
        self.destination.as_str()
    }

    /// The address this email will be sent from.
    pub fn get_from(&self) -> (r: &str)
        ensures
            r@ == self@.sender,
    {
        self.sender.as_str()
    }

    /// The subject, or the empty string when none was set.
    pub fn get_subject(&self) -> (r: &str)
        ensures
            self@.subject matches Some(s) ==> r@ == s,
            self@.subject is None ==> r@ == Seq::<char>::empty(),
    {
        match &self.subject {
            Some(s) => s.as_str(),
            None => {
                proof {
                    reveal_strlit("");
                    assert(""@ =~= Seq::<char>::empty());
                }
                ""
            },
        }
    }

    /// The plain-text body, or the empty string when none was set.
    pub fn get_body(&self) -> (r: &str)
        ensures
            self@.body matches Some(b) ==> r@ == b,
            self@.body is None ==> r@ == Seq::<char>::empty(),
    {
        match &self.body {
            Some(b) => b.as_str(),
            None => {
                proof {
                    reveal_strlit("");
                    assert(""@ =~= Seq::<char>::empty());
                }
                ""
            },
        }
    }

    /// The HTML body, or the empty string when none was set.
    pub fn get_body_html(&self) -> (r: &str)
        ensures
            self@.body_html matches Some(b) ==> r@ == b,
            self@.body_html is None ==> r@ == Seq::<char>::empty(),
    {
        match &self.body_html {
            Some(b) => b.as_str(),
            None => {
                proof {
                    reveal_strlit("");
                    assert(""@ =~= Seq::<char>::empty());
                }
                ""
            },
        }
    }
}

} // verus!
