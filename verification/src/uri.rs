//! Absolute http(s) URLs, held as validated text.

use vstd::prelude::*;
use crate::text::{push_str, starts_with};

verus! {

/// Whether `url::Url::parse` accepts the text; names the verdict of
/// `validator::validate_url`, a function of the characters alone.
pub uninterp spec fn is_url(s: Seq<char>) -> bool;

/// Relies on `validator::validate_url`: true exactly when the text parses
/// as a URL.
#[verifier::external_body]
fn check_url(s: &String) -> (r: bool)
    ensures
        r == is_url(s@),
{
    validator::validate_url(s.as_str())
}

/// Whether the text begins with `http://` or `https://`.
pub open spec fn has_http_scheme(s: Seq<char>) -> bool {
    ||| s.len() >= "http://"@.len() && s.subrange(0, "http://"@.len() as int) == "http://"@
    ||| s.len() >= "https://"@.len() && s.subrange(0, "https://"@.len() as int) == "https://"@
}

/// What `Uri::parse` accepts: a parseable URL under an http(s) scheme.
pub open spec fn uri_acceptable(s: Seq<char>) -> bool {
    is_url(s) && has_http_scheme(s)
}

/// An absolute http(s) URL. Values exist only through `parse`, so every
/// `Uri` satisfies `uri_acceptable` of its text.
#[derive(Debug)]
pub struct Uri {
    text: String,
}

impl View for Uri {
    type V = Seq<char>;

    closed spec fn view(&self) -> Seq<char> {
        self.text@
    }
}

impl Clone for Uri {
    fn clone(&self) -> (r: Self)
        ensures
            r == *self,
    {
        Uri { text: self.text.clone() }
    }
}

impl Uri {
    /// Accepts the text exactly when it parses as a URL and carries an
    /// http(s) scheme; rejected text comes back inside the error message.
    pub fn parse(s: String) -> (r: Result<Uri, String>)
        ensures
            r is Ok <==> uri_acceptable(s@),
            r is Ok ==> r->Ok_0@ == s@ && r->Ok_0.wf(),
            r is Err ==> r->Err_0@ == s@ + " is not a valid URI."@,
    {
        if check_url(&s) && (starts_with(s.as_str(), "http://") || starts_with(s.as_str(), "https://")) {
            Ok(Uri { text: s })
        } else {
            let mut msg = s;
            push_str(&mut msg, " is not a valid URI.");
            Err(msg)
        }
    }

    /// Hands the text back.
    pub fn into_inner(self) -> (r: String)
        ensures
            r@ == self@,
    {
        self.text
    }

    /// Reads the text without giving the value up.
    pub fn as_str(&self) -> (r: &str)
        ensures
            r@ == self@,
    {
        self.text.as_str()
    }

    /// Every value of the type carries acceptable text.
    pub open spec fn wf(&self) -> bool {
        uri_acceptable(self@)
    }
}

} // verus!
