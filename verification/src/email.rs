//! Email addresses, held as validated text.

use vstd::prelude::*;
use crate::text::push_str;

verus! {

/// Whether the text is a valid email address under the HTML5 rules; names
/// the verdict of `validator::validate_email`, a function of the characters
/// alone.
pub uninterp spec fn is_email(s: Seq<char>) -> bool;

/// Relies on `validator::validate_email`: true exactly when the text is a
/// valid email address; an empty text is never one.
#[verifier::external_body]
fn check_email(s: &String) -> (r: bool)
    ensures
        r == is_email(s@),
        s@.len() == 0 ==> !r,
{
    validator::validate_email(s.as_str())
}

/// A valid email address. Values exist only through `parse`, so every
/// `Email` satisfies `is_email` of its text.
#[derive(Debug)]
pub struct Email {
    text: String,
}

impl View for Email {
    type V = Seq<char>;

    closed spec fn view(&self) -> Seq<char> {
        self.text@
    }
}

impl Clone for Email {
    fn clone(&self) -> (r: Self)
        ensures
            r == *self,
    {
        Email { text: self.text.clone() }
    }
}

impl Email {
    /// Accepts the text exactly when it is a valid email address; rejected
    /// text comes back inside the error message.
    pub fn parse(s: String) -> (r: Result<Email, String>)
        ensures
            r is Ok <==> is_email(s@),
            r is Ok ==> r->Ok_0@ == s@ && r->Ok_0.wf(),
            r is Err ==> r->Err_0@ == s@ + " is not a valid email string."@,
    {
        if check_email(&s) {
            Ok(Email { text: s })
        } else {
            let mut msg = s;
            push_str(&mut msg, " is not a valid email string.");
            Err(msg)
        }
    }

    /// Hands the text back.
    pub fn into_inner(self) -> (r: String)
        ensures
            r@ == self@,
    {
        self.text
    }

    /// Reads the text without giving the value up.
    pub fn as_str(&self) -> (r: &str)
        ensures
            r@ == self@,
    {
        self.text.as_str()
    }

    /// Whether two addresses hold the same text.
    pub fn same_as(&self, other: &Email) -> (r: bool)
        ensures
            r == (self@ == other@),
    {
        self.text == other.text
    }

    /// Every value of the type carries a valid address.
    pub open spec fn wf(&self) -> bool {
        is_email(self@)
    }
}

/// Whether some address in `s` carries the text `t`.
pub open spec fn has_address(s: Seq<Email>, t: Seq<char>) -> bool {
    exists|j: int| 0 <= j < s.len() && s[j]@ == t
}

/// Whether `e` occurs in `s`.
pub open spec fn address_among(s: Seq<Email>, e: Email) -> bool {
    exists|i: int| 0 <= i < s.len() && s[i] == e
}

/// What deduplication leaves: each address's first occurrence, in input
/// order; later repeats fall away.
pub open spec fn spec_dedup(s: Seq<Email>) -> Seq<Email>
    decreases s.len(),
{
    if s.len() == 0 {
        Seq::empty()
    } else {
        let prefix = spec_dedup(s.drop_last());
        if has_address(prefix, s.last()@) {
            prefix
        } else {
            prefix.push(s.last())
        }
    }
}

/// Keeps the first occurrence of every address and drops later repeats,
/// as the sender does before mailing a batch: nobody is invited twice.
pub fn dedup_emails(emails: Vec<Email>) -> (r: Vec<Email>)
    ensures
        r@ == spec_dedup(emails@),
        // every input address is represented
        forall|i: int| 0 <= i < emails@.len() ==> has_address(r@, #[trigger] emails@[i]@),
        // no output address repeats
        forall|j: int, k: int| 0 <= j < k < r@.len() ==> r@[j]@ != r@[k]@,
        // every output address comes from the input
        forall|j: int| 0 <= j < r@.len() ==> address_among(emails@, #[trigger] r@[j]),
{
    let mut out: Vec<Email> = Vec::new();
    let mut i: usize = 0;
    while i < emails.len()
        invariant
            i <= emails@.len(),
            out@ == spec_dedup(emails@.take(i as int)),
            forall|ii: int| 0 <= ii < i ==> has_address(out@, #[trigger] emails@[ii]@),
            forall|j: int, k: int| 0 <= j < k < out@.len() ==> out@[j]@ != out@[k]@,
            forall|j: int| 0 <= j < out@.len() ==> address_among(emails@, #[trigger] out@[j]),
        decreases emails@.len() - i,
    {
        let ghost prev = out@;
        let candidate = &emails[i];
        let mut seen = false;
        let mut j: usize = 0;
        while j < out.len()
            invariant
                j <= out@.len(),
                out@ == prev,
                seen == exists|jj: int| 0 <= jj < j && prev[jj]@ == candidate@,
            decreases out@.len() - j,
        {
            if out[j].same_as(candidate) {
                seen = true;
            }
            j += 1;
        }
        if !seen {
            out.push(candidate.clone());
        }
        proof {
            assert(emails@.take(i + 1).drop_last() == emails@.take(i as int));
            assert(emails@.take(i + 1).last() == emails@[i as int]);
            assert(seen == has_address(prev, emails@[i as int]@));
            assert(out@ == spec_dedup(emails@.take(i + 1)));
            assert forall|ii: int| 0 <= ii < i + 1 implies
                has_address(out@, #[trigger] emails@[ii]@) by {
                if ii < i {
                    let jw = choose|jw: int| 0 <= jw < prev.len() && prev[jw]@ == emails@[ii]@;
                    assert(out@[jw]@ == emails@[ii]@);
                } else if seen {
                    let jw = choose|jw: int| 0 <= jw < prev.len() && prev[jw]@ == candidate@;
                    assert(out@[jw]@ == emails@[ii]@);
                } else {
                    assert(out@[prev.len() as int]@ == emails@[ii]@);
                }
            }
            assert forall|jj: int| 0 <= jj < out@.len() implies
                address_among(emails@, #[trigger] out@[jj]) by {
                if jj >= prev.len() {
                    assert(out@[jj] == emails@[i as int]);
                }
            }
        }
        i += 1;
    }
    proof {
        assert(emails@.take(emails@.len() as int) == emails@);
    }
    out
}

} // verus!
