//! Small text helpers shared by the domain types: appending to a `String`
//! and a character-level prefix test.

use vstd::prelude::*;

verus! {

/// Relies on `String::push_str`: appends the characters of `suffix` to `out`.
#[verifier::external_body]
pub(crate) fn push_str(out: &mut String, suffix: &str)
    ensures
        final(out)@ == old(out)@ + suffix@,
{
    out.push_str(suffix)
}

/// Whether `s` begins with the characters of `prefix`.
pub(crate) fn starts_with(s: &str, prefix: &str) -> (r: bool)
    ensures
        r == (s@.len() >= prefix@.len() && s@.subrange(0, prefix@.len() as int) == prefix@),
{
    let n = prefix.unicode_len();
    let m = s.unicode_len();
    if m < n {
        return false;
    }
    let mut i: usize = 0;
    while i < n
        invariant
            i <= n,
            n == prefix@.len(),
            m == s@.len(),
            n <= m,
            forall|j: int| 0 <= j < i ==> s@[j] == prefix@[j],
        decreases n - i,
    {
        if s.get_char(i) != prefix.get_char(i) {
            proof {
                assert(s@.subrange(0, n as int)[i as int] == s@[i as int]);
            }
            return false;
        }
        i += 1;
    }
    proof {
        assert(s@.subrange(0, n as int) =~= prefix@);
    }
    true
}

} // verus!
