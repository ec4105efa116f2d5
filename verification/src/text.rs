//! Text predicates: verified substring search, and the two opaque
//! text capabilities this core relies on — a URL-syntax validator and
//! a fixed-pattern email matcher.

use vstd::prelude::*;

verus! {

/// `p` occurs in `t` as a contiguous run of characters.
pub open spec fn has_substring(t: Seq<char>, p: Seq<char>) -> bool {
    exists|i: int| 0 <= i && i + p.len() <= t.len() && #[trigger] t.subrange(i, i + p.len() as int)
        == p
}

/// Whether `p` matches `t` exactly at offset `i`.
fn match_at(t: &str, p: &str, i: usize, t_len: usize, p_len: usize) -> (r: bool)
    requires
        t_len == t@.len(),
        p_len == p@.len(),
        i + p_len <= t_len,
    ensures
        r == (t@.subrange(i as int, i + p@.len() as int) == p@),
{
    let mut j: usize = 0;
    while j < p_len
        invariant
            t_len == t@.len(),
            p_len == p@.len(),
            i + p_len <= t_len,
            j <= p_len,
            forall|k: int| 0 <= k < j ==> t@[i + k] == p@[k],
        decreases p_len - j,
    {
        if t.get_char(i + j) != p.get_char(j) {
            proof {
                assert(t@.subrange(i as int, i + p@.len() as int)[j as int] != p@[j as int]);
            }
            return false;
        }
        j = j + 1;
    }
    proof {
        assert(t@.subrange(i as int, i + p@.len() as int) =~= p@);
    }
    true
}

/// Verified substring search: whether `p` occurs anywhere in `t`.
pub fn contains_sub(t: &str, p: &str) -> (r: bool)
    ensures
        r == has_substring(t@, p@),
{
    let t_len = t.unicode_len();
    let p_len = p.unicode_len();
    if p_len > t_len {
        return false;
    }
    if p_len == 0 {
        proof {
            assert(t@.subrange(0, 0 + p@.len() as int) =~= p@);
        }
        return true;
    }
    let bound = t_len - p_len;
    let mut i: usize = 0;
    while i <= bound
        invariant
            t_len == t@.len(),
            p_len == p@.len(),
            p_len <= t_len,
            bound == t_len - p_len,
            1 <= p_len,
            i <= bound + 1,
            forall|k: int| 0 <= k < i ==> #[trigger] t@.subrange(k, k + p@.len() as int) != p@,
        decreases bound + 1 - i,
    {
        if match_at(t, p, i, t_len, p_len) {
            return true;
        }
        i = i + 1;
    }
    false
}

/// What the URL-syntax validator answers for a given string; the
/// verdict is a function of the characters alone.
pub uninterp spec fn url_wellformed(s: Seq<char>) -> bool;

/// Relies on `reqwest::Url::try_from`, which is `url::Url::parse`: a
/// pure syntax check whose verdict depends on the string alone.
#[verifier::external_body]
pub(crate) fn check_url(s: &str) -> (r: bool)
    ensures
        r == url_wellformed(s@),
{
    match reqwest::Url::try_from(s) {
        Ok(_) => true,
        Err(_) => false,
    }
}

/// What the fixed-pattern email matcher answers for a given string;
/// the verdict is a function of the characters alone.
pub uninterp spec fn email_shaped(s: Seq<char>) -> bool;

/// Relies on `regex::Regex::is_match` with the fixed email pattern
/// `^[a-zA-Z0-9._%+-]+@[a-zA-Z0-9.-]+\.[a-zA-Z]{2,}$`; the pattern is
/// a valid constant, so compilation cannot fail, and the verdict
/// depends on the candidate string alone.
#[verifier::external_body]
pub(crate) fn check_email(s: &str) -> (r: bool)
    ensures
        r == email_shaped(s@),
{
    let pattern = regex::Regex::new(r"^[a-zA-Z0-9._%+-]+@[a-zA-Z0-9.-]+\.[a-zA-Z]{2,}$").unwrap();
    pattern.is_match(s)
}

} // verus!
