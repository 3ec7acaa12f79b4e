//! Exact character-level comparisons on strings, and case folding.
use vstd::prelude::*;
use vstd::string::StrSliceExecFns;

verus! {

/// `p` is a prefix of `s`.
pub open spec fn is_prefix_of(p: Seq<char>, s: Seq<char>) -> bool {
    p.len() <= s.len() && s.subrange(0, p.len() as int) == p
}

/// `p` is a suffix of `s`.
pub open spec fn is_suffix_of(p: Seq<char>, s: Seq<char>) -> bool {
    p.len() <= s.len() && s.subrange(s.len() - p.len(), s.len() as int) == p
}

/// Whether the characters of `s` from `offset` on begin with `p`.
fn matches_at(s: &str, offset: usize, p: &str) -> (r: bool)
    requires
        offset + p@.len() <= s@.len(),
    ensures
        r == (s@.subrange(offset as int, offset + p@.len()) == p@),
{
    let n = p.unicode_len();
    let total = s.unicode_len();
    let mut i: usize = 0;
    while i < n
        invariant
            n == p@.len(),
            total == s@.len(),
            offset + n <= s@.len(),
            0 <= i <= n,
            forall|k: int| 0 <= k < i ==> s@[offset + k] == p@[k],
        decreases n - i,
    {
        if s.get_char(offset + i) != p.get_char(i) {
            assert(s@.subrange(offset as int, offset + p@.len())[i as int] != p@[i as int]);
            return false;
        }
        i = i + 1;
    }
    assert(s@.subrange(offset as int, offset + p@.len()) =~= p@);
    true
}

/// Whether the two strings hold the same characters.
pub fn same_text(a: &str, b: &str) -> (r: bool)
    ensures
        r == (a@ == b@),
{
    if a.unicode_len() != b.unicode_len() {
        return false;
    }
    let r = matches_at(a, 0, b);
    assert(a@.subrange(0, b@.len() as int) =~= a@);
    r
}

/// Whether `s` starts with `p`.
pub fn has_prefix(s: &str, p: &str) -> (r: bool)
    ensures
        r == is_prefix_of(p@, s@),
{
    if p.unicode_len() > s.unicode_len() {
        return false;
    }
    matches_at(s, 0, p)
}

/// Whether `s` ends with `p`.
pub fn has_suffix(s: &str, p: &str) -> (r: bool)
    ensures
        r == is_suffix_of(p@, s@),
{
    let n = s.unicode_len();
    let m = p.unicode_len();
    if m > n {
        return false;
    }
    matches_at(s, n - m, p)
}

/// What `str::to_lowercase` makes of a string of characters.
pub uninterp spec fn lowercase_of(s: Seq<char>) -> Seq<char>;

/// Relies on `str::to_lowercase`: full Unicode lowercase mapping, a function
/// of the characters alone.
#[verifier::external_body]
pub(crate) fn to_lowercase(s: &str) -> (r: String)
    ensures
        r@ == lowercase_of(s@),
{
    s.to_lowercase()
}

} // verus!
