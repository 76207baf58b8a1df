//! Character-level string helpers, each stated over `Seq<char>`.
use vstd::prelude::*;

verus! {

/// Whether `suffix` ends `s`.
pub open spec fn ends_with(s: Seq<char>, suffix: Seq<char>) -> bool {
    suffix.len() <= s.len() && s.subrange(s.len() - suffix.len(), s.len() as int) == suffix
}

/// Whether `prefix` starts `s`.
pub open spec fn starts_with(s: Seq<char>, prefix: Seq<char>) -> bool {
    prefix.len() <= s.len() && s.subrange(0, prefix.len() as int) == prefix
}

/// `s` without `suffix` where `suffix` ends it, else `s` itself.
pub open spec fn strip_suffix(s: Seq<char>, suffix: Seq<char>) -> Seq<char> {
    if ends_with(s, suffix) {
        s.subrange(0, s.len() - suffix.len())
    } else {
        s
    }
}

/// `s` without `prefix` where `prefix` starts it, else `s` itself.
pub open spec fn strip_prefix(s: Seq<char>, prefix: Seq<char>) -> Seq<char> {
    if starts_with(s, prefix) {
        s.subrange(prefix.len() as int, s.len() as int)
    } else {
        s
    }
}

/// `needle` stands in `s` from position `i` on.
pub open spec fn occurs_at(s: Seq<char>, needle: Seq<char>, i: int) -> bool {
    0 <= i && i + needle.len() <= s.len() && s.subrange(i, i + needle.len()) == needle
}

/// `i` is the first position at which `needle` stands in `s`.
pub open spec fn first_occurrence(s: Seq<char>, needle: Seq<char>, i: int) -> bool {
    occurs_at(s, needle, i) && forall|j: int| 0 <= j < i ==> !occurs_at(s, needle, j)
}

/// `s` with the first occurrence of `marker` replaced by `block`; `s` itself
/// where `marker` does not occur.
pub open spec fn splice_first(s: Seq<char>, marker: Seq<char>, block: Seq<char>) -> Seq<char> {
    if exists|i: int| occurs_at(s, marker, i) {
        let i = choose|i: int| first_occurrence(s, marker, i);
        s.subrange(0, i) + block + s.subrange(i + marker.len(), s.len() as int)
    } else {
        s
    }
}

/// Relies on `String::push`: appends one character.
#[verifier::external_body]
pub(crate) fn push_char(s: &mut String, c: char)
    ensures
        final(s)@ == old(s)@.push(c),
{
    s.push(c);
}

/// Whether `needle` stands in `s` at character position `at`.
pub fn matches_at(s: &str, needle: &str, at: usize) -> (r: bool)
    requires
        at <= s@.len(),
    ensures
        r == occurs_at(s@, needle@, at as int),
{
    let n = s.unicode_len();
    let m = needle.unicode_len();
    if m > n - at {
        return false;
    }
    let mut k: usize = 0;
    while k < m
        invariant
            n == s@.len(),
            m == needle@.len(),
            at + m <= n,
            k <= m,
            forall|j: int| 0 <= j < k ==> s@[at + j] == needle@[j],
        decreases m - k,
    {
        if s.get_char(at + k) != needle.get_char(k) {
            assert(s@.subrange(at as int, at + m)[k as int] != needle@[k as int]);
            return false;
        }
        k = k + 1;
    }
    assert(s@.subrange(at as int, at + m) =~= needle@);
    true
}

/// Whether `s` ends with `suffix`.
pub fn has_suffix(s: &str, suffix: &str) -> (r: bool)
    ensures
        r == ends_with(s@, suffix@),
{
    let n = s.unicode_len();
    let m = suffix.unicode_len();
    if m > n {
        return false;
    }
    matches_at(s, suffix, n - m)
}

/// Whether `s` starts with `prefix`.
pub fn has_prefix(s: &str, prefix: &str) -> (r: bool)
    ensures
        r == starts_with(s@, prefix@),
{
    matches_at(s, prefix, 0)
}

/// Copies `s` without `suffix` where `suffix` ends it.
pub fn without_suffix(s: &str, suffix: &str) -> (r: String)
    ensures
        r@ == strip_suffix(s@, suffix@),
{
    let n = s.unicode_len();
    if has_suffix(s, suffix) {
        let m = suffix.unicode_len();
        s.substring_char(0, n - m).to_string()
    } else {
        s.to_string()
    }
}

/// Copies `s` without `prefix` where `prefix` starts it.
pub fn without_prefix(s: &str, prefix: &str) -> (r: String)
    ensures
        r@ == strip_prefix(s@, prefix@),
{
    let n = s.unicode_len();
    if has_prefix(s, prefix) {
        let m = prefix.unicode_len();
        s.substring_char(m, n).to_string()
    } else {
        s.to_string()
    }
}

/// Replaces the first occurrence of `marker` in `template` by `block`; where
/// `marker` does not occur, the template comes back unchanged.
pub fn replace_first(template: &str, marker: &str, block: &str) -> (r: String)
    ensures
        r@ == splice_first(template@, marker@, block@),
{
    let n = template.unicode_len();
    let mut i: usize = 0;
    loop
        invariant
            n == template@.len(),
            i <= n,
            forall|j: int| 0 <= j < i ==> !occurs_at(template@, marker@, j),
        ensures
            forall|j: int| 0 <= j <= n ==> !occurs_at(template@, marker@, j),
        decreases n - i,
    {
        if matches_at(template, marker, i) {
            let m = marker.unicode_len();
            let mut out = template.substring_char(0, i).to_string();
            out.append(block);
            out.append(template.substring_char(i + m, n));
            proof {
                let t = template@;
                let mk = marker@;
                assert(first_occurrence(t, mk, i as int));
                let c = choose|c: int| first_occurrence(t, mk, c);
                if c < i {
                    assert(!occurs_at(t, mk, c));
                } else if c > i {
                    assert(!occurs_at(t, mk, i as int));
                }
            }
            return out;
        }
        if i == n {
            break;
        }
        i = i + 1;
    }
    proof {
        assert forall|j: int| !occurs_at(template@, marker@, j) by {
            if 0 <= j <= n {
            }
        }
    }
    template.to_string()
}

} // verus!
