//! Case-sensitive substring matching on text, stated over sequences of characters.

use vstd::prelude::*;
use vstd::std_specs::iter::IteratorSpec;

verus! {

/// `needle` stands in `haystack` at position `at`, character for character.
pub open spec fn occurs_at(haystack: Seq<char>, needle: Seq<char>, at: int) -> bool {
    &&& 0 <= at
    &&& at + needle.len() <= haystack.len()
    &&& haystack.subrange(at, at + needle.len()) == needle
}

/// `needle` is a contiguous part of `haystack`. The empty text is part of every text.
pub open spec fn is_substring(needle: Seq<char>, haystack: Seq<char>) -> bool {
    exists|at: int| occurs_at(haystack, needle, at)
}

/// The characters of `s`, in order.
pub fn chars_of(s: &str) -> (chars: Vec<char>)
    ensures
        chars@ == s@,
{
    broadcast use vstd::string::group_string_axioms;
    let mut chars: Vec<char> = Vec::new();
    let source = s.chars();
    for c in it: source
        invariant
            it.seq() == s@,
            chars@ == s@.take(it.index()),
    {
        chars.push(c);
    }
    chars
}

/// Compares `needle` with the part of `haystack` that starts at `at`.
fn matches_at(haystack: &Vec<char>, needle: &Vec<char>, at: usize) -> (found: bool)
    requires
        at + needle.len() <= haystack.len(),
    ensures
        found == occurs_at(haystack@, needle@, at as int),
{
    let mut k: usize = 0;
    while k < needle.len()
        invariant
            k <= needle.len(),
            at + needle.len() <= haystack.len(),
            forall|j: int| 0 <= j < k ==> haystack@[at + j] == needle@[j],
        decreases needle.len() - k,
    {
        if haystack[at + k] != needle[k] {
            assert(haystack@.subrange(at as int, at + needle.len())[k as int] != needle@[k as int]);
            return false;
        }
        k += 1;
    }
    assert(haystack@.subrange(at as int, at + needle.len()) =~= needle@);
    true
}

/// Case-sensitive substring test: whether `needle` occurs somewhere in `haystack`.
///
/// Characters are compared one by one; no folding, no tokens. An empty `needle`
/// occurs in every text, the empty one included.
pub fn contains(haystack: &str, needle: &str) -> (found: bool)
    ensures
        found == is_substring(needle@, haystack@),
{
    let h = chars_of(haystack);
    let n = chars_of(needle);
    if n.len() == 0 {
        assert(occurs_at(h@, n@, 0)) by {
            assert(h@.subrange(0, 0) =~= n@);
        }
        return true;
    }
    if n.len() > h.len() {
        return false;
    }
    let last: usize = h.len() - n.len();
    let mut at: usize = 0;
    while at <= last
        invariant
            h@ == haystack@,
            n@ == needle@,
            0 < n.len() <= h.len(),
            last == h.len() - n.len(),
            at <= last + 1,
            forall|p: int| 0 <= p < at ==> !occurs_at(h@, n@, p),
        decreases last + 1 - at,
    {
        if matches_at(&h, &n, at) {
            return true;
        }
        at += 1;
    }
    false
}

} // verus!
