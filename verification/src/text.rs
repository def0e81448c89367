//! Small string helpers over `&str` views, used by the parsing and matching
//! logic of the gateway.
use vstd::prelude::*;

verus! {

/// Whether `s` begins with `prefix` (as character sequences).
pub open spec fn seq_starts_with(s: Seq<char>, prefix: Seq<char>) -> bool {
    prefix.len() <= s.len() && s.subrange(0, prefix.len() as int) =~= prefix
}

/// Whether `needle` occurs somewhere in `s`.
pub open spec fn seq_contains(s: Seq<char>, needle: Seq<char>) -> bool {
    exists|i: int|
        0 <= i && i + needle.len() <= s.len() && #[trigger] s.subrange(i, i + needle.len())
            =~= needle
}

/// Character-wise equality of two string slices.
pub fn str_eq(a: &str, b: &str) -> (r: bool)
    ensures
        r == (a@ == b@),
{
    a.to_owned() == b.to_owned()
}

/// Whether `s` has `sub` at character position `at`.
fn matches_at(s: &str, s_len: usize, sub: &str, sub_len: usize, at: usize) -> (r: bool)
    requires
        s_len == s@.len(),
        sub_len == sub@.len(),
        at + sub_len <= s_len,
    ensures
        r == (s@.subrange(at as int, at + sub_len) =~= sub@),
{
    let mut k: usize = 0;
    while k < sub_len
        invariant
            s_len == s@.len(),
            sub_len == sub@.len(),
            at + sub_len <= s_len,
            k <= sub_len,
            forall|j: int| 0 <= j < k ==> s@[at + j] == sub@[j],
        decreases sub_len - k,
    {
        if s.get_char(at + k) != sub.get_char(k) {
            assert(s@.subrange(at as int, at + sub_len)[k as int] != sub@[k as int]);
            return false;
        }
        k = k + 1;
    }
    true
}

/// Whether `s` starts with `prefix`.
pub fn starts_with(s: &str, prefix: &str) -> (r: bool)
    ensures
        r == seq_starts_with(s@, prefix@),
{
    let s_len = s.unicode_len();
    let p_len = prefix.unicode_len();
    if p_len > s_len {
        return false;
    }
    matches_at(s, s_len, prefix, p_len, 0)
}

/// Whether `needle` occurs in `s`.
pub fn contains(s: &str, needle: &str) -> (r: bool)
    ensures
        r == seq_contains(s@, needle@),
{
    let s_len = s.unicode_len();
    let n_len = needle.unicode_len();
    if n_len > s_len {
        assert forall|i: int|
            0 <= i && i + needle@.len() <= s@.len() implies !(#[trigger] s@.subrange(
                i,
                i + needle@.len(),
            ) =~= needle@) by {}
        return false;
    }
    let mut i: usize = 0;
    while i <= s_len - n_len
        invariant
            s_len == s@.len(),
            n_len == needle@.len(),
            n_len <= s_len,
            i <= s_len - n_len + 1,
            forall|j: int|
                0 <= j < i ==> !(#[trigger] s@.subrange(j, j + needle@.len()) =~= needle@),
        decreases s_len - n_len + 1 - i,
    {
        if matches_at(s, s_len, needle, n_len, i) {
            assert(s@.subrange(i as int, i + needle@.len()) =~= needle@);
            return true;
        }
        i = i + 1;
    }
    false
}

} // verus!

verus! {

/// The character sequence of an optional string slice.
pub open spec fn opt_str_view(o: Option<&str>) -> Option<Seq<char>> {
    match o {
        Some(s) => Some(s@),
        None => None,
    }
}

/// The character sequence of an optional owned string.
pub open spec fn opt_string_view(o: Option<String>) -> Option<Seq<char>> {
    match o {
        Some(s) => Some(s@),
        None => None,
    }
}

/// Whether a string's characters differ from `key`.
pub open spec fn string_differs(key: Seq<char>) -> spec_fn(String) -> bool {
    |s: String| s@ != key
}

/// The strings of `v` other than `key`, in order.
pub fn strings_without(v: &Vec<String>, key: &str) -> (r: Vec<String>)
    ensures
        r@ == v@.filter(string_differs(key@)),
{
    let mut kept: Vec<String> = Vec::new();
    let mut i: usize = 0;
    while i < v.len()
        invariant
            i <= v@.len(),
            kept@ == v@.take(i as int).filter(string_differs(key@)),
        decreases v@.len() - i,
    {
        assert(v@.take(i + 1) == v@.take(i as int).push(v@[i as int]));
        proof {
            v@.take(i as int).lemma_filter_push(v@[i as int], string_differs(key@));
        }
        if !str_eq(v[i].as_str(), key) {
            kept.push(v[i].clone());
        }
        i = i + 1;
    }
    assert(v@.take(v@.len() as int) == v@);
    kept
}

/// The characters of `s`, in order.
pub fn chars_of(s: &str) -> (v: Vec<char>)
    ensures
        v@ == s@,
{
    let mut v: Vec<char> = Vec::new();
    for c in it: s.chars()
        invariant
            v@ == it.seq().take(it.index() as int),
    {
        v.push(c);
    }
    v
}

} // verus!
