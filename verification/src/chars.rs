//! Character-level utilities shared by the registry codec, discovery and the
//! servod protocol: conversions between `&str`, `Vec<char>` and `String`, and
//! verified substring / prefix / equality checks.

use vstd::prelude::*;
use vstd::string::StrSliceExecFns;

verus! {

/// `prefix` is an initial segment of `s`.
pub open spec fn has_prefix(s: Seq<char>, prefix: Seq<char>) -> bool {
    prefix.len() <= s.len() && s.subrange(0, prefix.len() as int) == prefix
}

/// `hay` holds `needle` as a contiguous run of characters.
pub open spec fn contains_seq(hay: Seq<char>, needle: Seq<char>) -> bool {
    exists|i: int|
        0 <= i && i + needle.len() <= hay.len() && #[trigger] hay.subrange(i, i + needle.len())
            == needle
}

/// The characters of `s`, in order.
pub fn str_to_chars(s: &str) -> (r: Vec<char>)
    ensures
        r@ == s@,
{
    let n = s.unicode_len();
    let mut r: Vec<char> = Vec::new();
    let mut i: usize = 0;
    while i < n
        invariant
            i <= n,
            n == s@.len(),
            r@ == s@.subrange(0, i as int),
        decreases n - i,
    {
        r.push(s.get_char(i));
        assert(r@ =~= s@.subrange(0, i + 1 as int));
        i = i + 1;
    }
    assert(r@ =~= s@);
    r
}

/// Relies on std's `String::push`: appends the given character to the end of
/// the string.
#[verifier::external_body]
fn push_char(s: &mut String, c: char)
    ensures
        final(s)@ == old(s)@.push(c),
{
    s.push(c);
}

/// A `String` whose characters are exactly `v`.
pub fn chars_to_string(v: &Vec<char>) -> (r: String)
    ensures
        r@ == v@,
{
    let mut r = String::new();
    let mut i: usize = 0;
    while i < v.len()
        invariant
            i <= v@.len(),
            r@ == v@.subrange(0, i as int),
        decreases v@.len() - i,
    {
        push_char(&mut r, v[i]);
        assert(r@ =~= v@.subrange(0, i + 1 as int));
        i = i + 1;
    }
    assert(r@ =~= v@);
    r
}

/// Character-wise string equality.
pub fn str_equal(a: &str, b: &str) -> (r: bool)
    ensures
        r == (a@ == b@),
{
    let na = a.unicode_len();
    let nb = b.unicode_len();
    if na != nb {
        return false;
    }
    let mut i: usize = 0;
    while i < na
        invariant
            i <= na,
            na == a@.len(),
            na == b@.len(),
            forall|k: int| 0 <= k < i ==> a@[k] == b@[k],
        decreases na - i,
    {
        if a.get_char(i) != b.get_char(i) {
            return false;
        }
        i = i + 1;
    }
    assert(a@ =~= b@);
    true
}

/// Whether the characters of `s` start, at position `i`, with the characters
/// of `prefix`.
pub fn chars_match_at(s: &Vec<char>, i: usize, prefix: &Vec<char>) -> (r: bool)
    requires
        i <= s@.len(),
    ensures
        r == has_prefix(s@.skip(i as int), prefix@),
{
    if prefix.len() > s.len() - i {
        return false;
    }
    let mut j: usize = 0;
    while j < prefix.len()
        invariant
            j <= prefix@.len(),
            i + prefix@.len() <= s@.len(),
            s@.len() <= usize::MAX,
            forall|k: int| 0 <= k < j ==> s@[i + k] == prefix@[k],
        decreases prefix@.len() - j,
    {
        if s[i + j] != prefix[j] {
            assert(s@.skip(i as int).subrange(0, prefix@.len() as int)[j as int] != prefix@[j as int]);
            return false;
        }
        j = j + 1;
    }
    assert(s@.skip(i as int).subrange(0, prefix@.len() as int) =~= prefix@);
    true
}

/// Whether `hay` contains `needle` as a contiguous run of characters.
pub fn contains_chars(hay: &Vec<char>, needle: &Vec<char>) -> (r: bool)
    ensures
        r == contains_seq(hay@, needle@),
{
    if needle.len() > hay.len() {
        assert(!contains_seq(hay@, needle@));
        return false;
    }
    if needle.len() == 0 {
        assert(contains_seq(hay@, needle@)) by {
            assert(hay@.subrange(0, 0 + needle@.len() as int) =~= needle@);
        }
        return true;
    }
    let last_start = hay.len() - needle.len();
    let mut i: usize = 0;
    while i <= last_start
        invariant
            i <= last_start + 1,
            1 <= needle@.len(),
            last_start + needle@.len() == hay@.len(),
            hay@.len() <= usize::MAX,
            forall|k: int|
                0 <= k < i ==> #[trigger] hay@.subrange(k, k + needle@.len()) != needle@,
        decreases last_start + 1 - i,
    {
        if chars_match_at(hay, i, needle) {
            assert(hay@.subrange(i as int, i + needle@.len()) =~= hay@.skip(i as int).subrange(
                0,
                needle@.len() as int,
            ));
            assert(hay@.subrange(i as int, i + needle@.len()) == needle@);
            assert(contains_seq(hay@, needle@));
            return true;
        }
        assert(hay@.subrange(i as int, i + needle@.len()) =~= hay@.skip(i as int).subrange(
            0,
            needle@.len() as int,
        ));
        i = i + 1;
    }
    false
}

/// Whether the string `s` starts with the characters of `prefix`.
pub fn str_has_prefix(s: &str, prefix: &str) -> (r: bool)
    ensures
        r == has_prefix(s@, prefix@),
{
    let sc = str_to_chars(s);
    let pc = str_to_chars(prefix);
    assert(sc@.skip(0) =~= sc@);
    chars_match_at(&sc, 0, &pc)
}

/// Whether the string `hay` contains the string `needle`.
pub fn str_contains(hay: &str, needle: &str) -> (r: bool)
    ensures
        r == contains_seq(hay@, needle@),
{
    let hc = str_to_chars(hay);
    let nc = str_to_chars(needle);
    contains_chars(&hc, &nc)
}

} // verus!
