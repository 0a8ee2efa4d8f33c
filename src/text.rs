//! Conversions between strings and sequences of characters.

use vstd::prelude::*;

use crate::scan::{is_whitespace, whitespace};

verus! {

/// The characters of `s`, in order.
pub fn chars_of(s: &str) -> (r: Vec<char>)
    ensures
        r@ == s@,
{
    let n = s.unicode_len();
    let mut r: Vec<char> = Vec::new();
    let mut i: usize = 0;
    while i < n
        invariant
            n == s@.len(),
            i <= n,
            r@ == s@.take(i as int),
        decreases n - i,
    {
        r.push(s.get_char(i));
        i = i + 1;
        assert(r@ =~= s@.take(i as int));
    }
    assert(r@ =~= s@);
    r
}

/// Relies on `String`'s `FromIterator<&char>`: the string holds exactly the
/// collected characters, in order.
#[verifier::external_body]
pub(crate) fn text_of(chars: &Vec<char>) -> (r: String)
    ensures
        r@ == chars@,
{
    chars.iter().collect()
}

/// `s` without its leading whitespace.
pub open spec fn trim_start(s: Seq<char>) -> Seq<char>
    decreases s.len(),
{
    if s.len() > 0 && is_whitespace(s[0]) {
        trim_start(s.skip(1))
    } else {
        s
    }
}

/// `s` without its trailing whitespace.
pub open spec fn trim_end(s: Seq<char>) -> Seq<char>
    decreases s.len(),
{
    if s.len() > 0 && is_whitespace(s.last()) {
        trim_end(s.drop_last())
    } else {
        s
    }
}

/// `s` without its leading and trailing whitespace.
pub open spec fn trimmed(s: Seq<char>) -> Seq<char> {
    trim_end(trim_start(s))
}

/// The string without its leading and trailing whitespace.
pub fn trim(s: &String) -> (r: String)
    ensures
        r@ == trimmed(s@),
{
    let chars = chars_of(s.as_str());
    let n = chars.len();
    let mut i: usize = 0;
    assert(chars@.skip(0) =~= chars@);
    while i < n
        invariant_except_break
            n == chars@.len(),
            i <= n,
            trim_start(chars@) == trim_start(chars@.skip(i as int)),
        ensures
            i <= n,
            trim_start(chars@) == chars@.skip(i as int),
        decreases n - i,
    {
        if !whitespace(chars[i]) {
            break;
        }
        assert(chars@.skip(i as int).skip(1) =~= chars@.skip(i + 1));
        i = i + 1;
    }
    let ghost rest = chars@.skip(i as int);
    let mut j: usize = n;
    while j > i
        invariant_except_break
            n == chars@.len(),
            i <= j <= n,
            trim_end(rest) == trim_end(chars@.subrange(i as int, j as int)),
        ensures
            i <= j <= n,
            trim_end(rest) == chars@.subrange(i as int, j as int),
        decreases j,
    {
        if !whitespace(chars[j - 1]) {
            break;
        }
        assert(chars@.subrange(i as int, j as int).drop_last() =~= chars@.subrange(
            i as int,
            j - 1,
        ));
        j = j - 1;
    }
    let mut kept: Vec<char> = Vec::new();
    let mut k: usize = i;
    while k < j
        invariant
            n == chars@.len(),
            i <= k <= j <= n,
            kept@ == chars@.subrange(i as int, k as int),
        decreases j - k,
    {
        kept.push(chars[k]);
        assert(kept@ =~= chars@.subrange(i as int, k + 1));
        k = k + 1;
    }
    text_of(&kept)
}

} // verus!
