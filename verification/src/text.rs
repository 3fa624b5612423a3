//! Character-level helpers shared by the pattern matcher and the decoders.

use vstd::prelude::*;
use vstd::string::StrSliceExecFns;

verus! {

/// Collect the characters of a string slice into a vector, so that callers
/// can index them freely.
pub fn str_to_chars(s: &str) -> (r: Vec<char>)
    ensures
        r@ == s@,
{
    let n = s.unicode_len();
    let mut v: Vec<char> = Vec::new();
    let mut i: usize = 0;
    while i < n
        invariant
            i <= n,
            n == s@.len(),
            v@ == s@.take(i as int),
        decreases n - i,
    {
        v.push(s.get_char(i));
        assert(v@ =~= s@.take(i + 1 as int));
        i += 1;
    }
    assert(v@ =~= s@);
    v
}

/// Character-for-character string equality.
pub fn str_eq(a: &str, b: &str) -> (r: bool)
    ensures
        r == (a@ == b@),
{
    let an = a.unicode_len();
    let bn = b.unicode_len();
    if an != bn {
        assert(a@ != b@);
        return false;
    }
    let mut i: usize = 0;
    while i < an
        invariant
            i <= an,
            an == a@.len(),
            an == b@.len(),
            forall|j: int| 0 <= j < i ==> a@[j] == b@[j],
        decreases an - i,
    {
        if a.get_char(i) != b.get_char(i) {
            assert(a@ != b@);
            return false;
        }
        i += 1;
    }
    assert(a@ =~= b@);
    true
}

} // verus!
