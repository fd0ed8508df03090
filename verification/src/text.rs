use vstd::prelude::*;
use vstd::string::StrSliceExecFns;

verus! {

/// Whether two texts hold the same characters.
pub fn text_eq(a: &str, b: &str) -> (r: bool)
    ensures
        r == (a@ == b@),
{
    let n = a.unicode_len();
    let m = b.unicode_len();
    if n != m {
        return false;
    }
    let mut i: usize = 0;
    while i < n
        invariant
            n == a@.len(),
            n == b@.len(),
            i <= n,
            forall|k: int| 0 <= k < i ==> a@[k] == b@[k],
        decreases n - i,
    {
        if a.get_char(i) != b.get_char(i) {
            return false;
        }
        i = i + 1;
    }
    assert(a@ =~= b@);
    true
}

/// The two characters of a two-character text, or `None` for any other length.
pub fn two_chars(s: &str) -> (r: Option<(char, char)>)
    ensures
        r matches Some(p) ==> s@ == seq![p.0, p.1],
        r is None ==> s@.len() != 2,
{
    if s.unicode_len() == 2 {
        let a = s.get_char(0);
        let b = s.get_char(1);
        assert(s@ =~= seq![a, b]);
        Some((a, b))
    } else {
        None
    }
}

/// The characters of `k`, in order.
pub fn chars_of(k: &str) -> (r: Vec<char>)
    ensures
        r@ == k@,
{
    let n = k.unicode_len();
    let mut r: Vec<char> = Vec::new();
    let mut i: usize = 0;
    while i < n
        invariant
            n == k@.len(),
            i <= n,
            r@ == k@.subrange(0, i as int),
        decreases n - i,
    {
        let c = k.get_char(i);
        r.push(c);
        i = i + 1;
        assert(r@ =~= k@.subrange(0, i as int));
    }
    assert(r@ =~= k@);
    r
}

} // verus!
