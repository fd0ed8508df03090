use vstd::prelude::*;
use crate::text::chars_of;

verus! {

/// Text `t` occurs in `s` at position `i`.
pub open spec fn occurs_at(s: Seq<char>, t: Seq<char>, i: int) -> bool {
    0 <= i && i + t.len() <= s.len() && s.subrange(i, i + t.len()) == t
}

/// Text `t` occurs somewhere in `s`.
pub open spec fn occurs(s: Seq<char>, t: Seq<char>) -> bool {
    exists|i: int| occurs_at(s, t, i)
}

/// Text `t` occurs in `s` with at least one more character, other than a
/// line break, right after it.
pub open spec fn occurs_followed(s: Seq<char>, t: Seq<char>) -> bool {
    exists|i: int| occurs_at(s, t, i) && i + t.len() < s.len() && s[i + t.len()] != '\n'
}

/// The substations that the load-forecast report singles out: a name that
/// matches `.*(KHLONG LUANG)|(PA TONG)|(HUA HIN).+` somewhere.
pub open spec fn watched_spec(s: Seq<char>) -> bool {
    occurs(s, "KHLONG LUANG"@) || occurs(s, "PA TONG"@) || occurs_followed(s, "HUA HIN"@)
}

fn occurs_at_exec(s: &Vec<char>, t: &Vec<char>, i: usize) -> (r: bool)
    requires
        i + t@.len() <= s@.len(),
    ensures
        r == occurs_at(s@, t@, i as int),
{
    let n = s.len();
    let m = t.len();
    let mut k: usize = 0;
    while k < m
        invariant
            n == s@.len(),
            m == t@.len(),
            i + m <= s@.len(),
            k <= m,
            forall|j: int| 0 <= j < k ==> s@[i + j] == t@[j],
        decreases m - k,
    {
        if s[i + k] != t[k] {
            assert(s@.subrange(i as int, i + m)[k as int] != t@[k as int]);
            return false;
        }
        k = k + 1;
    }
    assert(s@.subrange(i as int, i + m) =~= t@);
    true
}

/// Whether `t` occurs in `s`; when `followed`, with a character other than a
/// line break right after it.
fn find_exec(s: &Vec<char>, t: &Vec<char>, followed: bool) -> (r: bool)
    requires
        t@.len() > 0,
    ensures
        !followed ==> r == occurs(s@, t@),
        followed ==> r == occurs_followed(s@, t@),
{
    let n = s.len();
    let m = t.len();
    if m > n {
        assert forall|i: int| !occurs_at(s@, t@, i) by {}
        return false;
    }
    let mut i: usize = 0;
    while i <= n - m
        invariant
            n == s@.len(),
            m == t@.len(),
            0 < m <= n,
            i <= n - m + 1,
            !followed ==> forall|j: int| 0 <= j < i ==> !occurs_at(s@, t@, j),
            followed ==> forall|j: int|
                0 <= j < i ==> !(occurs_at(s@, t@, j) && j + m < n && s@[j + m] != '\n'),
        decreases n - m + 1 - i,
    {
        if occurs_at_exec(s, t, i) {
            if !followed {
                return true;
            }
            if i + m < n && s[i + m] != '\n' {
                return true;
            }
        }
        i = i + 1;
    }
    false
}

/// Whether the load-forecast report singles out substation `sb`.
pub fn is_watched_sub(sb: &str) -> (r: bool)
    ensures
        r == watched_spec(sb@),
{
    let s = chars_of(sb);
    let a = chars_of("KHLONG LUANG");
    let b = chars_of("PA TONG");
    let c = chars_of("HUA HIN");
    proof {
        reveal_strlit("KHLONG LUANG");
        reveal_strlit("PA TONG");
        reveal_strlit("HUA HIN");
    }
    find_exec(&s, &a, false) || find_exec(&s, &b, false) || find_exec(&s, &c, true)
}

} // verus!
