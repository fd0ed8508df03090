use vstd::prelude::*;
use crate::text::text_eq;

verus! {

/// The phase a meter is wired to.
#[derive(PartialEq, Eq, Structural, Clone, Copy, Debug)]
pub enum Phase {
    A,
    B,
    C,
    /// Three-phase meters, and meters whose phase is not recorded.
    Three,
}

/// The phase named by a meter's phase field: "A", "B" or "C", and three-phase
/// for anything else, a missing field included.
pub open spec fn phase_spec(p: Option<Seq<char>>) -> Phase {
    match p {
        Some(s) => if s == "A"@ {
            Phase::A
        } else if s == "B"@ {
            Phase::B
        } else if s == "C"@ {
            Phase::C
        } else {
            Phase::Three
        },
        None => Phase::Three,
    }
}

/// The view of an optional text field.
pub open spec fn opt_view(p: Option<String>) -> Option<Seq<char>> {
    match p {
        Some(s) => Some(s@),
        None => None,
    }
}

/// The phase of a meter with phase field `mt_phs`.
pub fn meter_phase(mt_phs: &Option<String>) -> (r: Phase)
    ensures
        r == phase_spec(opt_view(*mt_phs)),
{
    match mt_phs {
        None => Phase::Three,
        Some(s) => {
            if text_eq(s.as_str(), "A") {
                Phase::A
            } else if text_eq(s.as_str(), "B") {
                Phase::B
            } else if text_eq(s.as_str(), "C") {
                Phase::C
            } else {
                Phase::Three
            }
        },
    }
}

/// A transformer is the utility's own (rather than a customer's) when its
/// owner code is "P".
pub fn is_pea_owned(own: &str) -> (r: bool)
    ensures
        r == (own@ == "P"@),
{
    text_eq(own, "P")
}

/// How many of the meters wired as `phs` are single-phase.
pub open spec fn count_single(phs: Seq<Option<Seq<char>>>) -> nat
    decreases phs.len(),
{
    if phs.len() == 0 {
        0
    } else {
        count_single(phs.drop_last()) + if phase_spec(phs.last()) == Phase::Three {
            0nat
        } else {
            1nat
        }
    }
}

/// The (single-phase, three-phase) meter counts of a transformer owned by
/// `own` whose meters are wired as `phs`; only the utility's own
/// transformers are counted, others give (0, 0).
pub fn meter_phase_counts(own: &str, phs: &Vec<Option<String>>) -> (r: (u64, u64))
    ensures
        own@ == "P"@ ==> r.0 == count_single(phs@.map_values(|p: Option<String>| opt_view(p)))
            && r.0 + r.1 == phs@.len(),
        own@ != "P"@ ==> r == (0u64, 0u64),
{
    if !is_pea_owned(own) {
        return (0, 0);
    }
    let ghost pv = phs@.map_values(|p: Option<String>| opt_view(p));
    let n = phs.len();
    let mut one: u64 = 0;
    let mut three: u64 = 0;
    let mut i: usize = 0;
    while i < n
        invariant
            n == phs@.len(),
            pv == phs@.map_values(|p: Option<String>| opt_view(p)),
            i <= n,
            one == count_single(pv.subrange(0, i as int)),
            one + three == i,
        decreases n - i,
    {
        let p = meter_phase(&phs[i]);
        proof {
            assert(pv.subrange(0, i + 1).drop_last() =~= pv.subrange(0, i as int));
            assert(pv.subrange(0, i + 1).last() == opt_view(phs@[i as int]));
        }
        if p == Phase::Three {
            three = three + 1;
        } else {
            one = one + 1;
        }
        i = i + 1;
    }
    assert(pv.subrange(0, n as int) =~= pv);
    (one, three)
}

} // verus!
