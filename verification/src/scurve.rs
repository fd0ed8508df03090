use vstd::prelude::*;

verus! {

/// First year of the renewable-energy adoption curve.
pub const RE_SCURV_BEG: usize = 2018;
/// First year of the electric-vehicle adoption curve.
pub const EV_SCURV_BEG: usize = 2021;
/// First year of the planning window.
pub const SCURV_WIND_BEG: usize = 2026;
/// Last year of the planning window.
pub const SCURV_WIND_END: usize = 2040;

/// The elapsed years `y - base` for each year `y` of `first..=last`, in order.
pub open spec fn year_offsets_spec(first: nat, last: nat, base: nat) -> Seq<nat> {
    if first <= last {
        Seq::new((last - first + 1) as nat, |i: int| (first + i - base) as nat)
    } else {
        Seq::empty()
    }
}

/// The number of years elapsed since `base` for each year of `first..=last`;
/// an adoption curve takes its argument from these offsets.
pub fn year_offsets(first: usize, last: usize, base: usize) -> (r: Vec<usize>)
    requires
        base <= first,
        last < usize::MAX,
    ensures
        r@.map_values(|x: usize| x as nat) == year_offsets_spec(first as nat, last as nat, base as nat),
{
    let mut r: Vec<usize> = Vec::new();
    let mut y: usize = first;
    while y <= last
        invariant
            first <= y <= last + 1 || (first > last && y == first),
            base <= first,
            last < usize::MAX,
            r@.len() == y - first,
            forall|i: int| 0 <= i < r@.len() ==> r@[i] == first + i - base,
        decreases last + 1 - y,
    {
        r.push(y - base);
        y = y + 1;
    }
    proof {
        assert(r@.map_values(|x: usize| x as nat) =~= year_offsets_spec(first as nat, last as nat, base as nat));
    }
    r
}

/// The years elapsed since `base` for each year of the planning window
/// (2026 to 2040): the arguments of the adoption curves over the window.
pub fn window_offsets(base: usize) -> (r: Vec<usize>)
    requires
        base <= SCURV_WIND_BEG,
    ensures
        r@.len() == 15,
        forall|i: int| 0 <= i < 15 ==> r@[i] == SCURV_WIND_BEG + i - base,
{
    let r = year_offsets(SCURV_WIND_BEG, SCURV_WIND_END, base);
    proof {
        let sp = year_offsets_spec(SCURV_WIND_BEG as nat, SCURV_WIND_END as nat, base as nat);
        assert(r@.len() == sp.len());
        assert forall|i: int| 0 <= i < 15 implies r@[i] == SCURV_WIND_BEG + i - base by {
            assert(r@.map_values(|x: usize| x as nat)[i] == sp[i]);
        }
    }
    r
}

} // verus!
