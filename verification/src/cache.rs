use vstd::prelude::*;

verus! {

/// One access to a table that was in state `before`: it is in state `after`
/// and hands out `r`; once loaded it keeps what it had.
pub open spec fn access_ok<T>(before: Option<T>, after: Option<T>, r: T) -> bool {
    &&& after == Some(r)
    &&& (before matches Some(v) ==> r == v)
}

/// A table that is loaded from storage at most once and then kept: the
/// first access loads it, every later access hands out what was loaded.
pub struct Loaded<T> {
    slot: Option<T>,
}

impl<T> View for Loaded<T> {
    type V = Option<T>;

    closed spec fn view(&self) -> Option<T> {
        self.slot
    }
}

impl<T> Loaded<T> {
    /// A table not yet loaded.
    pub fn new() -> (r: Self)
        ensures
            r@ is None,
    {
        Loaded { slot: None }
    }

    /// Whether the table has been loaded.
    pub fn is_loaded(&self) -> (r: bool)
        ensures
            r == self@ is Some,
    {
        self.slot.is_some()
    }

    /// The table, loading it with `load` if this is the first access.
    pub fn get_or_load<F: FnOnce() -> T>(&mut self, load: F) -> (r: &T)
        requires
            old(self)@ is None ==> call_requires(load, ()),
        ensures
            access_ok(old(self)@, final(self)@, *r),
            old(self)@ is None ==> call_ensures(load, (), *r),
    {
        if self.slot.is_none() {
            let v = load();
            self.slot = Some(v);
        }
        self.slot.as_ref().unwrap()
    }
}


/// Once a table is loaded, every later access hands out the same table and
/// leaves it as it was.
pub proof fn lemma_access_stable<T>(before: Option<T>, mid: Option<T>, r1: T, after: Option<T>, r2: T)
    requires
        access_ok(before, mid, r1),
        access_ok(mid, after, r2),
    ensures
        r2 == r1,
        after == mid,
{
}

/// The substation rows of the latest assessment; `load` reads them on the
/// first access only.
pub fn get_sbrw00<R, F: FnOnce() -> Vec<R>>(table: &mut Loaded<Vec<R>>, load: F) -> (r: &Vec<R>)
    requires
        old(table)@ is None ==> call_requires(load, ()),
    ensures
        access_ok(old(table)@, final(table)@, *r),
        old(table)@ is None ==> call_ensures(load, (), *r),
{
    table.get_or_load(load)
}

/// The area/province/substation tree of the utility; `load` reads it on the
/// first access only.
pub fn get_pea00<P, F: FnOnce() -> P>(table: &mut Loaded<P>, load: F) -> (r: &P)
    requires
        old(table)@ is None ==> call_requires(load, ()),
    ensures
        access_ok(old(table)@, final(table)@, *r),
        old(table)@ is None ==> call_ensures(load, (), *r),
{
    table.get_or_load(load)
}

/// The province rows of the latest assessment; `load` reads them on the
/// first access only.
pub fn get_pvrw00<R, F: FnOnce() -> Vec<R>>(table: &mut Loaded<Vec<R>>, load: F) -> (r: &Vec<R>)
    requires
        old(table)@ is None ==> call_requires(load, ()),
    ensures
        access_ok(old(table)@, final(table)@, *r),
        old(table)@ is None ==> call_ensures(load, (), *r),
{
    table.get_or_load(load)
}

} // verus!
