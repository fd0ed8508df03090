use vstd::prelude::*;
use vstd::string::StringExecFns;
use crate::text::text_eq;

verus! {

/// The views of a list of names.
pub open spec fn views(v: Seq<String>) -> Seq<Seq<char>> {
    v.map_values(|s: String| s@)
}

/// Each name once, in the order of first appearance.
pub open spec fn distinct_spec(s: Seq<Seq<char>>) -> Seq<Seq<char>>
    decreases s.len(),
{
    if s.len() == 0 {
        Seq::empty()
    } else {
        let d = distinct_spec(s.drop_last());
        if d.contains(s.last()) {
            d
        } else {
            d.push(s.last())
        }
    }
}

/// The distinct names hold each name of the list once, and no other name.
pub proof fn lemma_distinct(s: Seq<Seq<char>>)
    ensures
        distinct_spec(s).no_duplicates(),
        forall|x: Seq<char>| distinct_spec(s).contains(x) <==> s.contains(x),
    decreases s.len(),
{
    if s.len() > 0 {
        let q = s.drop_last();
        lemma_distinct(q);
        let e = s.last();
        let d = distinct_spec(q);
        assert(s =~= q.push(e));
        assert forall|x: Seq<char>| distinct_spec(s).contains(x) <==> s.contains(x) by {
            lemma_push_contains(q, e, x);
            lemma_push_contains(d, e, x);
        }
    }
}

proof fn lemma_push_contains(q: Seq<Seq<char>>, e: Seq<char>, x: Seq<char>)
    ensures
        q.push(e).contains(x) <==> (q.contains(x) || x == e),
{
    if q.contains(x) {
        let i = choose|i: int| 0 <= i < q.len() && q[i] == x;
        assert(q.push(e)[i] == x);
    }
    if x == e {
        assert(q.push(e)[q.len() as int] == x);
    }
    if q.push(e).contains(x) {
        let i = choose|i: int| 0 <= i < q.push(e).len() && q.push(e)[i] == x;
        if i < q.len() {
            assert(q[i] == x);
        }
    }
}

/// Whether `name` is in `names`.
pub fn has_name(names: &Vec<String>, name: &String) -> (r: bool)
    ensures
        r == views(names@).contains(name@),
{
    let n = names.len();
    let mut i: usize = 0;
    while i < n
        invariant
            n == names@.len(),
            i <= n,
            forall|k: int| 0 <= k < i ==> names@[k]@ != name@,
        decreases n - i,
    {
        if names[i] == *name {
            assert(views(names@)[i as int] == name@);
            return true;
        }
        i = i + 1;
    }
    proof {
        if views(names@).contains(name@) {
            let k = choose|k: int| 0 <= k < views(names@).len() && views(names@)[k] == name@;
            assert(names@[k]@ == name@);
        }
    }
    false
}

/// Each name of `names` once, in the order of first appearance.
pub fn distinct_names(names: &Vec<String>) -> (r: Vec<String>)
    ensures
        views(r@) == distinct_spec(views(names@)),
        views(r@).no_duplicates(),
        forall|x: Seq<char>| views(r@).contains(x) <==> views(names@).contains(x),
{
    let ghost nv = views(names@);
    let mut r: Vec<String> = Vec::new();
    let n = names.len();
    let mut i: usize = 0;
    assert(views(r@) =~= distinct_spec(nv.subrange(0, 0)));
    while i < n
        invariant
            n == names@.len(),
            nv == views(names@),
            i <= n,
            views(r@) == distinct_spec(nv.subrange(0, i as int)),
        decreases n - i,
    {
        proof {
            assert(nv.subrange(0, i + 1).drop_last() =~= nv.subrange(0, i as int));
            assert(nv.subrange(0, i + 1).last() == names@[i as int]@);
        }
        if !has_name(&r, &names[i]) {
            let ghost before = views(r@);
            r.push(names[i].clone());
            assert(views(r@) =~= before.push(names@[i as int]@));
        }
        i = i + 1;
    }
    proof {
        assert(nv.subrange(0, n as int) =~= nv);
        lemma_distinct(nv);
    }
    r
}

/// The selected substations, each once: the set that the screening checks
/// a substation against.
pub fn p01_chk(subs: Vec<String>) -> (r: Vec<String>)
    ensures
        views(r@) == distinct_spec(views(subs@)),
        views(r@).no_duplicates(),
        forall|x: Seq<char>| views(r@).contains(x) <==> views(subs@).contains(x),
{
    distinct_names(&subs)
}

/// The names joined by commas.
pub open spec fn comma_joined(s: Seq<Seq<char>>) -> Seq<char>
    decreases s.len(),
{
    if s.len() == 0 {
        Seq::empty()
    } else if s.len() == 1 {
        s[0]
    } else {
        comma_joined(s.drop_last()) + ","@ + s.last()
    }
}

/// A single name is joined to itself, and no name to the empty text.
pub proof fn lemma_joined_small(x: Seq<char>)
    ensures
        comma_joined(seq![x]) == x,
        comma_joined(Seq::<Seq<char>>::empty()) == Seq::<char>::empty(),
{
    assert(seq![x][0] == x);
}

/// Appending a name to a nonempty list appends a comma and the name.
pub proof fn lemma_joined_push(s: Seq<Seq<char>>, x: Seq<char>)
    requires
        s.len() > 0,
    ensures
        comma_joined(s.push(x)) == comma_joined(s) + ","@ + x,
{
    assert(s.push(x).drop_last() =~= s);
    assert(s.push(x).last() == x);
}

/// Joining two nonempty lists is joining each and putting a comma between.
pub proof fn lemma_joined_concat(s: Seq<Seq<char>>, t: Seq<Seq<char>>)
    requires
        s.len() > 0,
        t.len() > 0,
    ensures
        comma_joined(s + t) == comma_joined(s) + ","@ + comma_joined(t),
    decreases t.len(),
{
    if t.len() == 1 {
        assert(s + t =~= s.push(t[0]));
        lemma_joined_push(s, t[0]);
        lemma_joined_small(t[0]);
        assert(t =~= seq![t[0]]);
    } else {
        let t2 = t.drop_last();
        let x = t.last();
        lemma_joined_concat(s, t2);
        assert(s + t =~= (s + t2).push(x));
        assert(t =~= t2.push(x));
        lemma_joined_push(s + t2, x);
        lemma_joined_push(t2, x);
        assert(comma_joined(s) + ","@ + comma_joined(t2) + ","@ + x =~= comma_joined(s) + ","@ + (
        comma_joined(t2) + ","@ + x));
    }
}

/// How many commas a text holds.
pub open spec fn commas(s: Seq<char>) -> nat
    decreases s.len(),
{
    if s.len() == 0 {
        0
    } else {
        commas(s.drop_last()) + if s.last() == ',' {
            1nat
        } else {
            0nat
        }
    }
}

proof fn lemma_commas_concat(a: Seq<char>, b: Seq<char>)
    ensures
        commas(a + b) == commas(a) + commas(b),
    decreases b.len(),
{
    if b.len() == 0 {
        assert(a + b =~= a);
    } else {
        lemma_commas_concat(a, b.drop_last());
        assert((a + b).drop_last() =~= a + b.drop_last());
        assert((a + b).last() == b.last());
    }
}

/// Names that hold no comma are joined with one comma fewer than there are
/// names.
pub proof fn lemma_joined_commas(s: Seq<Seq<char>>)
    requires
        s.len() > 0,
        forall|i: int| 0 <= i < s.len() ==> commas(#[trigger] s[i]) == 0,
    ensures
        commas(comma_joined(s)) == s.len() - 1,
    decreases s.len(),
{
    reveal_strlit(",");
    if s.len() == 1 {
        assert(comma_joined(s) == s[0]);
    } else {
        let q = s.drop_last();
        assert forall|i: int| 0 <= i < q.len() implies commas(#[trigger] q[i]) == 0 by {
            assert(q[i] == s[i]);
        }
        lemma_joined_commas(q);
        assert(s == q.push(s.last()));
        lemma_joined_push(q, s.last());
        lemma_commas_concat(comma_joined(q) + ","@, s.last());
        lemma_commas_concat(comma_joined(q), ","@);
        assert(","@.len() == 1);
        assert(","@[0] == ',');
        assert(","@.drop_last() =~= Seq::<char>::empty());
        assert(commas(Seq::<char>::empty()) == 0);
        assert(","@.last() == ',');
        assert(commas(","@) == 1);
        assert(commas(s.last()) == 0) by {
            assert(s.last() == s[s.len() - 1]);
        }
    }
}

/// The office list of a substation: the distinct office names of its
/// transformers, joined by commas.
pub fn aoj_list(aojs: &Vec<String>) -> (r: String)
    ensures
        r@ == comma_joined(distinct_spec(views(aojs@))),
{
    let d = distinct_names(aojs);
    let ghost dv = views(d@);
    let mut r = String::new();
    let n = d.len();
    let mut i: usize = 0;
    assert(r@ =~= comma_joined(dv.subrange(0, 0)));
    while i < n
        invariant
            n == d@.len(),
            dv == views(d@),
            i <= n,
            r@ == comma_joined(dv.subrange(0, i as int)),
        decreases n - i,
    {
        proof {
            assert(dv.subrange(0, i + 1).drop_last() =~= dv.subrange(0, i as int));
            assert(dv.subrange(0, i + 1).last() == d@[i as int]@);
        }
        if i > 0 {
            r.append(",");
        } else {
            assert(dv.subrange(0, 1)[0] == d@[0]@);
        }
        r.append(d[i].as_str());
        i = i + 1;
    }
    assert(dv.subrange(0, n as int) =~= dv);
    r
}

/// The positions of the rows kept apart from province `pv`, and of those of
/// province `pv`, each in order.
pub open spec fn split_spec(pvids: Seq<Seq<char>>, pv: Seq<char>) -> (Seq<usize>, Seq<usize>)
    decreases pvids.len(),
{
    if pvids.len() == 0 {
        (Seq::empty(), Seq::empty())
    } else {
        let (k, m) = split_spec(pvids.drop_last(), pv);
        let i = (pvids.len() - 1) as usize;
        if pvids.last() == pv {
            (k, m.push(i))
        } else {
            (k.push(i), m)
        }
    }
}

/// Each row lands in exactly one part: apart when its province differs from
/// `pv`, merged when it is `pv`; the two parts together are as long as the list.
pub proof fn lemma_split(pvids: Seq<Seq<char>>, pv: Seq<char>)
    requires
        pvids.len() <= usize::MAX,
    ensures
        forall|k: usize|
            #![trigger split_spec(pvids, pv).0.contains(k)]
            split_spec(pvids, pv).0.contains(k) <==> (k < pvids.len() && pvids[k as int] != pv),
        forall|k: usize|
            #![trigger split_spec(pvids, pv).1.contains(k)]
            split_spec(pvids, pv).1.contains(k) <==> (k < pvids.len() && pvids[k as int] == pv),
        split_spec(pvids, pv).0.len() + split_spec(pvids, pv).1.len() == pvids.len(),
    decreases pvids.len(),
{
    if pvids.len() > 0 {
        let q = pvids.drop_last();
        lemma_split(q, pv);
        let k0 = split_spec(q, pv).0;
        let m0 = split_spec(q, pv).1;
        let i = (pvids.len() - 1) as usize;
        assert(i == pvids.len() - 1);
        assert(pvids.last() == pvids[i as int]);
        assert(q.len() == i);
        if pvids.last() == pv {
            assert(split_spec(pvids, pv) == (k0, m0.push(i)));
        } else {
            assert(split_spec(pvids, pv) == (k0.push(i), m0));
        }
        assert forall|k: usize|
            #![trigger split_spec(pvids, pv).0.contains(k)]
            split_spec(pvids, pv).0.contains(k) <==> (k < pvids.len() && pvids[k as int] != pv) by {
            lemma_push_contains_usize(k0, i, k);
            assert(k0.contains(k) <==> (k < q.len() && q[k as int] != pv));
            if k < q.len() {
                assert(q[k as int] == pvids[k as int]);
            }
        }
        assert forall|k: usize|
            #![trigger split_spec(pvids, pv).1.contains(k)]
            split_spec(pvids, pv).1.contains(k) <==> (k < pvids.len() && pvids[k as int] == pv) by {
            lemma_push_contains_usize(m0, i, k);
            assert(m0.contains(k) <==> (k < q.len() && q[k as int] == pv));
            if k < q.len() {
                assert(q[k as int] == pvids[k as int]);
            }
        }
    } else {
        assert forall|k: usize| !split_spec(pvids, pv).0.contains(k) && !split_spec(pvids, pv).1.contains(k) by {
            assert(split_spec(pvids, pv).0.len() == 0);
            assert(split_spec(pvids, pv).1.len() == 0);
        }
    }
}

proof fn lemma_push_contains_usize(q: Seq<usize>, e: usize, x: usize)
    ensures
        q.push(e).contains(x) <==> (q.contains(x) || x == e),
{
    if q.contains(x) {
        let i = choose|i: int| 0 <= i < q.len() && q[i] == x;
        assert(q.push(e)[i] == x);
    }
    if x == e {
        assert(q.push(e)[q.len() as int] == x);
    }
    if q.push(e).contains(x) {
        let i = choose|i: int| 0 <= i < q.push(e).len() && q.push(e)[i] == x;
        if i < q.len() {
            assert(q[i] == x);
        }
    }
}

/// Splits the province rows met so far into those of other provinces, which
/// stay in the list, and those of province `pv`, which are merged into its
/// new row; each part keeps the list's order.
pub fn split_province(pvids: &Vec<String>, pv: &str) -> (r: (Vec<usize>, Vec<usize>))
    ensures
        (r.0@, r.1@) == split_spec(views(pvids@), pv@),
{
    let ghost pvv = views(pvids@);
    let mut kept: Vec<usize> = Vec::new();
    let mut same: Vec<usize> = Vec::new();
    let n = pvids.len();
    let mut i: usize = 0;
    while i < n
        invariant
            n == pvids@.len(),
            pvv == views(pvids@),
            i <= n,
            (kept@, same@) == split_spec(pvv.subrange(0, i as int), pv@),
        decreases n - i,
    {
        proof {
            assert(pvv.subrange(0, i + 1).drop_last() =~= pvv.subrange(0, i as int));
            assert(pvv.subrange(0, i + 1).last() == pvids@[i as int]@);
        }
        if text_eq(pvids[i].as_str(), pv) {
            same.push(i);
        } else {
            kept.push(i);
        }
        i = i + 1;
    }
    assert(pvv.subrange(0, n as int) =~= pvv);
    (kept, same)
}

} // verus!
