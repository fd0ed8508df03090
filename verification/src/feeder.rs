use vstd::prelude::*;
use vstd::string::StrSliceExecFns;
use vstd::string::StringExecFns;
use crate::text::chars_of;

verus! {

/// An ASCII capital letter, `[A-Z]`.
pub open spec fn is_upper(c: char) -> bool {
    'A' <= c && c <= 'Z'
}

/// An ASCII digit, `[0-9]`.
pub open spec fn is_digit(c: char) -> bool {
    '0' <= c && c <= '9'
}

/// A load-profile key of a feeder has the shape `([A-Z]{3})-([0-9]{2})[VW]`
/// starting at position `i`: a substation code, a dash, a feeder number and
/// the voltage mark.
pub open spec fn key_at(s: Seq<char>, i: int) -> bool {
    &&& 0 <= i && i + 7 <= s.len()
    &&& is_upper(s[i]) && is_upper(s[i + 1]) && is_upper(s[i + 2])
    &&& s[i + 3] == '-'
    &&& is_digit(s[i + 4]) && is_digit(s[i + 5])
    &&& (s[i + 6] == 'V' || s[i + 6] == 'W')
}

/// The leftmost start of a key at or after position `i`.
pub open spec fn next_key(s: Seq<char>, i: int) -> Option<int>
    decreases s.len() - i,
{
    if i < 0 || i + 7 > s.len() {
        None
    } else if key_at(s, i) {
        Some(i)
    } else {
        next_key(s, i + 1)
    }
}

/// The first line break at or after `j`, or the end of the text: a key
/// match runs on to there (the trailing `.*` stops at a line break).
pub open spec fn line_end(s: Seq<char>, j: int) -> int
    decreases s.len() - j,
{
    if j < 0 || j >= s.len() {
        s.len() as int
    } else if s[j] == '\n' {
        j
    } else {
        line_end(s, j + 1)
    }
}

/// The feeder id named by the key starting at `j`: substation code and
/// feeder number, without the dash.
pub open spec fn id_at(s: Seq<char>, j: int) -> Seq<char> {
    s.subrange(j, j + 3) + s.subrange(j + 4, j + 6)
}

pub proof fn lemma_next_key(s: Seq<char>, i: int)
    requires
        0 <= i,
    ensures
        next_key(s, i) matches Some(j) ==> i <= j && key_at(s, j),
        next_key(s, i) is None ==> forall|j: int| i <= j ==> !key_at(s, j),
    decreases s.len() - i,
{
    if i < 0 || i + 7 > s.len() {
    } else if key_at(s, i) {
    } else {
        lemma_next_key(s, i + 1);
        assert forall|j: int| i <= j && next_key(s, i) is None implies !key_at(s, j) by {
            if j == i {
            } else {
                assert(i + 1 <= j);
            }
        }
    }
}

pub proof fn lemma_line_end(s: Seq<char>, j: int)
    requires
        0 <= j <= s.len(),
    ensures
        j <= line_end(s, j) <= s.len(),
        line_end(s, j) < s.len() ==> s[line_end(s, j)] == '\n',
        forall|k: int| j <= k < line_end(s, j) ==> s[k] != '\n',
    decreases s.len() - j,
{
    if j >= s.len() {
    } else if s[j] == '\n' {
    } else {
        lemma_line_end(s, j + 1);
    }
}

/// All feeder ids that the pattern `([A-Z]{3})-([0-9]{2})[VW].*` captures
/// in `s` from position `i` on, each search resuming where the previous
/// match ended.
pub open spec fn ids_from(s: Seq<char>, i: int) -> Seq<Seq<char>>
    decreases s.len() - i,
{
    if i < 0 || i > s.len() {
        Seq::empty()
    } else {
        match next_key(s, i) {
            None => Seq::empty(),
            Some(j) => {
                proof {
                    lemma_next_key(s, i);
                    lemma_line_end(s, j + 7);
                }
                seq![id_at(s, j)] + ids_from(s, line_end(s, j + 7))
            },
        }
    }
}

/// A feeder id: a three-letter substation code and a two-digit feeder number.
pub open spec fn id_shaped(id: Seq<char>) -> bool {
    &&& id.len() == 5
    &&& is_upper(id[0]) && is_upper(id[1]) && is_upper(id[2])
    &&& is_digit(id[3]) && is_digit(id[4])
}

/// Every id captured in a key is a three-letter code followed by two digits.
pub proof fn lemma_ids_shaped(s: Seq<char>, i: int)
    requires
        0 <= i,
    ensures
        forall|k: int| 0 <= k < ids_from(s, i).len() ==> id_shaped(#[trigger] ids_from(s, i)[k]),
    decreases s.len() - i,
{
    if i <= s.len() {
        lemma_next_key(s, i);
        match next_key(s, i) {
            None => {},
            Some(j) => {
                lemma_line_end(s, j + 7);
                let e = line_end(s, j + 7);
                lemma_ids_shaped(s, e);
                let id = id_at(s, j);
                assert(id_shaped(id)) by {
                    assert(id[0] == s[j] && id[1] == s[j + 1] && id[2] == s[j + 2]);
                    assert(id[3] == s[j + 4] && id[4] == s[j + 5]);
                }
                let rest = ids_from(s, e);
                assert(ids_from(s, i) == seq![id] + rest);
                assert forall|k: int| 0 <= k < ids_from(s, i).len() implies id_shaped(
                    #[trigger] ids_from(s, i)[k],
                ) by {
                    if k > 0 {
                        assert(ids_from(s, i)[k] == rest[k - 1]);
                    }
                }
            },
        }
    }
}

/// A key that starts with three capitals, a dash, two digits and a mark V or
/// W names, as its first feeder id, the three capitals followed by the two
/// digits.
pub proof fn lemma_key_at_start(s: Seq<char>)
    requires
        s.len() >= 7,
        'A' <= s[0] <= 'Z',
        'A' <= s[1] <= 'Z',
        'A' <= s[2] <= 'Z',
        s[3] == '-',
        '0' <= s[4] <= '9',
        '0' <= s[5] <= '9',
        s[6] == 'V' || s[6] == 'W',
    ensures
        ids_from(s, 0).len() >= 1,
        ids_from(s, 0)[0] == seq![s[0], s[1], s[2], s[4], s[5]],
{
    assert(key_at(s, 0));
    assert(next_key(s, 0) == Some(0int));
    lemma_line_end(s, 7);
    let e = line_end(s, 7);
    assert(ids_from(s, 0) == seq![id_at(s, 0)] + ids_from(s, e));
    assert(id_at(s, 0) =~= seq![s[0], s[1], s[2], s[4], s[5]]);
}

/// Every seven-character key `CCC-ddV` or `CCC-ddW` (capitals C, digits d)
/// names exactly one feeder, `CCCdd`.
pub proof fn lemma_seven_char_key(a: char, b: char, c: char, d: char, e: char, m: char)
    requires
        'A' <= a <= 'Z',
        'A' <= b <= 'Z',
        'A' <= c <= 'Z',
        '0' <= d <= '9',
        '0' <= e <= '9',
        m == 'V' || m == 'W',
    ensures
        ids_from(seq![a, b, c, '-', d, e, m], 0) == seq![seq![a, b, c, d, e]],
{
    let s = seq![a, b, c, '-', d, e, m];
    lemma_key_at_start(s);
    lemma_line_end(s, 7);
    assert(line_end(s, 7) == 7);
    assert(next_key(s, 7) is None);
    assert(ids_from(s, 7) =~= Seq::<Seq<char>>::empty());
    assert(ids_from(s, 0) == seq![id_at(s, 0)] + ids_from(s, 7));
    assert(id_at(s, 0) =~= seq![a, b, c, d, e]);
    assert(ids_from(s, 0) =~= seq![seq![a, b, c, d, e]]);
}

/// The feeder ids captured in a whole load-profile key.
pub open spec fn feeder_ids_spec(s: Seq<char>) -> Seq<Seq<char>> {
    ids_from(s, 0)
}

fn key_at_exec(cs: &Vec<char>, i: usize) -> (b: bool)
    requires
        i + 7 <= cs@.len(),
    ensures
        b == key_at(cs@, i as int),
{
    let n = cs.len();
    assert(i + 7 <= n);
    let a = cs[i];
    let b0 = cs[i + 1];
    let c = cs[i + 2];
    let d = cs[i + 3];
    let e = cs[i + 4];
    let f = cs[i + 5];
    let g = cs[i + 6];
    'A' <= a && a <= 'Z' && 'A' <= b0 && b0 <= 'Z' && 'A' <= c && c <= 'Z' && d == '-' && '0'
        <= e && e <= '9' && '0' <= f && f <= '9' && (g == 'V' || g == 'W')
}

fn next_key_exec(cs: &Vec<char>, i: usize) -> (r: Option<usize>)
    requires
        i <= cs@.len(),
    ensures
        match r {
            Some(j) => next_key(cs@, i as int) == Some(j as int),
            None => next_key(cs@, i as int) is None,
        },
{
    let n = cs.len();
    let mut p: usize = i;
    while n >= 7 && p <= n - 7
        invariant
            n == cs@.len(),
            i <= p,
            p <= n,
            next_key(cs@, i as int) == next_key(cs@, p as int),
        decreases n - p,
    {
        if key_at_exec(cs, p) {
            return Some(p);
        }
        p = p + 1;
    }
    None
}

fn line_end_exec(cs: &Vec<char>, j: usize) -> (r: usize)
    requires
        j <= cs@.len(),
    ensures
        r as int == line_end(cs@, j as int),
{
    let n = cs.len();
    let mut p: usize = j;
    while p < n
        invariant
            n == cs@.len(),
            j <= p <= n,
            line_end(cs@, j as int) == line_end(cs@, p as int),
        decreases n - p,
    {
        if cs[p] == '\n' {
            return p;
        }
        p = p + 1;
    }
    p
}

/// The feeder ids that a load-profile key names, in order of appearance.
pub fn feeder_ids(k: &str) -> (r: Vec<String>)
    ensures
        r@.map_values(|x: String| x@) == feeder_ids_spec(k@),
{
    let cs = chars_of(k);
    let n = cs.len();
    let mut r: Vec<String> = Vec::new();
    let mut pos: usize = 0;
    loop
        invariant
            cs@ == k@,
            n == cs@.len(),
            pos <= n,
            feeder_ids_spec(k@) == r@.map_values(|x: String| x@) + ids_from(k@, pos as int),
        decreases n - pos,
    {
        match next_key_exec(&cs, pos) {
            None => {
                assert(ids_from(k@, pos as int) =~= Seq::<Seq<char>>::empty());
                assert(r@.map_values(|x: String| x@) + Seq::<Seq<char>>::empty()
                    =~= r@.map_values(|x: String| x@));
                return r;
            },
            Some(j) => {
                proof {
                    lemma_next_key(k@, pos as int);
                    lemma_line_end(k@, j + 7);
                }
                let mut fd = String::from_str(k.substring_char(j, j + 3));
                fd.append(k.substring_char(j + 4, j + 6));
                let e = line_end_exec(&cs, j + 7);
                let ghost before = r@.map_values(|x: String| x@);
                r.push(fd);
                assert(fd@ == id_at(k@, j as int));
                assert(r@.map_values(|x: String| x@) =~= before.push(id_at(k@, j as int)));
                assert(ids_from(k@, pos as int) == seq![id_at(k@, j as int)] + ids_from(
                    k@,
                    e as int,
                ));
                assert(before + (seq![id_at(k@, j as int)] + ids_from(k@, e as int)) =~= before.push(
                    id_at(k@, j as int),
                ) + ids_from(k@, e as int));
                pos = e;
            },
        }
    }
}


/// Every captured feeder id paired with the load-profile key it came from,
/// keys taken in order.
pub open spec fn key_pairs(keys: Seq<Seq<char>>) -> Seq<(Seq<char>, Seq<char>)>
    decreases keys.len(),
{
    if keys.len() == 0 {
        Seq::empty()
    } else {
        key_pairs(keys.drop_last()) + feeder_ids_spec(keys.last()).map_values(
            |id: Seq<char>| (id, keys.last()),
        )
    }
}

/// The map that keeps, for each id, the key of its first pair; later pairs
/// with an id already present change nothing.
pub open spec fn first_wins(ps: Seq<(Seq<char>, Seq<char>)>) -> Map<Seq<char>, Seq<char>>
    decreases ps.len(),
{
    if ps.len() == 0 {
        Map::empty()
    } else {
        let m = first_wins(ps.drop_last());
        if m.contains_key(ps.last().0) {
            m
        } else {
            m.insert(ps.last().0, ps.last().1)
        }
    }
}

/// The pairs that came too late, each as (key already kept, id, key refused).
pub open spec fn dup_reports(ps: Seq<(Seq<char>, Seq<char>)>) -> Seq<(Seq<char>, Seq<char>, Seq<char>)>
    decreases ps.len(),
{
    if ps.len() == 0 {
        Seq::empty()
    } else {
        let m = first_wins(ps.drop_last());
        let d = dup_reports(ps.drop_last());
        if m.contains_key(ps.last().0) {
            d.push((m[ps.last().0], ps.last().0, ps.last().1))
        } else {
            d
        }
    }
}

/// An id is kept exactly when some pair carries it.
pub proof fn lemma_first_wins_dom(ps: Seq<(Seq<char>, Seq<char>)>, id: Seq<char>)
    ensures
        first_wins(ps).contains_key(id) <==> exists|k: int| 0 <= k < ps.len() && ps[k].0 == id,
    decreases ps.len(),
{
    if ps.len() > 0 {
        let q = ps.drop_last();
        lemma_first_wins_dom(q, id);
        if first_wins(ps).contains_key(id) {
            if first_wins(q).contains_key(id) {
                let k = choose|k: int| 0 <= k < q.len() && q[k].0 == id;
                assert(ps[k].0 == id);
            } else {
                assert(ps[ps.len() - 1].0 == id);
            }
        } else {
            assert forall|k: int| 0 <= k < ps.len() implies ps[k].0 != id by {
                if k < ps.len() - 1 {
                    assert(q[k] == ps[k]);
                }
            }
        }
    }
}

/// The first pair that carries an id decides its key.
pub proof fn lemma_first_wins_value(ps: Seq<(Seq<char>, Seq<char>)>, i: int)
    requires
        0 <= i < ps.len(),
        forall|k: int| 0 <= k < i ==> ps[k].0 != ps[i].0,
    ensures
        first_wins(ps).contains_key(ps[i].0),
        first_wins(ps)[ps[i].0] == ps[i].1,
    decreases ps.len(),
{
    let q = ps.drop_last();
    if i == ps.len() - 1 {
        lemma_first_wins_dom(q, ps[i].0);
        assert(!first_wins(q).contains_key(ps[i].0)) by {
            if first_wins(q).contains_key(ps[i].0) {
                let k = choose|k: int| 0 <= k < q.len() && q[k].0 == ps[i].0;
                assert(ps[k] == q[k]);
            }
        }
    } else {
        assert(q[i] == ps[i]);
        assert forall|k: int| 0 <= k < i implies q[k].0 != q[i].0 by {
            assert(q[k] == ps[k]);
        }
        lemma_first_wins_value(q, i);
    }
}

/// Pairs added after an id is kept do not change its key; an id kept only
/// by the added pairs gets the key those pairs give it.
pub proof fn lemma_first_wins_append(
    ps: Seq<(Seq<char>, Seq<char>)>,
    qs: Seq<(Seq<char>, Seq<char>)>,
    id: Seq<char>,
)
    ensures
        first_wins(ps + qs).contains_key(id) <==> (first_wins(ps).contains_key(id)
            || first_wins(qs).contains_key(id)),
        first_wins(ps).contains_key(id) ==> first_wins(ps + qs)[id] == first_wins(ps)[id],
        !first_wins(ps).contains_key(id) && first_wins(qs).contains_key(id) ==> first_wins(
            ps + qs,
        )[id] == first_wins(qs)[id],
    decreases qs.len(),
{
    if qs.len() == 0 {
        assert(ps + qs =~= ps);
    } else {
        let q2 = qs.drop_last();
        lemma_first_wins_append(ps, q2, id);
        assert((ps + qs).drop_last() =~= ps + q2);
        assert((ps + qs).last() == qs.last());
        let last = qs.last();
        lemma_first_wins_dom(ps + q2, last.0);
        lemma_first_wins_dom(ps, last.0);
        lemma_first_wins_dom(q2, last.0);
        if first_wins(ps + q2).contains_key(last.0) {
            if !first_wins(q2).contains_key(last.0) {
                assert(first_wins(ps).contains_key(last.0));
            }
        }
    }
}

/// A table built from pairs that all carry key `k` gives `k` to each of
/// their ids.
pub proof fn lemma_first_wins_same_key(ps: Seq<(Seq<char>, Seq<char>)>, k: Seq<char>, id: Seq<char>)
    requires
        forall|i: int| 0 <= i < ps.len() ==> (#[trigger] ps[i]).1 == k,
    ensures
        first_wins(ps).contains_key(id) ==> first_wins(ps)[id] == k,
    decreases ps.len(),
{
    if ps.len() > 0 {
        let q = ps.drop_last();
        assert forall|i: int| 0 <= i < q.len() implies (#[trigger] q[i]).1 == k by {
            assert(q[i] == ps[i]);
        }
        lemma_first_wins_same_key(q, k, id);
        assert(ps.last() == ps[ps.len() - 1]);
    }
}

/// Some pair carries `id` exactly when some key names it.
pub proof fn lemma_key_pairs_ids(keys: Seq<Seq<char>>, id: Seq<char>)
    ensures
        (exists|i: int| 0 <= i < key_pairs(keys).len() && key_pairs(keys)[i].0 == id) <==> (exists|
            j: int,
        |
            0 <= j < keys.len() && #[trigger] feeder_ids_spec(keys[j]).contains(id)),
        forall|i: int| 0 <= i < key_pairs(keys).len() ==> keys.contains(#[trigger] key_pairs(keys)[i].1),
    decreases keys.len(),
{
    if keys.len() > 0 {
        let q = keys.drop_last();
        let k = keys.last();
        lemma_key_pairs_ids(q, id);
        let a = key_pairs(q);
        let b = feeder_ids_spec(k).map_values(|x: Seq<char>| (x, k));
        assert(key_pairs(keys) == a + b);
        assert forall|i: int| 0 <= i < key_pairs(keys).len() implies keys.contains(
            #[trigger] key_pairs(keys)[i].1,
        ) by {
            if i < a.len() {
                assert(key_pairs(keys)[i] == a[i]);
                let j = choose|j: int| 0 <= j < q.len() && q[j] == a[i].1;
                assert(keys[j] == q[j]);
            } else {
                assert(key_pairs(keys)[i] == b[i - a.len()]);
                assert(keys[keys.len() - 1] == k);
            }
        }
        if exists|i: int| 0 <= i < key_pairs(keys).len() && key_pairs(keys)[i].0 == id {
            let i = choose|i: int| 0 <= i < key_pairs(keys).len() && key_pairs(keys)[i].0 == id;
            if i < a.len() {
                assert(key_pairs(keys)[i] == a[i]);
                let j = choose|j: int| 0 <= j < q.len() && #[trigger] feeder_ids_spec(q[j]).contains(id);
                assert(keys[j] == q[j]);
                assert(feeder_ids_spec(keys[j]).contains(id));
            } else {
                assert(key_pairs(keys)[i] == b[i - a.len()]);
                assert(feeder_ids_spec(k)[i - a.len()] == id);
                assert(keys[keys.len() - 1] == k);
                assert(feeder_ids_spec(keys[keys.len() - 1]).contains(id));
            }
        }
        if exists|j: int| 0 <= j < keys.len() && #[trigger] feeder_ids_spec(keys[j]).contains(id) {
            let j = choose|j: int| 0 <= j < keys.len() && #[trigger] feeder_ids_spec(keys[j]).contains(id);
            if j < q.len() {
                assert(keys[j] == q[j]);
                assert(feeder_ids_spec(q[j]).contains(id));
                let i = choose|i: int| 0 <= i < a.len() && a[i].0 == id;
                assert(key_pairs(keys)[i] == a[i]);
            } else {
                let t = choose|t: int| 0 <= t < feeder_ids_spec(k).len() && feeder_ids_spec(k)[t] == id;
                assert(key_pairs(keys)[a.len() + t] == b[t]);
            }
        }
    }
}

/// The feeder table of a list of keys holds exactly the ids that some key
/// names, and gives each id the first key (in list order) that names it.
pub proof fn lemma_feeder_table(keys: Seq<Seq<char>>, j: int, id: Seq<char>)
    requires
        0 <= j < keys.len(),
        feeder_ids_spec(keys[j]).contains(id),
        forall|i: int| 0 <= i < j ==> !(#[trigger] feeder_ids_spec(keys[i])).contains(id),
    ensures
        first_wins(key_pairs(keys)).contains_key(id),
        first_wins(key_pairs(keys))[id] == keys[j],
    decreases keys.len(),
{
    let q = keys.drop_last();
    let k = keys.last();
    let a = key_pairs(q);
    let b = feeder_ids_spec(k).map_values(|x: Seq<char>| (x, k));
    assert(key_pairs(keys) == a + b);
    lemma_first_wins_append(a, b, id);
    if j < keys.len() - 1 {
        assert(q[j] == keys[j]);
        assert forall|i: int| 0 <= i < j implies !(#[trigger] feeder_ids_spec(q[i])).contains(id) by {
            assert(q[i] == keys[i]);
        }
        lemma_feeder_table(q, j, id);
    } else {
        lemma_first_wins_dom(a, id);
        lemma_key_pairs_ids(q, id);
        assert(!first_wins(a).contains_key(id)) by {
            if first_wins(a).contains_key(id) {
                let i = choose|i: int| 0 <= i < q.len() && #[trigger] feeder_ids_spec(q[i]).contains(id);
                assert(q[i] == keys[i]);
            }
        }
        let t = choose|t: int| 0 <= t < feeder_ids_spec(k).len() && feeder_ids_spec(k)[t] == id;
        assert(b[t].0 == id);
        lemma_first_wins_dom(b, id);
        assert forall|i: int| 0 <= i < b.len() implies (#[trigger] b[i]).1 == k by {}
        lemma_first_wins_same_key(b, k, id);
    }
}

/// A table built from the single key `CCC-ddV` (or `CCC-ddW`) sends feeder
/// `CCCdd` to that key.
pub proof fn lemma_seven_char_table(a: char, b: char, c: char, d: char, e: char, m: char)
    requires
        'A' <= a <= 'Z',
        'A' <= b <= 'Z',
        'A' <= c <= 'Z',
        '0' <= d <= '9',
        '0' <= e <= '9',
        m == 'V' || m == 'W',
    ensures
        first_wins(key_pairs(seq![seq![a, b, c, '-', d, e, m]])).contains_key(seq![a, b, c, d, e]),
        first_wins(key_pairs(seq![seq![a, b, c, '-', d, e, m]]))[seq![a, b, c, d, e]] == seq![
            a,
            b,
            c,
            '-',
            d,
            e,
            m,
        ],
{
    let k = seq![a, b, c, '-', d, e, m];
    let keys = seq![k];
    lemma_seven_char_key(a, b, c, d, e, m);
    assert(feeder_ids_spec(keys[0])[0] == seq![a, b, c, d, e]);
    assert(feeder_ids_spec(keys[0]).contains(seq![a, b, c, d, e]));
    lemma_feeder_table(keys, 0, seq![a, b, c, d, e]);
}

/// An id that no key names is not in the table.
pub proof fn lemma_feeder_table_absent(keys: Seq<Seq<char>>, id: Seq<char>)
    requires
        forall|i: int| 0 <= i < keys.len() ==> !(#[trigger] feeder_ids_spec(keys[i])).contains(id),
    ensures
        !first_wins(key_pairs(keys)).contains_key(id),
{
    lemma_first_wins_dom(key_pairs(keys), id);
    lemma_key_pairs_ids(keys, id);
}

/// A table from feeder id to the load-profile key that first named it.
pub struct FeederMap {
    entries: Vec<(String, String)>,
}

impl FeederMap {
    /// The kept (id, key) pairs, in the order they were kept.
    pub closed spec fn pairs(&self) -> Seq<(Seq<char>, Seq<char>)> {
        self.entries@.map_values(|e: (String, String)| (e.0@, e.1@))
    }
}

impl View for FeederMap {
    type V = Map<Seq<char>, Seq<char>>;

    closed spec fn view(&self) -> Map<Seq<char>, Seq<char>> {
        first_wins(self.pairs())
    }
}

impl FeederMap {
    /// An empty table.
    pub fn new() -> (r: Self)
        ensures
            r@ == Map::<Seq<char>, Seq<char>>::empty(),
    {
        let r = FeederMap { entries: Vec::new() };
        assert(r.pairs() =~= Seq::<(Seq<char>, Seq<char>)>::empty());
        r
    }

    /// The key kept for `id`, if any.
    pub fn get(&self, id: &String) -> (r: Option<String>)
        ensures
            r is Some <==> self@.contains_key(id@),
            r matches Some(k) ==> k@ == self@[id@],
    {
        let n = self.entries.len();
        let mut i: usize = 0;
        while i < n
            invariant
                n == self.entries@.len(),
                i <= n,
                forall|k: int| 0 <= k < i ==> self.pairs()[k].0 != id@,
            decreases n - i,
        {
            if self.entries[i].0 == *id {
                proof {
                    lemma_first_wins_value(self.pairs(), i as int);
                }
                return Some(self.entries[i].1.clone());
            }
            i = i + 1;
        }
        proof {
            lemma_first_wins_dom(self.pairs(), id@);
        }
        None
    }

    /// Keeps `key` for `id` unless `id` already has a key; gives back the key
    /// already kept in that case.
    pub fn insert_first(&mut self, id: String, key: String) -> (r: Option<String>)
        ensures
            r is Some <==> old(self)@.contains_key(id@),
            r matches Some(k) ==> k@ == old(self)@[id@] && final(self)@ == old(self)@,
            r is None ==> final(self)@ == old(self)@.insert(id@, key@),
    {
        match self.get(&id) {
            Some(k) => Some(k),
            None => {
                let ghost before = self.pairs();
                self.entries.push((id, key));
                assert(self.pairs().drop_last() =~= before);
                None
            },
        }
    }
}

/// The table from feeder id to load-profile key built from `keys` in order,
/// the first key that names an id winning; also the refused keys, each with
/// the key already kept and the id, in the order met.
pub fn feeder_key_map(keys: &Vec<String>) -> (r: (FeederMap, Vec<(String, String, String)>))
    ensures
        r.0@ == first_wins(key_pairs(keys@.map_values(|k: String| k@))),
        r.1@.map_values(|d: (String, String, String)| (d.0@, d.1@, d.2@)) == dup_reports(
            key_pairs(keys@.map_values(|k: String| k@)),
        ),
{
    let ghost kv = keys@.map_values(|k: String| k@);
    let mut m = FeederMap::new();
    let mut dups: Vec<(String, String, String)> = Vec::new();
    let n = keys.len();
    let mut ki: usize = 0;
    assert(key_pairs(kv.subrange(0, 0)) =~= Seq::<(Seq<char>, Seq<char>)>::empty());
    assert(dups@.map_values(|d: (String, String, String)| (d.0@, d.1@, d.2@)) =~= Seq::<
        (Seq<char>, Seq<char>, Seq<char>),
    >::empty());
    while ki < n
        invariant
            n == keys@.len(),
            kv == keys@.map_values(|k: String| k@),
            ki <= n,
            m@ == first_wins(key_pairs(kv.subrange(0, ki as int))),
            dups@.map_values(|d: (String, String, String)| (d.0@, d.1@, d.2@)) == dup_reports(
                key_pairs(kv.subrange(0, ki as int)),
            ),
        decreases n - ki,
    {
        let k = &keys[ki];
        let ids = feeder_ids(k.as_str());
        let ghost done = key_pairs(kv.subrange(0, ki as int));
        let ghost idv = ids@.map_values(|x: String| x@);
        let nid = ids.len();
        let mut t: usize = 0;
        while t < nid
            invariant
                nid == ids@.len(),
                idv == ids@.map_values(|x: String| x@),
                t <= nid,
                k@ == kv[ki as int],
                m@ == first_wins(done + idv.subrange(0, t as int).map_values(|id: Seq<char>| (id, k@))),
                dups@.map_values(|d: (String, String, String)| (d.0@, d.1@, d.2@)) == dup_reports(
                    done + idv.subrange(0, t as int).map_values(|id: Seq<char>| (id, k@)),
                ),
            decreases nid - t,
        {
            let id = ids[t].clone();
            let ghost ps = done + idv.subrange(0, t as int).map_values(|id: Seq<char>| (id, k@));
            let ghost ps2 = done + idv.subrange(0, t + 1).map_values(|id: Seq<char>| (id, k@));
            assert(ps2.drop_last() =~= ps);
            assert(ps2.last() == (idv[t as int], k@));
            let ghost dv = dups@.map_values(|d: (String, String, String)| (d.0@, d.1@, d.2@));
            match m.insert_first(id.clone(), k.clone()) {
                Some(old_key) => {
                    dups.push((old_key, id, k.clone()));
                    assert(dups@.map_values(|d: (String, String, String)| (d.0@, d.1@, d.2@))
                        =~= dv.push((first_wins(ps)[idv[t as int]], idv[t as int], k@)));
                },
                None => {},
            }
            t = t + 1;
        }
        proof {
            assert(kv.subrange(0, ki + 1).drop_last() =~= kv.subrange(0, ki as int));
            assert(kv.subrange(0, ki + 1).last() == k@);
            assert(ids@.map_values(|x: String| x@) == feeder_ids_spec(k@));
            assert(idv.subrange(0, nid as int) =~= idv);
            assert(key_pairs(kv.subrange(0, ki + 1)) == done + feeder_ids_spec(k@).map_values(
                |id: Seq<char>| (id, k@),
            ));
        }
        ki = ki + 1;
    }
    assert(kv.subrange(0, n as int) =~= kv);
    (m, dups)
}

/// The load-profile key of feeder `fid`, or `"-"` where no key names it.
pub fn feeder_lp_key(m: &FeederMap, fid: &String) -> (r: String)
    ensures
        r@ == (if m@.contains_key(fid@) {
            m@[fid@]
        } else {
            "-"@
        }),
{
    match m.get(fid) {
        Some(k) => k,
        None => String::from_str("-"),
    }
}

} // verus!
