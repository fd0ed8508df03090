use vstd::prelude::*;
use vstd::string::StringExecFns;
use crate::text::text_eq;

verus! {

/// The query of the transformer page: the field to show, the substation
/// and the feeder; each may be left out.
#[derive(Debug, Default)]
pub struct Param {
    pub fld: Option<String>,
    pub sbid: Option<String>,
    pub fdid: Option<String>,
}

/// What the transformer page shows: its title, the field, the substation
/// and the feeder.
#[derive(Debug)]
pub struct PageKeys {
    pub name: String,
    pub fld: String,
    pub sbid: String,
    pub fdid: String,
}

/// The given text, or the default where none is given.
pub open spec fn or_default(p: Option<String>, d: Seq<char>) -> Seq<char> {
    match p {
        Some(s) => s@,
        None => d,
    }
}

/// The substation shown when the query names none.
pub open spec fn default_sbid() -> Seq<char> {
    "KLO"@
}

/// The page's field: the one asked for, else the first field on show
/// (`first_fld`); the substation: the one asked for, else "KLO"; the feeder:
/// the one asked for, else feeder "01" of that substation; the title:
/// "FIELD " followed by the field.
pub fn page_keys(para: &Param, first_fld: &str) -> (r: PageKeys)
    ensures
        r.fld@ == or_default(para.fld, first_fld@),
        r.sbid@ == or_default(para.sbid, default_sbid()),
        r.fdid@ == or_default(para.fdid, r.sbid@ + "01"@),
        r.name@ == "FIELD "@ + r.fld@,
{
    let fld = match &para.fld {
        Some(f) => f.clone(),
        None => String::from_str(first_fld),
    };
    let sbid = match &para.sbid {
        Some(s) => s.clone(),
        None => String::from_str("KLO"),
    };
    let fdid = match &para.fdid {
        Some(f) => f.clone(),
        None => sbid.clone().concat("01"),
    };
    let name = String::from_str("FIELD ").concat(fld.as_str());
    PageKeys { name, fld, sbid, fdid }
}

/// The field on show whose name is `fld`: the position of the last field of
/// that name in `names`, or `None` where no field has it.
pub fn field_index(names: &Vec<String>, fld: &String) -> (r: Option<usize>)
    ensures
        r is None <==> forall|i: int| 0 <= i < names@.len() ==> names@[i]@ != fld@,
        r matches Some(i) ==> i < names@.len() && names@[i as int]@ == fld@ && forall|j: int|
            i < j < names@.len() ==> names@[j]@ != fld@,
{
    let mut r: Option<usize> = None;
    let n = names.len();
    let mut i: usize = 0;
    while i < n
        invariant
            n == names@.len(),
            i <= n,
            r is None <==> forall|k: int| 0 <= k < i ==> names@[k]@ != fld@,
            r matches Some(k) ==> k < i && names@[k as int]@ == fld@ && forall|j: int|
                k < j < i ==> names@[j]@ != fld@,
        decreases n - i,
    {
        if names[i] == *fld {
            r = Some(i);
        }
        i = i + 1;
    }
    r
}

/// The keys of the transformer page and the position of its field among the
/// fields on show (`names`, whose first is shown by default); `None` where
/// the field asked for is not among them, and the page is left empty.
pub fn page_plan(para: &Param, names: &Vec<String>) -> (r: Option<(PageKeys, usize)>)
    requires
        names@.len() > 0,
    ensures
        ({
            let fld = or_default(para.fld, names@[0]@);
            &&& r is None <==> forall|i: int| 0 <= i < names@.len() ==> names@[i]@ != fld
            &&& r matches Some((k, i)) ==> {
                &&& k.fld@ == fld
                &&& k.sbid@ == or_default(para.sbid, default_sbid())
                &&& k.fdid@ == or_default(para.fdid, k.sbid@ + "01"@)
                &&& k.name@ == "FIELD "@ + fld
                &&& i < names@.len()
                &&& names@[i as int]@ == fld
                &&& forall|j: int| i < j < names@.len() ==> names@[j]@ != fld
            }
        }),
{
    let keys = page_keys(para, names[0].as_str());
    match field_index(names, &keys.fld) {
        Some(i) => Some((keys, i)),
        None => None,
    }
}

/// The transformer page: title, substation, feeder and field on show, the
/// utility's transformer rows of the feeder followed by their total
/// (`assv`), the substation's record, the field selected and the fields that
/// can be selected. The row, record and field types are the caller's.
#[derive(Debug, Default)]
pub struct WebTemp<A, S, V> {
    pub name: String,
    pub sbid: String,
    pub fdid: String,
    pub fld: String,
    pub assv: Vec<A>,
    pub sbinf: S,
    pub se_fld: V,
    pub shwfld: Vec<V>,
}

/// The feeder and owner of one transformer row.
#[derive(Debug)]
pub struct RowKey {
    pub fdid: String,
    pub own: String,
}

/// Whether a row belongs to feeder `fdid` and to the utility.
pub open spec fn row_shown(row: RowKey, fdid: Seq<char>) -> bool {
    row.fdid@ == fdid && row.own@ == "P"@
}

/// The positions of the rows that the page shows, in order.
pub open spec fn shown_rows(rows: Seq<RowKey>, fdid: Seq<char>) -> Seq<usize>
    decreases rows.len(),
{
    if rows.len() == 0 {
        Seq::empty()
    } else {
        let s = shown_rows(rows.drop_last(), fdid);
        if row_shown(rows.last(), fdid) {
            s.push((rows.len() - 1) as usize)
        } else {
            s
        }
    }
}

/// The positions of the utility's transformers on feeder `fdid`, in order.
pub fn feeder_rows(rows: &Vec<RowKey>, fdid: &str) -> (r: Vec<usize>)
    ensures
        r@ == shown_rows(rows@, fdid@),
{
    let mut r: Vec<usize> = Vec::new();
    let n = rows.len();
    let mut i: usize = 0;
    while i < n
        invariant
            n == rows@.len(),
            i <= n,
            r@ == shown_rows(rows@.subrange(0, i as int), fdid@),
        decreases n - i,
    {
        proof {
            assert(rows@.subrange(0, i + 1).drop_last() =~= rows@.subrange(0, i as int));
        }
        if text_eq(rows[i].fdid.as_str(), fdid) && text_eq(rows[i].own.as_str(), "P") {
            r.push(i);
        }
        i = i + 1;
    }
    assert(rows@.subrange(0, n as int) =~= rows@);
    r
}

} // verus!
