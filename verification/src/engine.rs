use vstd::prelude::*;
use vstd::string::StringExecFns;
use crate::zone::{GisZone, zone_factor, zone_factor_spec, zone_code};

verus! {

/// The lookup tables of one area that the transformer assessment reads,
/// as plain indices: for each transformer, the zones, districts (amphoe)
/// and municipalities it lies in; the zones themselves; how many district
/// and municipality records there are; and the short name of each office
/// (AOJ), where it has one.
pub struct ProcEngine {
    pub zntr: Vec<Vec<usize>>,
    pub zons: Vec<GisZone>,
    pub amtr: Vec<Vec<usize>>,
    pub mutr: Vec<Vec<usize>>,
    pub n_amps: usize,
    pub n_muni: usize,
    pub aoj_names: Vec<Option<String>>,
}

/// The zone factor of transformer `ti`: that of its first zone, or 10 where it
/// lies in no zone.
pub open spec fn tr_zone_spec(eg: &ProcEngine, ti: int) -> nat {
    let zn = eg.zntr@[ti]@;
    if zn.len() == 0 {
        10
    } else {
        zone_factor_spec(zone_code(&eg.zons@[zn[0] as int]))
    }
}

/// A transformer that lies in a zone takes the factor of the first zone it
/// lists, whatever other zones follow; one in no zone weighs 10.
pub proof fn lemma_tr_zone(eg: &ProcEngine, ti: int)
    requires
        0 <= ti < eg.zntr@.len(),
    ensures
        eg.zntr@[ti]@.len() > 0 ==> tr_zone_spec(eg, ti) == zone_factor_spec(
            zone_code(&eg.zons@[eg.zntr@[ti]@[0] as int]),
        ),
        eg.zntr@[ti]@.len() == 0 ==> tr_zone_spec(eg, ti) == 10,
{
}

/// Two transformers whose first zones are the same zone have the same
/// factor.
pub proof fn lemma_tr_zone_same_first(eg: &ProcEngine, t1: int, t2: int)
    requires
        0 <= t1 < eg.zntr@.len(),
        0 <= t2 < eg.zntr@.len(),
        eg.zntr@[t1]@.len() > 0,
        eg.zntr@[t2]@.len() > 0,
        eg.zntr@[t1]@[0] == eg.zntr@[t2]@[0],
    ensures
        tr_zone_spec(eg, t1) == tr_zone_spec(eg, t2),
{
}

/// The zone factor of transformer `ti` (a whole number).
pub fn get_tr_zone(ti: usize, eg: &ProcEngine) -> (r: u32)
    requires
        ti < eg.zntr@.len(),
        eg.zntr@[ti as int]@.len() > 0 ==> eg.zntr@[ti as int]@[0] < eg.zons@.len(),
    ensures
        r == tr_zone_spec(eg, ti as int),
{
    let zn = &eg.zntr[ti];
    if zn.len() == 0 {
        return 10;
    }
    zone_factor(&eg.zons[zn[0]])
}

/// Where the population density of a transformer comes from.
pub enum DenSource {
    /// The municipality record with this index.
    Muni(usize),
    /// The district record with this index.
    Amphoe(usize),
    /// The lowest density over all district records.
    Lowest,
}

/// A transformer takes the density of its first municipality; failing that,
/// of its first district; failing both, the lowest density of the area.
pub open spec fn tr_den_spec(eg: &ProcEngine, ti: int) -> DenSource {
    let am = eg.amtr@[ti]@;
    let mu = eg.mutr@[ti]@;
    if mu.len() > 0 {
        DenSource::Muni(mu[0])
    } else if am.len() > 0 {
        DenSource::Amphoe(am[0])
    } else {
        DenSource::Lowest
    }
}

/// The record whose density transformer `ti` takes.
pub fn get_tr_den(ti: usize, eg: &ProcEngine) -> (r: DenSource)
    requires
        ti < eg.amtr@.len(),
        ti < eg.mutr@.len(),
        eg.amtr@[ti as int]@.len() > 0 ==> eg.amtr@[ti as int]@[0] < eg.n_amps,
        eg.mutr@[ti as int]@.len() > 0 ==> eg.mutr@[ti as int]@[0] < eg.n_muni,
        eg.amtr@[ti as int]@.len() == 0 && eg.mutr@[ti as int]@.len() == 0 ==> eg.n_amps > 0,
    ensures
        r == tr_den_spec(eg, ti as int),
        r matches DenSource::Muni(i) ==> i < eg.n_muni,
        r matches DenSource::Amphoe(i) ==> i < eg.n_amps,
        r is Lowest ==> eg.n_amps > 0,
{
    let am = &eg.amtr[ti];
    let mu = &eg.mutr[ti];
    let mut dns = DenSource::Lowest;
    if am.len() > 0 {
        dns = DenSource::Amphoe(am[0]);
    }
    if mu.len() > 0 {
        dns = DenSource::Muni(mu[0]);
    }
    dns
}

/// The office label of a transformer: the short name of its first office,
/// or `"-"` where it has no office or the office has no short name.
pub open spec fn tr_aoj_spec(eg: &ProcEngine, aojs: Seq<usize>) -> Seq<char> {
    if aojs.len() == 0 {
        "-"@
    } else {
        match eg.aoj_names@[aojs[0] as int] {
            Some(n) => n@,
            None => "-"@,
        }
    }
}

/// A transformer with an office whose first office has short name `n` is
/// labelled `n`; it is labelled "-" only where it has no office or its first
/// office has no short name; offices after the first do not matter.
pub proof fn lemma_tr_aoj(eg: &ProcEngine, aojs: Seq<usize>)
    ensures
        aojs.len() > 0 ==> (eg.aoj_names@[aojs[0] as int] matches Some(n) ==> tr_aoj_spec(eg, aojs)
            == n@),
        aojs.len() > 0 ==> (eg.aoj_names@[aojs[0] as int] is None ==> tr_aoj_spec(eg, aojs)
            == "-"@),
        aojs.len() == 0 ==> tr_aoj_spec(eg, aojs) == "-"@,
        aojs.len() > 0 ==> tr_aoj_spec(eg, aojs) == tr_aoj_spec(eg, seq![aojs[0]]),
{
    if aojs.len() > 0 {
        assert(seq![aojs[0]][0] == aojs[0]);
    }
}

/// The office label of a transformer with offices `aojs`.
pub fn tr_aoj_label(aojs: &Vec<usize>, eg: &ProcEngine) -> (r: String)
    requires
        aojs@.len() > 0 ==> aojs@[0] < eg.aoj_names@.len(),
    ensures
        r@ == tr_aoj_spec(eg, aojs@),
{
    if aojs.len() == 0 {
        String::from_str("-")
    } else {
        match &eg.aoj_names[aojs[0]] {
            Some(n) => n.clone(),
            None => String::from_str("-"),
        }
    }
}

} // verus!
