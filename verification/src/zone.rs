use vstd::prelude::*;
use crate::text::two_chars;

verus! {

/// A land-use zone of the map layer, reduced to what the assessment reads:
/// its two-character zone code, where the layer gives one.
pub struct GisZone {
    pub zncd: Option<String>,
}

/// The code spelled by two characters.
pub open spec fn code(a: char, b: char) -> Seq<char> {
    seq![a, b]
}

/// The load-density factor of a zone code; zones without a code, and
/// codes not listed, weigh 10.
pub open spec fn zone_factor_spec(zncd: Option<Seq<char>>) -> nat {
    match zncd {
        None => 10,
        Some(c) => if c == code('2', '1') {
            12
        } else if c == code('2', '2') {
            21
        } else if c == code('2', '3') {
            20
        } else if c == code('2', '4') {
            19
        } else if c == code('2', '5') {
            18
        } else if c == code('1', '1') {
            17
        } else if c == code('1', '2') {
            16
        } else if c == code('1', '3') {
            15
        } else if c == code('1', '4') {
            14
        } else if c == code('3', '1') {
            13
        } else if c == code('4', '1') {
            12
        } else if c == code('4', '2') {
            11
        } else {
            10
        },
    }
}

/// The view of a zone's code.
pub open spec fn zone_code(zn: &GisZone) -> Option<Seq<char>> {
    match zn.zncd {
        None => None,
        Some(c) => Some(c@),
    }
}

/// The load-density factor of a zone (a whole number).
pub fn zone_factor(zn: &GisZone) -> (r: u32)
    ensures
        r == zone_factor_spec(zone_code(zn)),
        10 <= r <= 21,
{
    match &zn.zncd {
        None => 10,
        Some(c) => match two_chars(c.as_str()) {
            None => {
                assert(c@ != code('2', '1'));
                10
            },
            Some((a, b)) => {
                if a == '2' && b == '1' {
                    12
                } else if a == '2' && b == '2' {
                    21
                } else if a == '2' && b == '3' {
                    20
                } else if a == '2' && b == '4' {
                    19
                } else if a == '2' && b == '5' {
                    18
                } else if a == '1' && b == '1' {
                    17
                } else if a == '1' && b == '2' {
                    16
                } else if a == '1' && b == '3' {
                    15
                } else if a == '1' && b == '4' {
                    14
                } else if a == '3' && b == '1' {
                    13
                } else if a == '4' && b == '1' {
                    12
                } else if a == '4' && b == '2' {
                    11
                } else {
                    proof {
                        let s = seq![a, b];
                        assert(s[0] == a && s[1] == b);
                        assert(code('2', '1')[0] == '2' && code('2', '1')[1] == '1');
                    }
                    10
                }
            },
        },
    }
}


/// The zone class that a transformer takes from one zone code: 5 for codes
/// 21, 22, 24; 4 for 11 to 14; 3 for 23, 25, 31; 2 for 41, 42; 1 otherwise.
pub open spec fn zone_class_spec(c: Seq<char>) -> nat {
    if c == code('2', '1') || c == code('2', '2') || c == code('2', '4') {
        5
    } else if c == code('1', '1') || c == code('1', '2') || c == code('1', '3') || c == code(
        '1',
        '4',
    ) {
        4
    } else if c == code('2', '3') || c == code('2', '5') || c == code('3', '1') {
        3
    } else if c == code('4', '1') || c == code('4', '2') {
        2
    } else {
        1
    }
}

/// The class of a two-character zone code, by its characters: 21, 22, 24
/// give 5; 11 to 14 give 4; 23, 25, 31 give 3; 41, 42 give 2; any other
/// code gives 1.
pub proof fn lemma_zone_class_table(a: char, b: char)
    ensures
        zone_class_spec(seq![a, b]) == (if a == '2' && (b == '1' || b == '2' || b == '4') {
            5nat
        } else if a == '1' && ('1' <= b <= '4') {
            4nat
        } else if (a == '2' && (b == '3' || b == '5')) || (a == '3' && b == '1') {
            3nat
        } else if a == '4' && (b == '1' || b == '2') {
            2nat
        } else {
            1nat
        }),
{
    let s = seq![a, b];
    assert(s[0] == a && s[1] == b);
    assert forall|x: char, y: char| (s == code(x, y)) <==> (a == x && b == y) by {
        if s == code(x, y) {
            assert(code(x, y)[0] == x && code(x, y)[1] == y);
        }
        if a == x && b == y {
            assert(s =~= code(x, y));
        }
    }
}

/// A code that is not two characters long has class 1.
pub proof fn lemma_zone_class_other_length(c: Seq<char>)
    requires
        c.len() != 2,
    ensures
        zone_class_spec(c) == 1,
{
}

/// A transformer whose zones all carry codes of one class has that class.
pub proof fn lemma_zone_class_single(zons: Seq<GisZone>, zi: usize, a: char, b: char)
    requires
        zi < zons.len(),
        zons[zi as int].zncd matches Some(c) && c@ == seq![a, b],
    ensures
        class_at(zons, zi) == zone_class_spec(seq![a, b]),
{
}

fn zone_class_of(c: &String) -> (r: u32)
    ensures
        r == zone_class_spec(c@),
{
    match two_chars(c.as_str()) {
        None => {
            assert(c@ != code('2', '1'));
            1
        },
        Some((a, b)) => {
            proof {
                let s = seq![a, b];
                assert(s[0] == a && s[1] == b);
            }
            if (a == '2' && (b == '1' || b == '2' || b == '4')) {
                5
            } else if a == '1' && (b == '1' || b == '2' || b == '3' || b == '4') {
                4
            } else if (a == '2' && (b == '3' || b == '5')) || (a == '3' && b == '1') {
                3
            } else if a == '4' && (b == '1' || b == '2') {
                2
            } else {
                1
            }
        },
    }
}

/// The zones listed by index `zis` all lie in `zons` and carry a code.
pub open spec fn zones_coded(zons: Seq<GisZone>, zis: Seq<usize>) -> bool {
    forall|i: int|
        0 <= i < zis.len() ==> #[trigger] zis[i] < zons.len() && (zons[zis[i] as int].zncd is Some)
}

/// The class of zone `zi`.
pub open spec fn class_at(zons: Seq<GisZone>, zi: usize) -> nat {
    zone_class_spec(zons[zi as int].zncd->0@)
}

/// The zone class of a transformer: the highest class among its zones,
/// and 1 where it has none.
pub fn tr_zone_class(zons: &Vec<GisZone>, zis: &Vec<usize>) -> (r: u32)
    requires
        zones_coded(zons@, zis@),
    ensures
        1 <= r <= 5,
        forall|i: int| 0 <= i < zis@.len() ==> r >= class_at(zons@, #[trigger] zis@[i]),
        r == 1 || exists|i: int| 0 <= i < zis@.len() && r == class_at(zons@, #[trigger] zis@[i]),
{
    let mut r: u32 = 1;
    let n = zis.len();
    let mut i: usize = 0;
    while i < n
        invariant
            n == zis@.len(),
            i <= n,
            zones_coded(zons@, zis@),
            1 <= r <= 5,
            forall|k: int| 0 <= k < i ==> r >= class_at(zons@, #[trigger] zis@[k]),
            r == 1 || exists|k: int| 0 <= k < i && r == class_at(zons@, #[trigger] zis@[k]),
        decreases n - i,
    {
        let zi = zis[i];
        assert(zis@[i as int] < zons@.len());
        let c = match &zons[zi].zncd {
            Some(c) => c,
            None => {
                assert(false);
                return 1;
            },
        };
        let v = zone_class_of(c);
        assert(v == class_at(zons@, zis@[i as int]));
        if v > r {
            r = v;
        }
        i = i + 1;
    }
    r
}

} // verus!
