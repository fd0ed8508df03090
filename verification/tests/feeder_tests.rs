use bbsg_a05::feeder::{feeder_ids, feeder_key_map, feeder_lp_key, FeederMap};
use regex::Regex;

fn s(x: &str) -> String {
    x.to_string()
}

#[test]
fn feeder_id_from_profile_key() {
    assert_eq!(feeder_ids("KLO-01VB01"), vec![s("KLO01")]);
    assert_eq!(feeder_ids("KLO-01W"), vec![s("KLO01")]);
}

#[test]
fn feeder_id_found_inside_key() {
    assert_eq!(feeder_ids("x_ABC-12Vzz"), vec![s("ABC12")]);
}

#[test]
fn feeder_id_absent() {
    assert!(feeder_ids("KLO-01X").is_empty());
    assert!(feeder_ids("Klo-01V").is_empty());
    assert!(feeder_ids("KLO01V").is_empty());
    assert!(feeder_ids("KLO-1V").is_empty());
    assert!(feeder_ids("").is_empty());
}

#[test]
fn feeder_id_one_per_line() {
    // the trailing `.*` stops at a line break, so a second line can match again
    assert_eq!(
        feeder_ids("KLO-01V ABC-02W\nXYZ-03W"),
        vec![s("KLO01"), s("XYZ03")]
    );
}

#[test]
fn feeder_map_first_key_wins() {
    let keys = vec![s("KLO-01VA"), s("KLO-02W"), s("KLO-01VB"), s("none")];
    let (m, dups) = feeder_key_map(&keys);
    assert_eq!(m.get(&s("KLO01")), Some(s("KLO-01VA")));
    assert_eq!(m.get(&s("KLO02")), Some(s("KLO-02W")));
    assert_eq!(m.get(&s("KLO03")), None);
    assert_eq!(dups, vec![(s("KLO-01VA"), s("KLO01"), s("KLO-01VB"))]);
}

#[test]
fn feeder_lp_key_default_dash() {
    let keys = vec![s("BPA-05V")];
    let (m, _) = feeder_key_map(&keys);
    assert_eq!(feeder_lp_key(&m, &s("BPA05")), s("BPA-05V"));
    assert_eq!(feeder_lp_key(&m, &s("BPA06")), s("-"));
}

#[test]
fn feeder_map_insert_first() {
    let mut m = FeederMap::new();
    assert_eq!(m.insert_first(s("AAA01"), s("k1")), None);
    assert_eq!(m.insert_first(s("AAA01"), s("k2")), Some(s("k1")));
    assert_eq!(m.get(&s("AAA01")), Some(s("k1")));
}

fn gen_text(seed: &mut u64, pool: &[&str], parts: usize) -> String {
    let mut out = String::new();
    for _ in 0..parts {
        *seed = seed.wrapping_mul(6364136223846793005).wrapping_add(1442695040888963407);
        let k = ((*seed >> 33) as usize) % pool.len();
        out.push_str(pool[k]);
    }
    out
}

#[test]
fn feeder_ids_agree_with_pattern() {
    let re = Regex::new(r"([A-Z]{3})-([0-9]{2})[VW].*").unwrap();
    let pool = ["KLO", "-", "01", "V", "W", "\n", "a", "AB", "9", "X", "é", " "];
    let mut seed = 7u64;
    for n in 0..3000 {
        let text = gen_text(&mut seed, &pool, 1 + n % 9);
        let expected: Vec<String> = re
            .captures_iter(&text)
            .map(|c| format!("{}{}", &c[1], &c[2]))
            .collect();
        assert_eq!(feeder_ids(&text), expected, "text {:?}", text);
    }
}
