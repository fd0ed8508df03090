use bbsg_a05::engine::{get_tr_den, get_tr_zone, tr_aoj_label, DenSource, ProcEngine};
use bbsg_a05::zone::{tr_zone_class, zone_factor, GisZone};

fn z(c: Option<&str>) -> GisZone {
    GisZone { zncd: c.map(|x| x.to_string()) }
}

#[test]
fn zone_factor_table() {
    let table = [
        ("21", 12), ("22", 21), ("23", 20), ("24", 19), ("25", 18), ("11", 17), ("12", 16),
        ("13", 15), ("14", 14), ("31", 13), ("41", 12), ("42", 11), ("51", 10), ("99", 10),
        ("2", 10), ("211", 10),
    ];
    for (c, f) in table {
        assert_eq!(zone_factor(&z(Some(c))), f, "code {c}");
    }
    assert_eq!(zone_factor(&z(None)), 10);
}

#[test]
fn zone_class_takes_highest() {
    let zons = vec![z(Some("41")), z(Some("23")), z(Some("22")), z(Some("99")), z(Some("12"))];
    assert_eq!(tr_zone_class(&zons, &vec![]), 1);
    assert_eq!(tr_zone_class(&zons, &vec![3]), 1);
    assert_eq!(tr_zone_class(&zons, &vec![0]), 2);
    assert_eq!(tr_zone_class(&zons, &vec![0, 1]), 3);
    assert_eq!(tr_zone_class(&zons, &vec![4, 0]), 4);
    assert_eq!(tr_zone_class(&zons, &vec![0, 2, 1]), 5);
}

fn engine() -> ProcEngine {
    ProcEngine {
        zntr: vec![vec![], vec![1, 0]],
        zons: vec![z(Some("21")), z(Some("22"))],
        amtr: vec![vec![], vec![2], vec![1]],
        mutr: vec![vec![], vec![], vec![0]],
        n_amps: 3,
        n_muni: 1,
        aoj_names: vec![Some("KLG".to_string()), None],
    }
}

#[test]
fn tr_zone_first_zone_or_ten() {
    let eg = engine();
    assert_eq!(get_tr_zone(0, &eg), 10);
    assert_eq!(get_tr_zone(1, &eg), 21);
}

#[test]
fn tr_density_source() {
    let eg = engine();
    assert!(matches!(get_tr_den(0, &eg), DenSource::Lowest));
    assert!(matches!(get_tr_den(1, &eg), DenSource::Amphoe(2)));
    assert!(matches!(get_tr_den(2, &eg), DenSource::Muni(0)));
}

#[test]
fn tr_office_label() {
    let eg = engine();
    assert_eq!(tr_aoj_label(&vec![], &eg), "-");
    assert_eq!(tr_aoj_label(&vec![0, 1], &eg), "KLG");
    assert_eq!(tr_aoj_label(&vec![1], &eg), "-");
}
