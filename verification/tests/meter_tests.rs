use bbsg_a05::meter::{is_pea_owned, meter_phase, meter_phase_counts, Phase};

fn p(x: Option<&str>) -> Option<String> {
    x.map(|s| s.to_string())
}

#[test]
fn phase_of_meter() {
    assert_eq!(meter_phase(&p(Some("A"))), Phase::A);
    assert_eq!(meter_phase(&p(Some("B"))), Phase::B);
    assert_eq!(meter_phase(&p(Some("C"))), Phase::C);
    assert_eq!(meter_phase(&p(Some("ABC"))), Phase::Three);
    assert_eq!(meter_phase(&p(Some(""))), Phase::Three);
    assert_eq!(meter_phase(&p(None)), Phase::Three);
}

#[test]
fn owner_code() {
    assert!(is_pea_owned("P"));
    assert!(!is_pea_owned("C"));
    assert!(!is_pea_owned("PP"));
}

#[test]
fn phase_counts_of_own_transformer() {
    let phs = vec![p(Some("A")), p(None), p(Some("C")), p(Some("3")), p(Some("B"))];
    assert_eq!(meter_phase_counts("P", &phs), (3, 2));
    assert_eq!(meter_phase_counts("C", &phs), (0, 0));
    assert_eq!(meter_phase_counts("P", &vec![]), (0, 0));
}
