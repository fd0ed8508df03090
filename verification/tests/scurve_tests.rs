use bbsg_a05::scurve::{window_offsets, year_offsets, EV_SCURV_BEG, RE_SCURV_BEG};

#[test]
fn window_offsets_from_curve_start() {
    let ev = window_offsets(EV_SCURV_BEG);
    assert_eq!(ev.len(), 15);
    assert_eq!(ev[0], 5);
    assert_eq!(ev[14], 19);
    let re = window_offsets(RE_SCURV_BEG);
    assert_eq!(re[0], 8);
    assert_eq!(re[14], 22);
}

#[test]
fn year_offsets_ranges() {
    assert_eq!(year_offsets(2020, 2022, 2018), vec![2, 3, 4]);
    assert!(year_offsets(2023, 2022, 2018).is_empty());
    assert_eq!(year_offsets(2018, 2018, 2018), vec![0]);
}
