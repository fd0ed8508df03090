use bbsg_a05::web::{feeder_rows, field_index, page_keys, page_plan, Param, RowKey, WebTemp};

fn o(x: &str) -> Option<String> {
    Some(x.to_string())
}

#[test]
fn page_defaults() {
    let k = page_keys(&Param::default(), "NoTr");
    assert_eq!(k.fld, "NoTr");
    assert_eq!(k.sbid, "KLO");
    assert_eq!(k.fdid, "KLO01");
    assert_eq!(k.name, "FIELD NoTr");
}

#[test]
fn page_feeder_follows_substation() {
    let para = Param { fld: None, sbid: o("BPA"), fdid: None };
    let k = page_keys(&para, "NoTr");
    assert_eq!(k.fdid, "BPA01");
    let para = Param { fld: o("PowTrSat"), sbid: o("BPA"), fdid: o("BPA07") };
    let k = page_keys(&para, "NoTr");
    assert_eq!((k.fld.as_str(), k.sbid.as_str(), k.fdid.as_str()), ("PowTrSat", "BPA", "BPA07"));
}

#[test]
fn field_lookup() {
    let names = vec!["NoTr".to_string(), "NoPeaTr".to_string(), "NoTr".to_string()];
    assert_eq!(field_index(&names, &"NoTr".to_string()), Some(2));
    assert_eq!(field_index(&names, &"NoPeaTr".to_string()), Some(1));
    assert_eq!(field_index(&names, &"Gpp".to_string()), None);
}

#[test]
fn page_plan_unknown_field() {
    let names = vec!["NoTr".to_string(), "NoPeaTr".to_string()];
    assert!(page_plan(&Param { fld: o("Nope"), sbid: None, fdid: None }, &names).is_none());
    let (k, i) = page_plan(&Param::default(), &names).unwrap();
    assert_eq!((k.fld.as_str(), i), ("NoTr", 0));
}

#[test]
fn shown_rows_of_feeder() {
    let r = |f: &str, w: &str| RowKey { fdid: f.to_string(), own: w.to_string() };
    let rows = vec![r("KLO01", "P"), r("KLO01", "C"), r("KLO02", "P"), r("KLO01", "P")];
    assert_eq!(feeder_rows(&rows, "KLO01"), vec![0, 3]);
    assert!(feeder_rows(&rows, "KLO09").is_empty());
}

#[test]
fn empty_page_is_default() {
    let t: WebTemp<u8, u8, u8> = WebTemp::default();
    assert!(t.assv.is_empty() && t.name.is_empty());
}
