use bbsg_a05::names::{aoj_list, distinct_names, has_name, p01_chk, split_province};

fn v(xs: &[&str]) -> Vec<String> {
    xs.iter().map(|x| x.to_string()).collect()
}

#[test]
fn distinct_keeps_first_order() {
    assert_eq!(distinct_names(&v(&["b", "a", "b", "c", "a"])), v(&["b", "a", "c"]));
    assert_eq!(distinct_names(&v(&[])), v(&[]));
}

#[test]
fn selected_substations_set() {
    let set = p01_chk(v(&["KLO", "BPA", "KLO"]));
    assert_eq!(set.len(), 2);
    assert!(has_name(&set, &"KLO".to_string()));
    assert!(has_name(&set, &"BPA".to_string()));
    assert!(!has_name(&set, &"XYZ".to_string()));
}

#[test]
fn office_list_joined() {
    assert_eq!(aoj_list(&v(&["A1", "B2", "A1"])), "A1,B2");
    assert_eq!(aoj_list(&v(&["A1"])), "A1");
    assert_eq!(aoj_list(&v(&[])), "");
}

#[test]
fn province_split() {
    let (kept, same) = split_province(&v(&["10", "20", "10", "30"]), "10");
    assert_eq!(kept, vec![1, 3]);
    assert_eq!(same, vec![0, 2]);
    let (kept, same) = split_province(&v(&[]), "10");
    assert!(kept.is_empty() && same.is_empty());
}
