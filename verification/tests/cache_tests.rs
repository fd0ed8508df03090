use bbsg_a05::cache::{get_pea00, get_pvrw00, get_sbrw00, Loaded};

#[test]
fn table_loaded_once() {
    let mut t: Loaded<Vec<u32>> = Loaded::new();
    assert!(!t.is_loaded());
    let mut calls = 0;
    let first = get_sbrw00(&mut t, || {
        calls += 1;
        vec![1, 2]
    })
    .clone();
    assert_eq!(first, vec![1, 2]);
    let second = get_sbrw00(&mut t, || {
        calls += 1;
        vec![9]
    })
    .clone();
    assert_eq!(second, vec![1, 2]);
    assert_eq!(calls, 1);
    assert!(t.is_loaded());
}

#[test]
fn province_and_tree_tables() {
    let mut p: Loaded<Vec<&str>> = Loaded::new();
    assert_eq!(get_pvrw00(&mut p, || vec!["a"]), &vec!["a"]);
    assert_eq!(get_pvrw00(&mut p, || vec!["b"]), &vec!["a"]);
    let mut t: Loaded<String> = Loaded::new();
    assert_eq!(get_pea00(&mut t, || "pea".to_string()), "pea");
    assert_eq!(get_pea00(&mut t, || "other".to_string()), "pea");
}
