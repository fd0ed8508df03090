use bbsg_a05::watch::is_watched_sub;
use regex::Regex;

#[test]
fn watched_substations() {
    assert!(is_watched_sub("KHLONG LUANG 1"));
    assert!(is_watched_sub("xKHLONG LUANG"));
    assert!(is_watched_sub("PA TONG"));
    assert!(is_watched_sub("HUA HIN 2"));
    assert!(!is_watched_sub("HUA HIN"));
    assert!(!is_watched_sub("HUA HIN\n"));
    assert!(!is_watched_sub("KHLONG  LUANG"));
    assert!(!is_watched_sub("pa tong"));
    assert!(!is_watched_sub(""));
}

#[test]
fn watched_agrees_with_pattern() {
    let re = Regex::new(r".*(KHLONG LUANG)|(PA TONG)|(HUA HIN).+").unwrap();
    let pool = ["KHLONG LUANG", "PA TONG", "HUA HIN", "HUA HI", "PA", " TONG", "\n", " ", "x", "é"];
    let mut seed = 11u64;
    for n in 0..3000 {
        let mut text = String::new();
        for _ in 0..(n % 5) {
            seed = seed.wrapping_mul(6364136223846793005).wrapping_add(1442695040888963407);
            text.push_str(pool[((seed >> 33) as usize) % pool.len()]);
        }
        assert_eq!(is_watched_sub(&text), re.is_match(&text), "text {:?}", text);
    }
}
