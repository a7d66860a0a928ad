use mod_info::{dependency_for, is_ignored, transform_names};

fn strings(v: &[&str]) -> Vec<String> {
    v.iter().map(|s| s.to_string()).collect()
}

#[test]
fn marker_is_prepended() {
    assert_eq!(dependency_for(&"base-mod".to_string()), "? base-mod");
    assert_eq!(dependency_for(&String::new()), "? ");
}

#[test]
fn ignore_match_is_exact_and_case_sensitive() {
    let ignore = strings(&["Alpha", "beta"]);
    assert!(is_ignored(&"Alpha".to_string(), &ignore));
    assert!(is_ignored(&"beta".to_string(), &ignore));
    assert!(!is_ignored(&"alpha".to_string(), &ignore));
    assert!(!is_ignored(&"bet".to_string(), &ignore));
    assert!(!is_ignored(&"beta ".to_string(), &ignore));
    assert!(!is_ignored(&"x".to_string(), &Vec::new()));
}

#[test]
fn ignored_names_never_emitted() {
    let names = strings(&["b", "a", "b", "ab", "c", "b"]);
    let ignore = strings(&["b"]);
    let out = transform_names(&names, &ignore);
    assert!(!out.iter().any(|d| d == "? b"));
    assert_eq!(out, strings(&["? a", "? ab", "? c"]));
}

#[test]
fn kept_names_keep_order_and_multiplicity() {
    let names = strings(&["z", "y", "z", "x", "ignored", "z"]);
    let ignore = strings(&["ignored", "unused"]);
    let out = transform_names(&names, &ignore);
    assert_eq!(out, strings(&["? z", "? y", "? z", "? x", "? z"]));
    assert_eq!(out.iter().filter(|d| *d == "? z").count(), 3);
}

#[test]
fn empty_inputs() {
    assert!(transform_names(&Vec::new(), &strings(&["a"])).is_empty());
    assert_eq!(transform_names(&strings(&["a"]), &Vec::new()), strings(&["? a"]));
    assert!(transform_names(&strings(&["a", "a"]), &strings(&["a"])).is_empty());
}
