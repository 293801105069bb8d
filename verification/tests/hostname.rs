use exact_sni_relay::hostname::{
    check_labels, check_route_name, normalize_name, normalize_route_name, refusal_of, NameProblem,
};

fn labels(name: &str) -> bool {
    let chars: Vec<char> = name.chars().collect();
    check_labels(&chars)
}

#[test]
fn labels_are_checked_between_dots() {
    assert!(labels("a"));
    assert!(labels("a-b.C9"));
    assert!(labels(&"x".repeat(63)));
    assert!(!labels(&"x".repeat(64)));
    assert!(!labels(""));
    assert!(!labels("a..b"));
    assert!(!labels("a."));
    assert!(!labels("-a.b"));
    assert!(!labels("a.b-"));
    assert!(!labels("a_b"));
}

#[test]
fn route_names_are_trimmed_and_their_problem_is_told() {
    assert_eq!(check_route_name(" Example.Test. ").unwrap(), "example.test");
    assert_eq!(check_route_name(" . "), Err(NameProblem::Length));
    assert_eq!(check_route_name(&"a".repeat(254)), Err(NameProblem::Length));
    assert_eq!(check_route_name("*.test"), Err(NameProblem::Labels));
    assert_eq!(refusal_of(NameProblem::Length, "x"), "invalid hostname: x");
    assert_eq!(
        refusal_of(NameProblem::Labels, "x"),
        "invalid exact hostname: x"
    );
    assert_eq!(
        normalize_route_name("*.test"),
        Err("invalid exact hostname: \"*.test\"".to_string())
    );
}

#[test]
fn server_names_are_not_trimmed() {
    assert_eq!(normalize_name("Example.Test.").unwrap(), "example.test");
    assert_eq!(normalize_name(" example.test"), None);
    assert_eq!(normalize_name(""), None);
    assert_eq!(normalize_name("ex\u{e4}mple.test"), None);
    // The normal form of the one is acceptable to the other.
    let name = normalize_name("A.B").unwrap();
    assert_eq!(check_route_name(&name).unwrap(), name);
    assert_eq!(normalize_name(&name).unwrap(), name);
}
