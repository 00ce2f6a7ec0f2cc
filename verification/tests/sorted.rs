use macro_workshop::sorted::{
    check_order, get_pat_path, get_path_string, Check, Pattern, Sorted, SortedFailure, SortedItem,
};

fn names(v: &[&str]) -> Vec<String> {
    v.iter().map(|s| s.to_string()).collect()
}

#[test]
fn accepts_sorted_names() {
    assert!(check_order(&names(&["Alpha", "Beta", "Gamma"])).is_ok());
    assert!(check_order(&names(&[])).is_ok());
    assert!(check_order(&names(&["A", "A", "B"])).is_ok());
}

#[test]
fn reports_first_misplaced_name() {
    let e = check_order(&names(&["SomethingFailed", "ThisFailed", "Io", "Fmt"])).unwrap_err();
    assert_eq!(e.message, "Fmt should sort before SomethingFailed");
    assert_eq!(e.index, 3);
}

#[test]
fn points_at_first_of_equal_least_names() {
    let e = check_order(&names(&["B", "A", "A"])).unwrap_err();
    assert_eq!(e.index, 1);
    assert_eq!(e.message, "A should sort before B");
}

#[test]
fn orders_by_bytes() {
    // uppercase letters sort before lowercase ones
    assert!(check_order(&names(&["Zeta", "alpha"])).is_ok());
    assert!(check_order(&names(&["alpha", "Zeta"])).is_err());
    // a prefix sorts first
    assert!(check_order(&names(&["Ab", "Abc"])).is_ok());
}

#[test]
fn sorted_rejects_non_enum() {
    match Sorted::generate(&SortedItem::Other) {
        Err(f) => assert_eq!(f.message(), "expected enum or match expression"),
        Ok(()) => panic!("accepted"),
    }
}

#[test]
fn sorted_checks_enum_variants() {
    assert!(Sorted::generate(&SortedItem::Enum(names(&["A", "B"]))).is_ok());
    match Sorted::generate(&SortedItem::Enum(names(&["B", "A"]))) {
        Err(SortedFailure::Misordered(e)) => assert_eq!(e.message, "A should sort before B"),
        _ => panic!("expected a misorder"),
    }
}

#[test]
fn joins_path_segments() {
    assert_eq!(get_path_string(&names(&["Error", "Io"])), "Error::Io");
    assert_eq!(get_path_string(&names(&["x"])), "x");
    assert_eq!(get_path_string(&names(&[])), "");
}

#[test]
fn reads_arm_names() {
    assert_eq!(get_pat_path(&Pattern::Wild), Some("_".to_string()));
    assert_eq!(get_pat_path(&Pattern::Ident("other".to_string())), Some("other".to_string()));
    assert_eq!(get_pat_path(&Pattern::TupleStruct(names(&["Error", "Fmt"]))), Some("Error::Fmt".to_string()));
    assert_eq!(get_pat_path(&Pattern::Unsupported), None);
}

#[test]
fn check_removes_sorted_attribute_and_checks_arms() {
    let mut ck = Check::new();
    let attrs = vec![names(&["allow"]), names(&["sorted"])];
    let arms = vec![
        Pattern::TupleStruct(names(&["Error", "Io"])),
        Pattern::TupleStruct(names(&["Error", "Fmt"])),
    ];
    let d = ck.visit_match(&attrs, &arms);
    assert_eq!(d.remove, Some(1));
    assert!(d.failed);
    assert!(!d.descend);
    let e = ck.err.unwrap();
    assert_eq!(e.message, "Error::Fmt should sort before Error::Io");
    assert_eq!(e.index, 1);
}

#[test]
fn check_reports_unsupported_pattern() {
    let mut ck = Check::new();
    let d = ck.visit_match(&vec![names(&["sorted"])], &vec![Pattern::Wild, Pattern::Unsupported]);
    assert_eq!(d.remove, Some(0));
    let e = ck.err.unwrap();
    assert_eq!(e.message, "unsupported by #[sorted]");
    assert_eq!(e.index, 1);
}

#[test]
fn check_ignores_unmarked_match() {
    let mut ck = Check::new();
    let d = ck.visit_match(&vec![names(&["other", "sorted"])], &vec![Pattern::Wild, Pattern::Ident("a".to_string())]);
    assert_eq!(d.remove, None);
    assert!(!d.failed);
    assert!(d.descend);
    assert!(ck.err.is_none());
}

#[test]
fn wildcard_sorts_after_names() {
    let mut ck = Check::new();
    let d = ck.visit_match(&vec![names(&["sorted"])], &vec![Pattern::Ident("A".to_string()), Pattern::Wild]);
    assert!(d.descend);
    assert!(ck.err.is_none());
}

#[test]
fn earlier_error_stops_descent_into_sorted_match() {
    let mut ck = Check::new();
    let bad = vec![Pattern::Ident("b".to_string()), Pattern::Ident("a".to_string())];
    let first = ck.visit_match(&vec![names(&["sorted"])], &bad);
    assert!(first.failed);
    let good = vec![Pattern::Ident("a".to_string()), Pattern::Ident("b".to_string())];
    let second = ck.visit_match(&vec![names(&["sorted"])], &good);
    assert_eq!(second.remove, Some(0));
    assert!(!second.failed);
    assert!(!second.descend);
    assert_eq!(ck.err.unwrap().message, "a should sort before b");
}
