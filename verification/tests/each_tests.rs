use spark_tui::primitives::control_flow::each_reconcile;

fn keys(v: &[&str]) -> Vec<String> {
    v.iter().map(|s| s.to_string()).collect()
}

#[test]
fn each_creates_keeps_and_removes_by_key() {
    let plan = each_reconcile(&keys(&["a", "b", "c"]), &keys(&["c", "d", "a", "d", "e"]));
    assert_eq!(plan.create, keys(&["d", "e"]));
    assert_eq!(plan.keep, keys(&["c", "a"]));
    assert_eq!(plan.remove, keys(&["b"]));
}

#[test]
fn each_from_empty_creates_distinct_keys() {
    let plan = each_reconcile(&Vec::new(), &keys(&["x", "x", "y"]));
    assert_eq!(plan.create, keys(&["x", "y"]));
    assert!(plan.keep.is_empty());
    assert!(plan.remove.is_empty());
}

#[test]
fn each_to_empty_removes_everything() {
    let plan = each_reconcile(&keys(&["p", "q"]), &Vec::new());
    assert!(plan.create.is_empty());
    assert_eq!(plan.remove, keys(&["p", "q"]));
}
