use stock_watch::tracker::{Record, Tracker};

fn rec(sku: i64, name: &str, online: bool, in_store: bool) -> Record {
    Record { sku, name: name.to_string(), online, in_store }
}

#[test]
fn unseen_product_available_yields_one_transition() {
    let mut t = Tracker::new();
    let out = t.observe(&vec![rec(11, "Console", true, false)]);
    assert_eq!(out.len(), 1);
    assert_eq!(out[0].sku, 11);
    assert_eq!(out[0].name, "Console");
    assert!(!out[0].was);
    assert!(out[0].now);
    assert!(t.state(11));
}

#[test]
fn unseen_product_unavailable_yields_nothing() {
    let mut t = Tracker::new();
    let out = t.observe(&vec![rec(11, "Console", false, false)]);
    assert!(out.is_empty());
    assert!(!t.state(11));
}

#[test]
fn in_store_alone_counts_as_available() {
    let mut t = Tracker::new();
    let out = t.observe(&vec![rec(3, "Card", false, true)]);
    assert_eq!(out.len(), 1);
    assert!(out[0].now);
}

#[test]
fn same_snapshot_twice_yields_nothing_the_second_time() {
    let mut t = Tracker::new();
    let snap = vec![rec(1, "A", true, false), rec(2, "B", false, false), rec(3, "C", false, true)];
    let first = t.observe(&snap);
    assert_eq!(first.len(), 2);
    assert_eq!(first[0].sku, 1);
    assert_eq!(first[1].sku, 3);
    let second = t.observe(&snap);
    assert!(second.is_empty());
    assert!(t.state(1) && !t.state(2) && t.state(3));
}

#[test]
fn absent_product_keeps_its_state() {
    let mut t = Tracker::new();
    t.observe(&vec![rec(1, "A", true, false), rec(2, "B", true, false)]);
    let out = t.observe(&vec![rec(2, "B", false, false)]);
    assert_eq!(out.len(), 1);
    assert_eq!(out[0].sku, 2);
    assert!(out[0].was && !out[0].now);
    assert!(t.state(1));
    assert!(!t.state(2));
}

#[test]
fn empty_snapshot_changes_nothing() {
    let mut t = Tracker::new();
    t.observe(&vec![rec(7, "G", true, true)]);
    let out = t.observe(&vec![]);
    assert!(out.is_empty());
    assert!(t.state(7));
}

#[test]
fn repeated_record_in_one_snapshot_is_taken_in_order() {
    let mut t = Tracker::new();
    let out = t.observe(&vec![rec(5, "E", true, false), rec(5, "E", false, false)]);
    assert_eq!(out.len(), 2);
    assert!(out[0].now);
    assert!(!out[1].now && out[1].was);
    assert!(!t.state(5));
}
