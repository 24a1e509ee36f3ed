use stock_watch::poller::{Action, Phase, Poller, Settings};
use stock_watch::tracker::{Record, Tracker};

fn rec(sku: i64, name: &str, available: bool) -> Record {
    Record { sku, name: name.to_string(), online: available, in_store: false }
}

fn poller(repeat: bool, notify: bool) -> Poller {
    Poller::new(Tracker::new(), Settings { repeat, notify, priority: 5 })
}

/// Runs one cycle from a tick with every delivery succeeding and returns the
/// titles sent.
fn cycle(p: &mut Poller, snapshot: Vec<Record>) -> Vec<String> {
    assert!(matches!(p.ticked(), Action::Fetch));
    let mut sent = Vec::new();
    let mut action = p.fetched(&snapshot);
    loop {
        action = match action {
            Action::Deliver(n) => {
                assert_eq!(n.priority, 5);
                sent.push(n.title);
                p.delivered(true)
            }
            Action::Announce(_) => p.announced(),
            Action::Wait => return sent,
            _ => panic!("unexpected action"),
        };
    }
}

#[test]
fn four_polls_notify_only_on_change() {
    let mut p = poller(true, true);
    assert!(matches!(p.begin(), Action::Wait));
    let a = 1;
    let b = 2;
    let sent = cycle(&mut p, vec![rec(a, "A", false), rec(b, "B", false)]);
    assert!(sent.is_empty());
    let sent = cycle(&mut p, vec![rec(a, "A", true), rec(b, "B", false)]);
    assert_eq!(sent, vec!["Product Available".to_string()]);
    let sent = cycle(&mut p, vec![rec(a, "A", true), rec(b, "B", false)]);
    assert!(sent.is_empty());
    let sent = cycle(&mut p, vec![rec(a, "A", false), rec(b, "B", false)]);
    assert_eq!(sent, vec!["Product Unavailable".to_string()]);
    assert_eq!(p.phase(), Phase::Waiting);
}

#[test]
fn failed_delivery_keeps_both_transitions() {
    let mut p = poller(true, true);
    p.begin();
    p.ticked();
    let first = p.fetched(&vec![rec(1, "A", true), rec(2, "B", true)]);
    match first {
        Action::Deliver(n) => assert_eq!(n.message, "Sku: 1 aka \"A\" is available"),
        _ => panic!("expected a delivery for A"),
    }
    let after_a = p.delivered(false);
    match after_a {
        Action::Deliver(n) => assert_eq!(n.message, "Sku: 2 aka \"B\" is available"),
        _ => panic!("expected a delivery for B"),
    }
    let after_b = p.delivered(true);
    match after_b {
        Action::Announce(m) => assert_eq!(m, "Sku: 2 aka \"B\" is available"),
        _ => panic!("expected B's message to be printed"),
    }
    assert!(matches!(p.announced(), Action::Wait));
    assert!(p.tracker().state(1));
    assert!(p.tracker().state(2));
}

#[test]
fn fetch_failure_changes_nothing() {
    let mut p = poller(true, true);
    p.begin();
    p.ticked();
    let first = p.fetched(&vec![rec(1, "A", true)]);
    assert!(matches!(first, Action::Deliver(_)));
    p.delivered(true);
    p.announced();
    p.ticked();
    assert!(matches!(p.fetch_failed(), Action::Wait));
    assert!(p.tracker().state(1));
    assert!(!p.tracker().state(2));
    assert_eq!(p.phase(), Phase::Waiting);
}

#[test]
fn single_pass_stops_after_one_cycle() {
    let mut p = poller(false, true);
    assert!(matches!(p.begin(), Action::Fetch));
    let a = p.fetched(&vec![rec(9, "Z", true)]);
    assert!(matches!(a, Action::Deliver(_)));
    assert!(matches!(p.delivered(false), Action::Stop));
    assert_eq!(p.phase(), Phase::Stopped);
}

#[test]
fn single_pass_with_nothing_to_report_stops() {
    let mut p = poller(false, true);
    assert!(matches!(p.begin(), Action::Fetch));
    assert!(matches!(p.fetched(&vec![rec(9, "Z", false)]), Action::Stop));
}

#[test]
fn single_pass_stops_after_fetch_failure() {
    let mut p = poller(false, false);
    assert!(matches!(p.begin(), Action::Fetch));
    assert!(matches!(p.fetch_failed(), Action::Stop));
    assert_eq!(p.phase(), Phase::Stopped);
}

#[test]
fn without_notifications_messages_are_printed() {
    let mut p = poller(true, false);
    p.begin();
    p.ticked();
    match p.fetched(&vec![rec(4, "D", true)]) {
        Action::Announce(m) => assert_eq!(m, "Sku: 4 aka \"D\" is available"),
        _ => panic!("expected a message to print"),
    }
    assert!(matches!(p.announced(), Action::Wait));
}
