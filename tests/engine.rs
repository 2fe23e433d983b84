use disbahn::engine::{
    classify, entry_key, plan_entry, write_for, Action, Classification, EntryError, Event,
    NewPost, Post, SinkCall, StoreError, StoreWrite, SyncCycle,
};
use disbahn::feed::{Category, FeedEntry};
use disbahn::render::{Field, RenderError};
use std::collections::HashMap;

const TARGET: u64 = 77;

fn category(domain: &str, name: &str) -> Category {
    Category { domain: Some(domain.to_string()), name: name.to_string() }
}

fn entry(guid: &str, pub_date: &str) -> FeedEntry {
    FeedEntry {
        guid: Some(guid.to_string()),
        title: Some(format!("Notice {guid}")),
        link: Some(format!("https://example.org/{guid}")),
        description: Some("<b>Delay</b>".to_string()),
        categories: vec![
            category("validityBegin", "2024-03-01 08:00:00"),
            category("validityEnd", "2024-03-02 08:00:00"),
        ],
        pub_date: Some(pub_date.to_string()),
    }
}

fn post(guid: &str, message_id: u64, last_updated: i64) -> Post {
    Post { announcement_id: guid.to_string(), webhook_id: TARGET, message_id, last_updated }
}

/// A store keyed by (target, guid), holding (message id, last updated).
type Store = HashMap<(u64, String), (u64, i64)>;

/// Runs one cycle through the state machine, with a sink that hands out
/// message ids from `next_id`; returns the sink calls as text.
fn run_cycle(store: &mut Store, entries: &[FeedEntry], next_id: &mut u64) -> Vec<String> {
    let mut calls = Vec::new();
    let mut cycle = SyncCycle::new(TARGET, "hint".to_string(), entries.to_vec());
    let mut event = Event::Proceed;
    loop {
        assert!(cycle.accepts(&event));
        event = match cycle.resume(event) {
            Action::Lookup(t, g) => {
                Event::Found(store.get(&(t, g.clone())).map(|(m, l)| post(&g, *m, *l)))
            }
            Action::Call(SinkCall::Create(n)) => {
                calls.push(format!("create {}", n.title));
                *next_id += 1;
                Event::Sent(Some(*next_id - 1))
            }
            Action::Call(SinkCall::Edit(m, n)) => {
                calls.push(format!("edit {m} {}", n.title));
                Event::Sent(Some(0))
            }
            Action::Write(StoreWrite::Insert(p)) => {
                assert!(!store.contains_key(&(p.webhook_id, p.announcement_id.clone())));
                store.insert((p.webhook_id, p.announcement_id), (p.message_id, p.last_updated));
                Event::Written(Ok(()))
            }
            Action::Write(StoreWrite::Update(t, g, last)) => {
                store.get_mut(&(t, g)).unwrap().1 = last;
                Event::Written(Ok(()))
            }
            Action::Failed(_, _) => Event::Proceed,
            Action::Finished => break,
        };
    }
    calls
}

const MARCH: &str = "Fri, 01 Mar 2024 08:00:00 +0100";
const LATER: &str = "Fri, 01 Mar 2024 09:00:00 +0100";

#[test]
fn classify_three_ways() {
    assert_eq!(classify(&None, 100), Classification::Unseen);
    assert_eq!(classify(&Some(post("a", 5, 99)), 100), Classification::Stale(5));
    assert_eq!(classify(&Some(post("a", 5, 100)), 100), Classification::Current);
    assert_eq!(classify(&Some(post("a", 5, 101)), 100), Classification::Current);
}

#[test]
fn key_of_entry() {
    let (g, p) = entry_key(&entry("a", MARCH)).unwrap();
    assert_eq!(g, "a");
    assert_eq!(p, 1709276400);
    let mut e = entry("a", MARCH);
    e.guid = None;
    assert_eq!(entry_key(&e).unwrap_err(), EntryError::MissingGuid);
    let e = entry("a", "now");
    assert_eq!(
        entry_key(&e).unwrap_err(),
        EntryError::Render(RenderError::TimeParse(Field::PubDate, disbahn::clock::TimeError::Malformed))
    );
}

#[test]
fn plan_create_edit_skip() {
    let e = entry("a", MARCH);
    match plan_entry(&e, &None, "h").unwrap() {
        Some(SinkCall::Create(n)) => assert_eq!(n.description, "**Delay**"),
        other => panic!("unexpected {other:?}"),
    }
    match plan_entry(&e, &Some(post("a", 9, 1709276399)), "h").unwrap() {
        Some(SinkCall::Edit(m, _)) => assert_eq!(m, 9),
        other => panic!("unexpected {other:?}"),
    }
    assert!(plan_entry(&e, &Some(post("a", 9, 1709276400)), "h").unwrap().is_none());
}

#[test]
fn plan_current_needs_no_rendering() {
    let mut e = entry("a", MARCH);
    e.title = None;
    assert!(plan_entry(&e, &Some(post("a", 9, 1709276400)), "h").unwrap().is_none());
    assert_eq!(
        plan_entry(&e, &None, "h").unwrap_err(),
        EntryError::Render(RenderError::MissingField(Field::Title))
    );
}

#[test]
fn writes_after_calls() {
    let e = entry("a", MARCH);
    let call = plan_entry(&e, &None, "h").unwrap().unwrap();
    match write_for(TARGET, &"a".to_string(), 10, &call, 42) {
        StoreWrite::Insert(p) => {
            assert_eq!((p.webhook_id, p.message_id, p.last_updated), (TARGET, 42, 10));
            assert_eq!(p.announcement_id, "a");
        }
        other => panic!("unexpected {other:?}"),
    }
    let call = plan_entry(&e, &Some(post("a", 9, 0)), "h").unwrap().unwrap();
    match write_for(TARGET, &"a".to_string(), 10, &call, 42) {
        StoreWrite::Update(t, g, p) => assert_eq!((t, g.as_str(), p), (TARGET, "a", 10)),
        other => panic!("unexpected {other:?}"),
    }
}

#[test]
fn record_accessors() {
    let p = post("a", 5, 6);
    assert_eq!(p.announcement_id(), "a");
    assert_eq!((p.webhook_id(), p.message_id(), p.last_updated()), (TARGET, 5, 6));
    let n = NewPost::new("b".to_string(), 1, 2, 3);
    assert_eq!((n.announcement_id.as_str(), n.webhook_id, n.message_id, n.last_updated), ("b", 1, 2, 3));
}

#[test]
fn second_cycle_is_quiet() {
    let entries = vec![entry("a", MARCH), entry("b", MARCH), entry("c", LATER)];
    let mut store = Store::new();
    let mut next_id = 1;
    assert_eq!(run_cycle(&mut store, &entries, &mut next_id).len(), 3);
    let before = store.clone();
    assert!(run_cycle(&mut store, &entries, &mut next_id).is_empty());
    assert_eq!(store, before);
}

#[test]
fn unseen_stale_current() {
    let mut store = Store::new();
    store.insert((TARGET, "b".to_string()), (500, 1709276399));
    store.insert((TARGET, "c".to_string()), (600, 1709280000));
    let entries = vec![entry("a", MARCH), entry("b", MARCH), entry("c", LATER)];
    let mut next_id = 1;
    let calls = run_cycle(&mut store, &entries, &mut next_id);
    assert_eq!(calls, vec!["create Notice a", "edit 500 Notice b"]);
    assert_eq!(store[&(TARGET, "a".to_string())], (1, 1709276400));
    assert_eq!(store[&(TARGET, "b".to_string())], (500, 1709276400));
    assert_eq!(store[&(TARGET, "c".to_string())], (600, 1709280000));
}

#[test]
fn failing_entry_is_isolated() {
    let mut broken = entry("b", MARCH);
    broken.categories.remove(1);
    let entries = vec![entry("a", MARCH), broken, entry("c", MARCH)];
    let mut store = Store::new();
    let mut next_id = 1;
    let calls = run_cycle(&mut store, &entries, &mut next_id);
    assert_eq!(calls, vec!["create Notice a", "create Notice c"]);
    assert!(store.contains_key(&(TARGET, "a".to_string())));
    assert!(!store.contains_key(&(TARGET, "b".to_string())));
    assert!(store.contains_key(&(TARGET, "c".to_string())));
}

#[test]
fn creates_in_feed_order() {
    let entries = vec![entry("A", MARCH), entry("B", MARCH), entry("C", MARCH)];
    let mut store = Store::new();
    let mut next_id = 1;
    let calls = run_cycle(&mut store, &entries, &mut next_id);
    assert_eq!(calls, vec!["create Notice A", "create Notice B", "create Notice C"]);
}

#[test]
fn cycle_reports_failures_and_finishes() {
    let mut no_guid = entry("x", MARCH);
    no_guid.guid = None;
    let entries = vec![no_guid, entry("a", MARCH)];
    let mut cycle = SyncCycle::new(TARGET, "h".to_string(), entries);
    assert!(matches!(cycle.resume(Event::Proceed), Action::Failed(0, EntryError::MissingGuid)));
    assert!(!cycle.accepts(&Event::Found(None)));
    match cycle.resume(Event::Proceed) {
        Action::Lookup(t, g) => assert_eq!((t, g.as_str()), (TARGET, "a")),
        _ => panic!("expected a lookup"),
    }
    assert!(matches!(cycle.resume(Event::Found(None)), Action::Call(SinkCall::Create(_))));
    assert!(matches!(cycle.resume(Event::Sent(Some(3))), Action::Write(StoreWrite::Insert(_))));
    assert!(matches!(
        cycle.resume(Event::Written(Err(StoreError::DuplicateKey))),
        Action::Failed(1, EntryError::Store(StoreError::DuplicateKey))
    ));
    assert!(matches!(cycle.resume(Event::Proceed), Action::Finished));
}

#[test]
fn cycle_sink_failure() {
    let mut cycle = SyncCycle::new(TARGET, "h".to_string(), vec![entry("a", MARCH)]);
    assert!(matches!(cycle.resume(Event::Proceed), Action::Lookup(_, _)));
    assert!(matches!(cycle.resume(Event::Found(None)), Action::Call(_)));
    assert!(matches!(cycle.resume(Event::Sent(None)), Action::Failed(0, EntryError::Sink)));
    assert!(matches!(cycle.resume(Event::Proceed), Action::Finished));
}

#[test]
fn cycle_lookup_failure_skips_entry() {
    let entries = vec![entry("a", MARCH), entry("b", MARCH)];
    let mut cycle = SyncCycle::new(TARGET, "h".to_string(), entries);
    assert!(matches!(cycle.resume(Event::Proceed), Action::Lookup(_, _)));
    assert!(cycle.accepts(&Event::LookupFailed));
    assert!(matches!(
        cycle.resume(Event::LookupFailed),
        Action::Failed(0, EntryError::Store(StoreError::Backend))
    ));
    match cycle.resume(Event::Proceed) {
        Action::Lookup(_, g) => assert_eq!(g, "b"),
        _ => panic!("expected a lookup of the second entry"),
    }
}

#[test]
fn second_cycle_is_quiet_with_repeated_guid() {
    let entries = vec![entry("a", MARCH), entry("a", LATER), entry("a", MARCH)];
    let mut store = Store::new();
    let mut next_id = 1;
    let first = run_cycle(&mut store, &entries, &mut next_id);
    assert_eq!(first, vec!["create Notice a", "edit 1 Notice a"]);
    assert_eq!(store[&(TARGET, "a".to_string())], (1, 1709280000));
    let before = store.clone();
    assert!(run_cycle(&mut store, &entries, &mut next_id).is_empty());
    assert_eq!(store, before);
}
