use listing_watch::ledger::{Ledger, UrlList};
use listing_watch::registry::{
    Registry, SubscribeOutcome, Subscription, UnsubscribeOutcome, ValidationError,
};

fn pair(subscriber: i64, url: &str) -> Subscription {
    Subscription { subscriber, url: url.to_string() }
}

#[test]
fn subscribing_twice_adds_once() {
    let mut registry = Registry::new();
    assert_eq!(registry.subscribe(42, "example.com/search"), Ok(SubscribeOutcome::Added));
    assert_eq!(registry.subscribe(42, "example.com/search"), Ok(SubscribeOutcome::AlreadyPresent));
    assert_eq!(registry.list(42), vec!["example.com/search"]);
    assert_eq!(registry.export(), vec![(42, vec!["example.com/search".to_string()])]);
}

#[test]
fn an_empty_url_is_rejected_before_the_registry_is_touched() {
    let mut registry = Registry::new();
    assert_eq!(registry.subscribe(42, ""), Err(ValidationError::EmptyUrl));
    assert!(registry.export().is_empty());
    registry.subscribe(42, "u").unwrap();
    assert_eq!(registry.subscribe(42, ""), Err(ValidationError::EmptyUrl));
    assert_eq!(registry.list(42), vec!["u"]);
}

#[test]
fn unsubscribing_what_is_not_followed_changes_nothing() {
    let mut registry = Registry::new();
    assert_eq!(registry.unsubscribe(1, "u"), UnsubscribeOutcome::NotFound);
    assert!(registry.export().is_empty());
    registry.subscribe(1, "u").unwrap();
    let before = registry.export();
    assert_eq!(registry.unsubscribe(1, "v"), UnsubscribeOutcome::NotFound);
    assert_eq!(registry.unsubscribe(2, "u"), UnsubscribeOutcome::NotFound);
    assert_eq!(registry.export(), before);
}

#[test]
fn unsubscribing_removes_the_search_and_keeps_the_order_of_the_rest() {
    let mut registry = Registry::new();
    for url in ["a", "b", "c"] {
        registry.subscribe(9, url).unwrap();
    }
    assert_eq!(registry.unsubscribe(9, "b"), UnsubscribeOutcome::Removed);
    assert_eq!(registry.list(9), vec!["a", "c"]);
    assert_eq!(registry.unsubscribe(9, "b"), UnsubscribeOutcome::NotFound);
    assert_eq!(registry.subscribe(9, "b"), Ok(SubscribeOutcome::Added));
    assert_eq!(registry.list(9), vec!["a", "c", "b"]);
}

#[test]
fn a_subscriber_without_searches_has_an_empty_list() {
    let mut registry = Registry::new();
    assert!(registry.list(3).is_empty());
    registry.subscribe(3, "u").unwrap();
    registry.unsubscribe(3, "u");
    assert!(registry.list(3).is_empty());
    // The subscriber stays known with an empty list.
    assert_eq!(registry.export(), vec![(3, vec![])]);
}

#[test]
fn the_snapshot_holds_every_pair_once() {
    let mut registry = Registry::new();
    registry.subscribe(1, "a").unwrap();
    registry.subscribe(2, "a").unwrap();
    registry.subscribe(1, "b").unwrap();
    registry.subscribe(-5, "c").unwrap();
    registry.subscribe(2, "z").unwrap();
    registry.unsubscribe(2, "z");
    let mut pairs: Vec<(i64, String)> =
        registry.snapshot().into_iter().map(|s| (s.subscriber, s.url)).collect();
    pairs.sort();
    assert_eq!(
        pairs,
        vec![
            (-5, "c".to_string()),
            (1, "a".to_string()),
            (1, "b".to_string()),
            (2, "a".to_string())
        ]
    );
    assert!(Registry::new().snapshot().is_empty());
}

#[test]
fn the_snapshot_keeps_the_order_of_one_subscriber() {
    let mut registry = Registry::new();
    for url in ["x", "y", "z"] {
        registry.subscribe(8, url).unwrap();
    }
    assert_eq!(registry.snapshot(), vec![pair(8, "x"), pair(8, "y"), pair(8, "z")]);
}

#[test]
fn the_registry_survives_export_and_import() {
    let mut registry = Registry::new();
    registry.subscribe(1, "a").unwrap();
    registry.subscribe(1, "b").unwrap();
    registry.subscribe(2, "c").unwrap();
    registry.subscribe(3, "d").unwrap();
    registry.unsubscribe(3, "d");
    let saved = registry.export();
    let restored = Registry::import(&saved);
    let mut again = restored.export();
    let mut expected = saved.clone();
    again.sort();
    expected.sort();
    assert_eq!(again, expected);
    assert_eq!(restored.list(1), vec!["a", "b"]);
    assert_eq!(restored.list(2), vec!["c"]);
    assert!(restored.list(3).is_empty());
}

#[test]
fn import_drops_duplicates_and_lets_the_later_entry_count() {
    let saved = vec![
        (1, vec!["a".to_string(), "b".to_string(), "a".to_string()]),
        (2, vec!["x".to_string()]),
        (2, vec!["y".to_string(), "y".to_string()]),
    ];
    let registry = Registry::import(&saved);
    assert_eq!(registry.list(1), vec!["a", "b"]);
    assert_eq!(registry.list(2), vec!["y"]);
}

#[test]
fn a_ledger_lists_each_url_once() {
    let mut ledger = Ledger::new();
    assert!(!ledger.contains(1, "u"));
    assert!(ledger.insert(1, "u"));
    assert!(!ledger.insert(1, "u"));
    assert!(ledger.contains(1, "u"));
    assert!(!ledger.contains(2, "u"));
    assert!(ledger.insert(1, "v"));
    assert_eq!(ledger.urls(1), vec!["u", "v"]);
    assert!(ledger.remove(1, "u"));
    assert!(!ledger.remove(1, "u"));
    assert!(!ledger.remove(2, "u"));
    assert_eq!(ledger.urls(1), vec!["v"]);
    assert!(ledger.urls(2).is_empty());
    assert_eq!(ledger.subscribers(), vec![1]);
    assert!(ledger.knows(1));
    assert!(!ledger.knows(2));
}

#[test]
fn a_url_list_keeps_first_occurrences() {
    let list = UrlList::from_vec(&vec![
        "b".to_string(),
        "a".to_string(),
        "b".to_string(),
        "c".to_string(),
        "a".to_string(),
    ]);
    assert_eq!(list.to_vec(), vec!["b", "a", "c"]);
    let mut list = UrlList::new();
    assert!(list.insert("x".to_string()));
    assert!(!list.insert("x".to_string()));
    assert!(list.contains(&"x".to_string()));
    assert!(list.remove(&"x".to_string()));
    assert!(!list.contains(&"x".to_string()));
    assert!(list.to_vec().is_empty());
}
