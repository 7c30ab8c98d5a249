use listing_watch::dispatch::{compose, Dispatcher, Notification};
use listing_watch::listing::{copy_text, Listing};

fn listing(id: &str) -> Listing {
    Listing { id: id.to_string(), location: None, price: None, size: None, href: None }
}

fn batch(ids: &[&str]) -> Vec<Listing> {
    ids.iter().map(|id| listing(id)).collect()
}

fn ids(listings: &[Listing]) -> Vec<String> {
    listings.iter().map(|l| l.id.clone()).collect()
}

#[test]
fn two_cycles_of_one_subscription() {
    let mut dispatcher = Dispatcher::new();
    assert!(!dispatcher.is_marked(42, "example.com/search"));

    // Cycle 1 finds A and B: the pair is marked, nothing is delivered.
    let first = dispatcher.process(42, "example.com/search", &batch(&["A", "B"]));
    assert!(first.is_empty());
    assert!(dispatcher.is_marked(42, "example.com/search"));
    assert_eq!(
        dispatcher.export_novelty(),
        vec![(42, vec![("example.com/search".to_string(), vec!["A".to_string(), "B".to_string()])])]
    );

    // Cycle 2 finds A, B and C: one message, for C.
    let mut c = listing("C");
    c.location = Some("Ljubljana".to_string());
    let mut found = batch(&["A", "B"]);
    found.push(c.clone());
    let second = dispatcher.process(42, "example.com/search", &found);
    assert_eq!(
        second,
        vec![Notification { subscriber: 42, text: c.notification_text() }]
    );
    assert_eq!(
        dispatcher.export_novelty(),
        vec![(
            42,
            vec![(
                "example.com/search".to_string(),
                vec!["A".to_string(), "B".to_string(), "C".to_string()]
            )]
        )]
    );
}

#[test]
fn the_first_cycle_of_a_pair_delivers_nothing_whatever_was_found() {
    let mut dispatcher = Dispatcher::new();
    assert!(dispatcher.select(1, "u", &batch(&["A", "B", "C"])).is_empty());
    assert!(dispatcher.is_marked(1, "u"));
    assert!(!dispatcher.is_marked(1, "v"));
    assert!(!dispatcher.is_marked(2, "u"));
    assert!(dispatcher.select(1, "v", &batch(&["A", "D"])).is_empty());
    assert!(dispatcher.select(2, "u", &batch(&[])).is_empty());
    assert!(dispatcher.is_marked(2, "u"));
}

#[test]
fn a_repeated_cycle_delivers_nothing() {
    let mut dispatcher = Dispatcher::new();
    dispatcher.select(1, "u", &batch(&["A"]));
    assert_eq!(ids(&dispatcher.select(1, "u", &batch(&["A", "B", "B", "C"]))), vec!["B", "C"]);
    let novelty = dispatcher.export_novelty();
    let markers = dispatcher.export_markers();
    for _ in 0..3 {
        assert!(dispatcher.select(1, "u", &batch(&["A", "B", "B", "C"])).is_empty());
        assert_eq!(dispatcher.export_novelty(), novelty);
        assert_eq!(dispatcher.export_markers(), markers);
    }
}

#[test]
fn the_marker_gates_delivery_apart_from_the_novelty_state() {
    // The novelty state knows the pair, the markers do not: the cycle that
    // marks the pair records what is new and delivers nothing.
    let novelty = vec![(1, vec![("u".to_string(), vec!["A".to_string()])])];
    let mut dispatcher = Dispatcher::import(&novelty, &vec![]);
    assert!(dispatcher.select(1, "u", &batch(&["A", "B"])).is_empty());
    assert!(dispatcher.is_marked(1, "u"));
    assert_eq!(
        dispatcher.export_novelty(),
        vec![(1, vec![("u".to_string(), vec!["A".to_string(), "B".to_string()])])]
    );
    assert_eq!(ids(&dispatcher.select(1, "u", &batch(&["B", "C"]))), vec!["C"]);

    // The markers know the pair, the novelty state does not: the first diff
    // of the pair reports nothing.
    let markers = vec![(2, vec!["v".to_string()])];
    let mut dispatcher = Dispatcher::import(&vec![], &markers);
    assert!(dispatcher.is_marked(2, "v"));
    assert!(dispatcher.select(2, "v", &batch(&["A"])).is_empty());
    assert_eq!(ids(&dispatcher.select(2, "v", &batch(&["A", "B"]))), vec!["B"]);
}

#[test]
fn the_pipeline_survives_export_and_import() {
    let mut dispatcher = Dispatcher::new();
    dispatcher.select(1, "u", &batch(&["A"]));
    dispatcher.select(1, "v", &batch(&["B"]));
    dispatcher.select(2, "u", &batch(&[]));
    let mut restored =
        Dispatcher::import(&dispatcher.export_novelty(), &dispatcher.export_markers());
    let mut novelty = restored.export_novelty();
    let mut expected = dispatcher.export_novelty();
    novelty.sort();
    expected.sort();
    assert_eq!(novelty, expected);
    let mut markers = restored.export_markers();
    let mut expected = dispatcher.export_markers();
    markers.sort();
    expected.sort();
    assert_eq!(markers, expected);
    assert_eq!(ids(&restored.select(1, "u", &batch(&["A", "C"]))), vec!["C"]);
    assert_eq!(ids(&restored.select(2, "u", &batch(&["A"]))), vec!["A"]);
    assert!(restored.select(2, "v", &batch(&["A"])).is_empty());
}

#[test]
fn a_message_names_every_field() {
    let listing = Listing {
        id: "1".to_string(),
        location: Some("Ljubljana, Bežigrad".to_string()),
        price: Some("250.000,00 €".to_string()),
        size: Some("54,30 m2".to_string()),
        href: Some("https://www.nepremicnine.net/oglasi/x_1/".to_string()),
    };
    assert_eq!(
        listing.notification_text(),
        "Ljubljana, Bežigrad:\n\t250.000,00 €\n\t54,30 m2\nhttps://www.nepremicnine.net/oglasi/x_1/"
    );
}

#[test]
fn a_message_says_which_fields_are_unknown() {
    assert_eq!(
        listing("1").notification_text(),
        "Unknown location:\n\tUnknown price\n\tUnknown size\nUnknown link"
    );
    let mut partly = listing("2");
    partly.price = Some(String::new());
    partly.size = Some("1 m2".to_string());
    assert_eq!(partly.notification_text(), "Unknown location:\n\t\n\t1 m2\nUnknown link");
}

#[test]
fn one_message_is_written_for_each_listing() {
    let mut a = listing("A");
    a.location = Some("a".to_string());
    let b = listing("B");
    assert_eq!(
        compose(-7, &vec![a.clone(), b.clone()]),
        vec![
            Notification { subscriber: -7, text: a.notification_text() },
            Notification { subscriber: -7, text: b.notification_text() },
        ]
    );
    assert!(compose(1, &vec![]).is_empty());
}

#[test]
fn copies_keep_every_field() {
    let listing = Listing {
        id: "1".to_string(),
        location: Some("a".to_string()),
        price: None,
        size: Some("b".to_string()),
        href: None,
    };
    assert_eq!(listing.duplicate(), listing);
    assert_eq!(copy_text(&Some("x".to_string())), Some("x".to_string()));
    assert_eq!(copy_text(&None), None);
}
