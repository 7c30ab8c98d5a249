use listing_watch::cycle::{Action, Cycle};
use listing_watch::dispatch::Dispatcher;
use listing_watch::extract::{Extractor, Page};
use listing_watch::listing::Listing;
use listing_watch::registry::{Registry, Subscription};

fn listing(id: &str) -> Listing {
    Listing { id: id.to_string(), location: None, price: None, size: None, href: None }
}

fn page(ids: &[&str], next: Option<&str>) -> Page {
    Page { listings: ids.iter().map(|id| listing(id)).collect(), next: next.map(str::to_string) }
}

fn sub(subscriber: i64, url: &str) -> Subscription {
    Subscription { subscriber, url: url.to_string() }
}

/// Runs one cycle over pages kept by address. Returns the addresses
/// fetched and, for each result handed over, the messages delivered.
fn run(
    dispatcher: &mut Dispatcher,
    snapshot: Vec<Subscription>,
    limit: usize,
    site: &[(&str, Page)],
) -> (Vec<String>, Vec<Vec<(i64, String)>>) {
    let mut cycle = Cycle::start(snapshot, limit);
    let mut fetched = Vec::new();
    let mut delivered = Vec::new();
    for _ in 0..10_000 {
        match cycle.advance(dispatcher) {
            Action::Fetch(address) => {
                fetched.push(address.clone());
                match site.iter().find(|(at, _)| *at == address) {
                    Some((_, page)) => cycle.page_extracted(page.clone()),
                    None => cycle.fetch_failed(),
                }
            }
            Action::Deliver(messages) => {
                delivered.push(messages.into_iter().map(|m| (m.subscriber, m.text)).collect());
            }
            Action::Persist => {
                assert!(cycle.is_idle());
                return (fetched, delivered);
            }
        }
    }
    panic!("the cycle did not come back to idle");
}

fn text(id: &str) -> String {
    listing(id).notification_text()
}

#[test]
fn a_cycle_handles_every_subscription_in_turn() {
    let mut dispatcher = Dispatcher::new();
    let snapshot = vec![sub(1, "u"), sub(2, "v"), sub(1, "w")];
    let site = [
        ("u", page(&["A"], Some("u2"))),
        ("u2", page(&["B"], None)),
        ("v", page(&["C"], None)),
        ("w", page(&[], None)),
    ];
    let (fetched, delivered) = run(&mut dispatcher, snapshot.clone(), 10, &site);
    assert_eq!(fetched, vec!["u", "u2", "v", "w"]);
    // The first cycle marks every pair and delivers nothing.
    assert_eq!(delivered, vec![vec![], vec![], vec![]]);

    let site = [
        ("u", page(&["A", "N"], Some("u2"))),
        ("u2", page(&["B", "M"], None)),
        ("v", page(&["C"], None)),
        ("w", page(&["W"], None)),
    ];
    let (fetched, delivered) = run(&mut dispatcher, snapshot, 10, &site);
    assert_eq!(fetched, vec!["u", "u2", "v", "w"]);
    assert_eq!(
        delivered,
        vec![vec![(1, text("N")), (1, text("M"))], vec![], vec![(1, text("W"))]]
    );
}

#[test]
fn a_failing_search_does_not_abort_the_cycle() {
    let mut dispatcher = Dispatcher::new();
    let snapshot = vec![sub(1, "down"), sub(1, "half"), sub(2, "up")];
    let full = [
        ("down", page(&["D"], None)),
        ("half", page(&["H1"], Some("half2"))),
        ("half2", page(&["H2"], None)),
        ("up", page(&["U"], None)),
    ];
    run(&mut dispatcher, snapshot.clone(), 10, &full);

    // "down" cannot be fetched at all and the second page of "half" is gone.
    let broken = [
        ("half", page(&["H1", "H3"], Some("half2"))),
        ("up", page(&["U", "V"], None)),
    ];
    let (fetched, delivered) = run(&mut dispatcher, snapshot, 10, &broken);
    assert_eq!(fetched, vec!["down", "half", "half2", "up"]);
    assert_eq!(delivered, vec![vec![], vec![(1, text("H3"))], vec![(2, text("V"))]]);
}

#[test]
fn an_empty_snapshot_is_saved_at_once() {
    let mut dispatcher = Dispatcher::new();
    let mut cycle = Cycle::start(vec![], 10);
    assert!(cycle.is_idle());
    assert_eq!(cycle.advance(&mut dispatcher), Action::Persist);
    assert_eq!(cycle.advance(&mut dispatcher), Action::Persist);
    cycle.fetch_failed();
    cycle.page_extracted(page(&["A"], Some("x")));
    assert_eq!(cycle.advance(&mut dispatcher), Action::Persist);
    assert!(dispatcher.export_markers().is_empty());
}

#[test]
fn the_page_limit_bounds_each_crawl_of_the_cycle() {
    let mut dispatcher = Dispatcher::new();
    let site = [("a", page(&["1"], Some("a"))), ("b", page(&["2"], None))];
    let (fetched, delivered) = run(&mut dispatcher, vec![sub(1, "a"), sub(1, "b")], 3, &site);
    assert_eq!(fetched, vec!["a", "a", "a", "b"]);
    assert_eq!(delivered.len(), 2);
}

#[test]
fn asking_again_for_a_pending_fetch_changes_nothing() {
    let mut dispatcher = Dispatcher::new();
    let mut cycle = Cycle::start(vec![sub(1, "u")], 10);
    assert_eq!(cycle.advance(&mut dispatcher), Action::Fetch("u".to_string()));
    assert_eq!(cycle.advance(&mut dispatcher), Action::Fetch("u".to_string()));
    assert!(!cycle.is_idle());
    assert!(!dispatcher.is_marked(1, "u"));
    cycle.fetch_failed();
    assert_eq!(cycle.advance(&mut dispatcher), Action::Deliver(vec![]));
    assert!(dispatcher.is_marked(1, "u"));
    assert!(cycle.is_idle());
    assert_eq!(cycle.advance(&mut dispatcher), Action::Persist);
}

#[test]
fn a_cycle_over_the_registry_with_real_markup() {
    let extractor = Extractor::new().expect("the selectors are valid");
    let mut registry = Registry::new();
    registry.subscribe(42, "https://www.nepremicnine.net/oglasi/").unwrap();
    let mut dispatcher = Dispatcher::new();
    let bodies = [
        r#"<div itemprop="item"><h2 itemprop="name" data-href="/o_1"></h2></div>"#,
        r#"<div itemprop="item"><h2 itemprop="name" data-href="/o_1"></h2></div>
           <div itemprop="item"><h2 itemprop="name" data-href="/o_2"></h2>
             <span class="title">Kranj</span></div>"#,
    ];
    let mut all = Vec::new();
    for body in bodies {
        let mut cycle = Cycle::start(registry.snapshot(), 10);
        loop {
            match cycle.advance(&mut dispatcher) {
                Action::Fetch(address) => {
                    assert_eq!(address, "https://www.nepremicnine.net/oglasi/");
                    cycle.page_fetched(&extractor, body);
                }
                Action::Deliver(messages) => all.extend(messages),
                Action::Persist => break,
            }
        }
    }
    assert_eq!(all.len(), 1);
    assert_eq!(all[0].subscriber, 42);
    assert_eq!(
        all[0].text,
        "Kranj:\n\tUnknown price\n\tUnknown size\nhttps://www.nepremicnine.net/o_2"
    );
}
