use listing_watch::crawl::{Crawl, DEFAULT_PAGE_LIMIT};
use listing_watch::extract::{Extractor, Page};
use listing_watch::listing::Listing;
use listing_watch::markup::MAX_BODY_CHARS;

fn listing(id: &str) -> Listing {
    Listing { id: id.to_string(), location: None, price: None, size: None, href: None }
}

fn page(ids: &[&str], next: Option<&str>) -> Page {
    Page { listings: ids.iter().map(|id| listing(id)).collect(), next: next.map(str::to_string) }
}

fn ids(listings: &[Listing]) -> Vec<String> {
    listings.iter().map(|l| l.id.clone()).collect()
}

/// Runs a crawl over pages kept by address; returns the addresses fetched
/// and the identifiers gathered.
fn run(start: &str, limit: usize, site: &[(&str, Page)]) -> (Vec<String>, Vec<String>) {
    let mut crawl = Crawl::with_limit(start, limit);
    let mut fetched = Vec::new();
    while let Some(address) = crawl.pending() {
        fetched.push(address.clone());
        match site.iter().find(|(at, _)| *at == address) {
            Some((_, page)) => crawl.absorb(page.clone()),
            None => crawl.fetch_failed(),
        }
    }
    assert!(crawl.is_finished());
    assert_eq!(crawl.fetched(), fetched.len());
    (fetched, ids(&crawl.into_listings()))
}

#[test]
fn a_chain_of_pages_is_crawled_with_one_fetch_per_page() {
    for n in 1..=6usize {
        let site: Vec<(String, Page)> = (0..n)
            .map(|k| {
                let next = if k + 1 < n { Some(format!("page-{}", k + 1)) } else { None };
                let a = format!("{}a", k);
                let b = format!("{}b", k);
                (format!("page-{}", k), page(&[a.as_str(), b.as_str()], next.as_deref()))
            })
            .collect();
        let site: Vec<(&str, Page)> = site.iter().map(|(a, p)| (a.as_str(), p.clone())).collect();
        let (fetched, gathered) = run("page-0", 100, &site);
        let addresses: Vec<String> = (0..n).map(|k| format!("page-{}", k)).collect();
        assert_eq!(fetched, addresses);
        let expected: Vec<String> =
            (0..n).flat_map(|k| vec![format!("{}a", k), format!("{}b", k)]).collect();
        assert_eq!(gathered, expected);
    }
}

#[test]
fn a_single_page_needs_a_single_fetch() {
    let (fetched, gathered) = run("only", 10, &[("only", page(&["A"], None))]);
    assert_eq!(fetched, vec!["only"]);
    assert_eq!(gathered, vec!["A"]);
}

#[test]
fn a_failed_fetch_ends_the_crawl_with_what_it_has() {
    let site = [("page-0", page(&["A"], Some("page-1"))), ("page-1", page(&["B"], Some("gone")))];
    let (fetched, gathered) = run("page-0", 10, &site);
    assert_eq!(fetched, vec!["page-0", "page-1", "gone"]);
    assert_eq!(gathered, vec!["A", "B"]);
}

#[test]
fn a_failed_first_fetch_gives_an_empty_result() {
    let (fetched, gathered) = run("nowhere", 10, &[]);
    assert_eq!(fetched, vec!["nowhere"]);
    assert!(gathered.is_empty());
}

#[test]
fn the_page_limit_stops_a_chain_that_does_not_end() {
    let site = [("a", page(&["1"], Some("b"))), ("b", page(&["2"], Some("a")))];
    let (fetched, gathered) = run("a", 5, &site);
    assert_eq!(fetched, vec!["a", "b", "a", "b", "a"]);
    assert_eq!(gathered, vec!["1", "2", "1", "2", "1"]);
}

#[test]
fn a_limit_of_zero_fetches_nothing() {
    let crawl = Crawl::with_limit("a", 0);
    assert_eq!(crawl.pending(), None);
    assert!(crawl.is_finished());
    assert_eq!(crawl.fetched(), 0);
    assert!(crawl.into_listings().is_empty());
}

#[test]
fn a_new_crawl_wants_its_start_address() {
    let crawl = Crawl::new("https://example.com/search");
    assert_eq!(crawl.pending(), Some("https://example.com/search".to_string()));
    assert!(!crawl.is_finished());
    assert_eq!(crawl.fetched(), 0);
    assert_eq!(DEFAULT_PAGE_LIMIT, 1000);
}

#[test]
fn a_finished_crawl_ignores_what_comes_after() {
    let mut crawl = Crawl::with_limit("a", 10);
    crawl.absorb(page(&["A"], None));
    assert!(crawl.is_finished());
    crawl.absorb(page(&["B"], Some("b")));
    crawl.fetch_failed();
    assert_eq!(crawl.pending(), None);
    assert_eq!(crawl.fetched(), 1);
    assert_eq!(ids(&crawl.into_listings()), vec!["A"]);
}

#[test]
fn a_fetched_body_is_parsed_and_taken_in() {
    let extractor = Extractor::new().expect("the selectors are valid");
    let mut crawl = Crawl::new("https://www.nepremicnine.net/oglasi/");
    crawl.page_fetched(
        &extractor,
        r#"<div itemprop="item"><h2 itemprop="name" data-href="/o_1"></h2></div>
           <a class="next" href="/oglasi/2/">naprej</a>"#,
    );
    assert_eq!(crawl.pending(), Some("https://www.nepremicnine.net/oglasi/2/".to_string()));
    crawl.page_fetched(
        &extractor,
        r#"<div itemprop="item"><h2 itemprop="name" data-href="/o_2"></h2></div>"#,
    );
    assert!(crawl.is_finished());
    assert_eq!(crawl.fetched(), 2);
    assert_eq!(ids(&crawl.into_listings()), vec!["1", "2"]);
}

#[test]
fn a_body_too_long_to_parse_ends_the_crawl_like_a_failed_fetch() {
    let extractor = Extractor::new().expect("the selectors are valid");
    let mut crawl = Crawl::new("https://www.nepremicnine.net/oglasi/");
    crawl.page_fetched(
        &extractor,
        r#"<div itemprop="item"><h2 itemprop="name" data-href="/o_1"></h2></div>
           <a class="next" href="/oglasi/2/">naprej</a>"#,
    );
    crawl.page_fetched(&extractor, &"x".repeat(MAX_BODY_CHARS + 1));
    assert!(crawl.is_finished());
    assert_eq!(crawl.fetched(), 2);
    assert_eq!(ids(&crawl.into_listings()), vec!["1"]);
}
