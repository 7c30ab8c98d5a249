use listing_watch::extract::{resolve, Extractor, Page, RawPage, RawRecord};
use listing_watch::markup::MAX_BODY_CHARS;
use listing_watch::listing::Listing;
use listing_watch::text::after_last;

const TWO_ITEMS: &str = r#"<html><body>
<div itemprop="item">
  <h2 itemprop="name" data-href="/oglasi-prodaja/ljubljana-center-stanovanje_6512345/">Naslov</h2>
  <span class="title">Ljubljana, Center</span>
  <span class="velikost">54,30 m2</span>
  <span class="cena">250.000,00 &euro;</span>
</div>
<div itemprop="item">
  <h2 itemprop="name">Brez povezave</h2>
  <span class="title">Maribor</span>
</div>
<a class="next" href="/oglasi-prodaja/2/">naprej</a>
<a class="next" href="/oglasi-prodaja/3/">naprej</a>
</body></html>"#;

fn extractor() -> Extractor {
    Extractor::new().expect("the selectors are valid")
}

fn extract(body: &str) -> Page {
    extractor().extract(body).expect("the body is short enough")
}

fn read(body: &str) -> RawPage {
    extractor().read(body).expect("the body is short enough")
}

#[test]
fn extracts_the_fields_of_each_listing_in_document_order() {
    let page = extract(TWO_ITEMS);
    assert_eq!(page.listings.len(), 2);
    assert_eq!(
        page.listings[0],
        Listing {
            id: "6512345/".to_string(),
            location: Some("Ljubljana, Center".to_string()),
            price: Some("250.000,00 €".to_string()),
            size: Some("54,30 m2".to_string()),
            href: Some(
                "https://www.nepremicnine.net/oglasi-prodaja/ljubljana-center-stanovanje_6512345/"
                    .to_string()
            ),
        }
    );
}

#[test]
fn a_listing_without_a_reference_gets_the_fallback_identifier() {
    let page = extract(TWO_ITEMS);
    assert_eq!(
        page.listings[1],
        Listing {
            id: "missing".to_string(),
            location: Some("Maribor".to_string()),
            price: None,
            size: None,
            href: None,
        }
    );
}

#[test]
fn the_next_page_is_the_target_of_the_first_control() {
    let page = extract(TWO_ITEMS);
    assert_eq!(page.next, Some("https://www.nepremicnine.net/oglasi-prodaja/2/".to_string()));
}

#[test]
fn a_page_without_a_control_is_the_last() {
    let page = extract(
        r#"<div itemprop="item"><h2 itemprop="name" data-href="/a_1"></h2></div>
           <a class="prev" href="/1/">nazaj</a>"#,
    );
    assert_eq!(page.next, None);
    assert_eq!(page.listings.len(), 1);
    assert_eq!(page.listings[0].id, "1");
}

#[test]
fn a_control_without_a_target_leads_to_the_origin() {
    let page = extract(r#"<a class="next">naprej</a>"#);
    assert_eq!(page.next, Some("https://www.nepremicnine.net".to_string()));
    assert!(page.listings.is_empty());
}

#[test]
fn a_body_too_long_to_parse_gives_nothing() {
    let body = " ".repeat(MAX_BODY_CHARS + 1);
    assert_eq!(extractor().extract(&body), None);
    assert_eq!(extractor().read(&body), None);
    assert_eq!(MAX_BODY_CHARS, 1 << 28);
}

#[test]
fn a_body_without_listings_gives_an_empty_page() {
    let page = extract("");
    assert_eq!(page, Page { listings: vec![], next: None });
    let page = extract("<p>Ni zadetkov</p>");
    assert_eq!(page, Page { listings: vec![], next: None });
}

#[test]
fn only_the_first_match_inside_a_listing_counts() {
    let page = extract(
        r#"<div itemprop="item">
             <span class="cena">1</span><span class="cena">2</span>
             <h2 itemprop="name" data-href="/x_1"></h2><h2 itemprop="name" data-href="/x_2"></h2>
           </div>"#,
    );
    assert_eq!(page.listings[0].price, Some("1".to_string()));
    assert_eq!(page.listings[0].id, "1");
}

#[test]
fn the_class_must_match_exactly() {
    let page = extract(
        r#"<div itemprop="item"><span class="cena akcija">1</span></div>
           <a class="next disabled" href="/2/">naprej</a>"#,
    );
    assert_eq!(page.listings[0].price, None);
    assert_eq!(page.next, None);
}

#[test]
fn inner_markup_is_kept_as_markup() {
    let page =
        extract(r#"<div itemprop="item"><span class="title">Koper <b>center</b></span></div>"#);
    assert_eq!(page.listings[0].location, Some("Koper <b>center</b>".to_string()));
}

#[test]
fn the_raw_page_holds_what_the_markup_holds() {
    let raw = read(TWO_ITEMS);
    assert_eq!(
        raw,
        RawPage {
            records: vec![
                RawRecord {
                    reference: Some(
                        "/oglasi-prodaja/ljubljana-center-stanovanje_6512345/".to_string()
                    ),
                    location: Some("Ljubljana, Center".to_string()),
                    price: Some("250.000,00 €".to_string()),
                    size: Some("54,30 m2".to_string()),
                },
                RawRecord {
                    reference: None,
                    location: Some("Maribor".to_string()),
                    price: None,
                    size: None,
                },
            ],
            next_control: Some(Some("/oglasi-prodaja/2/".to_string())),
        }
    );
    assert_eq!(
        read(r#"<a class="next">naprej</a>"#),
        RawPage { records: vec![], next_control: Some(None) }
    );
}

#[test]
fn nested_containers_are_listed_in_document_order() {
    let page = extract(
        r#"<div itemprop="item"><h2 itemprop="name" data-href="/x_1"></h2>
             <div itemprop="item"><h2 itemprop="name" data-href="/x_2"></h2></div>
           </div>
           <div itemprop="item"><h2 itemprop="name" data-href="/x_3"></h2></div>"#,
    );
    let ids: Vec<&str> = page.listings.iter().map(|l| l.id.as_str()).collect();
    assert_eq!(ids, vec!["1", "2", "3"]);
}

#[test]
fn the_identifier_is_what_follows_the_last_separator() {
    assert_eq!(after_last("/oglasi/stanovanje_v_centru_123", '_'), "123");
    assert_eq!(after_last("brez-locila", '_'), "brez-locila");
    assert_eq!(after_last("konec_", '_'), "");
    assert_eq!(after_last("", '_'), "");
    assert_eq!(after_last("_", '_'), "");
    assert_eq!(after_last("a_b", '_'), "b");
    assert_eq!(after_last("češnja_žaba_šč", '_'), "šč");
    assert_eq!(after_last("a/b/c", '/'), "c");
}

#[test]
fn references_are_resolved_against_the_site() {
    assert_eq!(resolve("/oglasi/1/"), "https://www.nepremicnine.net/oglasi/1/");
    assert_eq!(resolve(""), "https://www.nepremicnine.net");
}

#[test]
fn a_listing_is_derived_from_its_raw_record() {
    let record = RawRecord {
        reference: Some("/a_b_77".to_string()),
        location: None,
        price: Some("1 €".to_string()),
        size: None,
    };
    assert_eq!(
        Listing::from_raw(record),
        Listing {
            id: "77".to_string(),
            location: None,
            price: Some("1 €".to_string()),
            size: None,
            href: Some("https://www.nepremicnine.net/a_b_77".to_string()),
        }
    );
    let empty = RawRecord { reference: Some(String::new()), location: None, price: None, size: None };
    let listing = Listing::from_raw(empty);
    assert_eq!(listing.id, "");
    assert_eq!(listing.href, Some("https://www.nepremicnine.net".to_string()));
}

#[test]
fn a_page_is_derived_from_its_raw_page() {
    let record = |reference: &str| RawRecord {
        reference: Some(reference.to_string()),
        location: None,
        price: None,
        size: None,
    };
    let raw = RawPage {
        records: vec![record("/x_2"), record("/x_1"), record("/x_2")],
        next_control: Some(Some("/p/2".to_string())),
    };
    let page = Page::from_raw(raw);
    let ids: Vec<&str> = page.listings.iter().map(|l| l.id.as_str()).collect();
    assert_eq!(ids, vec!["2", "1", "2"]);
    assert_eq!(page.next, Some("https://www.nepremicnine.net/p/2".to_string()));
    assert_eq!(Page::from_raw(RawPage { records: vec![], next_control: None }).next, None);
    assert_eq!(
        Page::from_raw(RawPage { records: vec![], next_control: Some(None) }).next,
        Some("https://www.nepremicnine.net".to_string())
    );
}
