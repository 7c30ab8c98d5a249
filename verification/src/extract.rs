//! From a page body to the listings on it and the address of the page that
//! follows.

use scraper::{ElementRef, Html, Selector};
use vstd::prelude::*;
use crate::listing::{text_view, Listing, ListingView};
use crate::markup::{
    attribute, attribute_value, document_matches, element_matches, inner_html, inner_markup,
    parse_document, parse_selector, parsed_document, parsed_selector, select_in_document,
    select_in_element, MAX_BODY_CHARS,
};
use crate::text::{after_last, last_segment};

verus! {

/// The origin against which the site's references are resolved.
pub const BASE_URL: &'static str = "https://www.nepremicnine.net";

/// The identifier of a listing whose detail-page reference is absent.
pub const MISSING_ID: &'static str = "missing";

/// The character that separates the identifier from what precedes it in a
/// detail-page reference.
pub const ID_SEPARATOR: char = '_';

/// Matches the container of one listing.
pub const ITEM_SELECTOR: &'static str = "div[itemprop=\"item\"]";

/// Matches, inside a listing, the heading that carries the detail-page
/// reference.
pub const NAME_SELECTOR: &'static str = "h2[itemprop=\"name\"]";

/// Matches, inside a listing, the location.
pub const LOCATION_SELECTOR: &'static str = "span[class=\"title\"]";

/// Matches, inside a listing, the price.
pub const PRICE_SELECTOR: &'static str = "span[class=\"cena\"]";

/// Matches, inside a listing, the size.
pub const SIZE_SELECTOR: &'static str = "span[class=\"velikost\"]";

/// Matches the pagination control that leads to the next page.
pub const NEXT_SELECTOR: &'static str = "a[class=\"next\"]";

/// The attribute of the heading that holds the detail-page reference.
pub const REFERENCE_ATTRIBUTE: &'static str = "data-href";

/// The attribute of the pagination control that holds its target.
pub const TARGET_ATTRIBUTE: &'static str = "href";

/// Whether `pattern` is one of the selectors of the site.
pub open spec fn is_site_selector(pattern: Seq<char>) -> bool {
    ||| pattern == ITEM_SELECTOR@
    ||| pattern == NAME_SELECTOR@
    ||| pattern == LOCATION_SELECTOR@
    ||| pattern == PRICE_SELECTOR@
    ||| pattern == SIZE_SELECTOR@
    ||| pattern == NEXT_SELECTOR@
}

/// Whether a page body is short enough to be parsed.
pub open spec fn is_parsable(body: Seq<char>) -> bool {
    body.len() <= MAX_BODY_CHARS
}

/// What the markup of one listing holds, before anything is derived from it.
#[derive(Clone, Debug, PartialEq, Eq)]
pub struct RawRecord {
    /// The detail-page reference, relative to the site's origin.
    pub reference: Option<String>,
    pub location: Option<String>,
    pub price: Option<String>,
    pub size: Option<String>,
}

/// A raw record in contracts.
pub ghost struct RawRecordView {
    pub reference: Option<Seq<char>>,
    pub location: Option<Seq<char>>,
    pub price: Option<Seq<char>>,
    pub size: Option<Seq<char>>,
}

impl View for RawRecord {
    type V = RawRecordView;

    open spec fn view(&self) -> RawRecordView {
        RawRecordView {
            reference: text_view(self.reference),
            location: text_view(self.location),
            price: text_view(self.price),
            size: text_view(self.size),
        }
    }
}

impl DeepView for RawRecord {
    type V = RawRecordView;

    open spec fn deep_view(&self) -> RawRecordView {
        self@
    }
}

/// What the markup of a page holds: its records in the order the selector
/// engine yields them, and whether it has a control that leads to a next
/// page. The inner option is the target of the first such control, absent
/// where the control has none.
#[derive(Clone, Debug, PartialEq, Eq)]
pub struct RawPage {
    pub records: Vec<RawRecord>,
    pub next_control: Option<Option<String>>,
}

/// A raw page in contracts.
pub ghost struct RawPageView {
    pub records: Seq<RawRecordView>,
    pub next_control: Option<Option<Seq<char>>>,
}

/// The view of a pagination control.
pub open spec fn control_view(control: Option<Option<String>>) -> Option<Option<Seq<char>>> {
    match control {
        Some(target) => Some(text_view(target)),
        None => None,
    }
}

impl View for RawPage {
    type V = RawPageView;

    open spec fn view(&self) -> RawPageView {
        RawPageView {
            records: self.records.deep_view(),
            next_control: control_view(self.next_control),
        }
    }
}

/// One page of results: its listings in the order of the records they are
/// derived from, and the address of the page that follows, if the page
/// advertises one.
#[derive(Clone, Debug, PartialEq, Eq)]
pub struct Page {
    pub listings: Vec<Listing>,
    pub next: Option<String>,
}

/// A page in contracts.
pub ghost struct PageView {
    pub listings: Seq<ListingView>,
    pub next: Option<Seq<char>>,
}

impl View for Page {
    type V = PageView;

    open spec fn view(&self) -> PageView {
        PageView { listings: self.listings.deep_view(), next: text_view(self.next) }
    }
}

/// The identifier that a detail-page reference gives: what follows its last
/// separator, and the fallback where the reference is absent.
pub open spec fn id_of(reference: Option<Seq<char>>) -> Seq<char> {
    match reference {
        Some(path) => last_segment(path, ID_SEPARATOR),
        None => MISSING_ID@,
    }
}

/// A reference of the site as an absolute address.
pub open spec fn resolved(path: Seq<char>) -> Seq<char> {
    BASE_URL@ + path
}

/// The absolute address of the detail page, where the reference is present.
pub open spec fn href_of(reference: Option<Seq<char>>) -> Option<Seq<char>> {
    match reference {
        Some(path) => Some(resolved(path)),
        None => None,
    }
}

/// The listing that a raw record stands for.
pub open spec fn listing_of(record: RawRecordView) -> ListingView {
    ListingView {
        id: id_of(record.reference),
        location: record.location,
        price: record.price,
        size: record.size,
        href: href_of(record.reference),
    }
}

/// The address of the next page: none without a control, and with one the
/// target of the control resolved against the origin. A control without a
/// target leads to the origin itself.
pub open spec fn next_of(control: Option<Option<Seq<char>>>) -> Option<Seq<char>> {
    match control {
        None => None,
        Some(None) => Some(resolved(Seq::empty())),
        Some(Some(target)) => Some(resolved(target)),
    }
}

/// The page that a raw page stands for.
pub open spec fn page_of(raw: RawPageView) -> PageView {
    PageView {
        listings: raw.records.map_values(|r: RawRecordView| listing_of(r)),
        next: next_of(raw.next_control),
    }
}

/// Resolves a reference of the site to an absolute address.
pub fn resolve(path: &str) -> (address: String)
    ensures
        address@ == resolved(path@),
{
    let mut address = BASE_URL.to_owned();
    address.append(path);
    address
}

impl Listing {
    /// The listing that `record` stands for.
    pub fn from_raw(record: RawRecord) -> (listing: Listing)
        ensures
            listing@ == listing_of(record@),
    {
        let (id, href) = match &record.reference {
            Some(path) => (after_last(path.as_str(), ID_SEPARATOR), Some(resolve(path.as_str()))),
            None => (MISSING_ID.to_owned(), None),
        };
        Listing { id, location: record.location, price: record.price, size: record.size, href }
    }
}

impl Page {
    /// The page that `raw` stands for: one listing for each record, in the
    /// same order, and the address that the pagination control leads to.
    pub fn from_raw(raw: RawPage) -> (page: Page)
        ensures
            page@ == page_of(raw@),
    {
        let ghost records = raw.records.deep_view();
        let mut listings: Vec<Listing> = Vec::new();
        for record in it: raw.records
            invariant
                it.seq().map_values(|r: RawRecord| r@) == records,
                listings.deep_view() == records.take(it.index()).map_values(
                    |r: RawRecordView| listing_of(r),
                ),
        {
            let ghost at = it.index();
            listings.push(Listing::from_raw(record));
            proof {
                assert(records.take(at + 1).map_values(|r: RawRecordView| listing_of(r))
                    =~= records.take(at).map_values(|r: RawRecordView| listing_of(r)).push(
                    listing_of(records[at]),
                ));
            }
        }
        proof {
            reveal_strlit("");
            assert(""@ =~= Seq::<char>::empty());
        }
        let next = match raw.next_control {
            None => None,
            Some(None) => Some(resolve("")),
            Some(Some(target)) => Some(resolve(target.as_str())),
        };
        proof {
            assert(records.take(records.len() as int) =~= records);
        }
        Page { listings, next }
    }
}

/// The compiled selectors of the site's markup.
pub struct Extractor {
    item: Selector,
    name: Selector,
    location: Selector,
    price: Selector,
    size: Selector,
    next: Selector,
}

/// The selectors of an extractor in contracts.
pub ghost struct SelectorSet {
    pub item: Selector,
    pub name: Selector,
    pub location: Selector,
    pub price: Selector,
    pub size: Selector,
    pub next: Selector,
}

impl View for Extractor {
    type V = SelectorSet;

    closed spec fn view(&self) -> SelectorSet {
        SelectorSet {
            item: self.item,
            name: self.name,
            location: self.location,
            price: self.price,
            size: self.size,
            next: self.next,
        }
    }
}

/// What the selector engine makes of the site's selectors: `None` if it
/// rejects one of them.
pub open spec fn site_selectors() -> Option<SelectorSet> {
    if parsed_selector(ITEM_SELECTOR@) is Some && parsed_selector(NAME_SELECTOR@) is Some
        && parsed_selector(LOCATION_SELECTOR@) is Some && parsed_selector(PRICE_SELECTOR@) is Some
        && parsed_selector(SIZE_SELECTOR@) is Some && parsed_selector(NEXT_SELECTOR@) is Some {
        Some(
            SelectorSet {
                item: parsed_selector(ITEM_SELECTOR@)->0,
                name: parsed_selector(NAME_SELECTOR@)->0,
                location: parsed_selector(LOCATION_SELECTOR@)->0,
                price: parsed_selector(PRICE_SELECTOR@)->0,
                size: parsed_selector(SIZE_SELECTOR@)->0,
                next: parsed_selector(NEXT_SELECTOR@)->0,
            },
        )
    } else {
        None
    }
}

/// The first of the elements found, if any was found.
pub open spec fn first_match(found: Seq<ElementRef<'static>>) -> Option<ElementRef<'static>> {
    if found.len() > 0 {
        Some(found[0])
    } else {
        None
    }
}

/// The inner markup of the first descendant of `element` that `selector`
/// matches.
pub open spec fn first_markup_of(element: ElementRef<'static>, selector: Selector) -> Option<
    Seq<char>,
> {
    match first_match(element_matches(element, selector)) {
        Some(hit) => Some(inner_markup(hit)),
        None => None,
    }
}

/// The attribute `name` of the first descendant of `element` that
/// `selector` matches.
pub open spec fn first_attribute_of(
    element: ElementRef<'static>,
    selector: Selector,
    name: Seq<char>,
) -> Option<Seq<char>> {
    match first_match(element_matches(element, selector)) {
        Some(hit) => attribute_value(hit, name),
        None => None,
    }
}

/// What the markup of the listing container `item` holds.
pub open spec fn record_at(item: ElementRef<'static>, selectors: SelectorSet) -> RawRecordView {
    RawRecordView {
        reference: first_attribute_of(item, selectors.name, REFERENCE_ATTRIBUTE@),
        location: first_markup_of(item, selectors.location),
        price: first_markup_of(item, selectors.price),
        size: first_markup_of(item, selectors.size),
    }
}

/// The pagination control of a document: the target of the first element
/// that the selector of the control matches.
pub open spec fn control_of(document: Html, next: Selector) -> Option<Option<Seq<char>>> {
    match first_match(document_matches(document, next)) {
        Some(control) => Some(attribute_value(control, TARGET_ATTRIBUTE@)),
        None => None,
    }
}

/// What the markup of a page body holds: one record for each listing
/// container, in the order the selector engine yields them, and the
/// pagination control.
pub open spec fn raw_page_of(body: Seq<char>, selectors: SelectorSet) -> RawPageView {
    RawPageView {
        records: document_matches(parsed_document(body), selectors.item).map_values(
            |item: ElementRef<'static>| record_at(item, selectors),
        ),
        next_control: control_of(parsed_document(body), selectors.next),
    }
}

/// The page that a page body stands for.
pub open spec fn extracted(body: Seq<char>, selectors: SelectorSet) -> PageView {
    page_of(raw_page_of(body, selectors))
}

/// The inner markup of the first descendant of `element` that `selector`
/// matches, if there is one.
fn first_markup(element: &ElementRef, selector: &Selector) -> (markup: Option<String>)
    ensures
        text_view(markup) == first_markup_of(*element, *selector),
{
    let found = select_in_element(element, selector);
    if found.len() > 0 {
        Some(inner_html(&found[0]))
    } else {
        None
    }
}

/// The attribute `name` of the first descendant of `element` that
/// `selector` matches, if there is such a descendant and it has one.
fn first_attribute(element: &ElementRef, selector: &Selector, name: &str) -> (value: Option<
    String,
>)
    ensures
        text_view(value) == first_attribute_of(*element, *selector, name@),
{
    let found = select_in_element(element, selector);
    if found.len() > 0 {
        attribute(&found[0], name)
    } else {
        None
    }
}

impl Extractor {
    /// Compiles the selectors of the site; `None` if the selector engine
    /// rejects one of them.
    pub fn new() -> (extractor: Option<Extractor>)
        ensures
            match extractor {
                Some(e) => site_selectors() == Some(e@),
                None => site_selectors() is None,
            },
    {
        let item = parse_selector(ITEM_SELECTOR)?;
        let name = parse_selector(NAME_SELECTOR)?;
        let location = parse_selector(LOCATION_SELECTOR)?;
        let price = parse_selector(PRICE_SELECTOR)?;
        let size = parse_selector(SIZE_SELECTOR)?;
        let next = parse_selector(NEXT_SELECTOR)?;
        Some(Extractor { item, name, location, price, size, next })
    }

    /// What the markup of one listing holds.
    fn read_record(&self, item: &ElementRef) -> (record: RawRecord)
        ensures
            record@ == record_at(*item, self@),
    {
        RawRecord {
            reference: first_attribute(item, &self.name, REFERENCE_ATTRIBUTE),
            location: first_markup(item, &self.location),
            price: first_markup(item, &self.price),
            size: first_markup(item, &self.size),
        }
    }

    /// What the markup of a page body holds: one record for each listing
    /// container, in the order the selector engine yields them, and the
    /// first control that leads to a next page. A body too long to be parsed
    /// gives nothing.
    pub fn read(&self, body: &str) -> (raw: Option<RawPage>)
        ensures
            match raw {
                Some(r) => is_parsable(body@) && r@ == raw_page_of(body@, self@),
                None => !is_parsable(body@),
            },
    {
        if body.unicode_len() > MAX_BODY_CHARS {
            return None;
        }
        let document = parse_document(body);
        let items = select_in_document(&document, &self.item);
        let mut records: Vec<RawRecord> = Vec::new();
        let mut i: usize = 0;
        let ghost wanted = items@.map_values(|item: ElementRef<'static>| record_at(item, self@));
        while i < items.len()
            invariant
                i <= items.len(),
                wanted == items@.map_values(|item: ElementRef<'static>| record_at(item, self@)),
                records.deep_view() == wanted.take(i as int),
            decreases items.len() - i,
        {
            records.push(self.read_record(&items[i]));
            proof {
                assert(wanted.take(i + 1) =~= wanted.take(i as int).push(wanted[i as int]));
            }
            i += 1;
        }
        let controls = select_in_document(&document, &self.next);
        let next_control = if controls.len() > 0 {
            Some(attribute(&controls[0], TARGET_ATTRIBUTE))
        } else {
            None
        };
        proof {
            assert(wanted.take(i as int) =~= wanted);
        }
        Some(RawPage { records, next_control })
    }

    /// The listings of a page body, in the order the selector engine yields
    /// their containers, and the address of the page that follows. A body
    /// too long to be parsed gives nothing.
    pub fn extract(&self, body: &str) -> (page: Option<Page>)
        ensures
            match page {
                Some(p) => is_parsable(body@) && p@ == extracted(body@, self@),
                None => !is_parsable(body@),
            },
    {
        match self.read(body) {
            Some(raw) => Some(Page::from_raw(raw)),
            None => None,
        }
    }
}

} // verus!
