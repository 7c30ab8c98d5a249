//! The crawl of one search: page after page until no next page is
//! advertised, a fetch fails or the page limit is reached.
//!
//! The caller fetches; the crawl decides. While `pending` names an address
//! the caller fetches it and hands back the body or the failure.

use vstd::prelude::*;
use crate::extract::{extracted, is_parsable, Extractor, Page, PageView, SelectorSet};
use crate::listing::{text_view, Listing, ListingView};

verus! {

/// The number of pages that a crawl fetches at most unless told otherwise.
pub const DEFAULT_PAGE_LIMIT: usize = 1000;

/// A crawl in contracts.
pub ghost struct CrawlView {
    /// The address of the page that follows the last one taken in, if any.
    pub next: Option<Seq<char>>,
    /// The listings of the pages taken in so far, in order.
    pub listings: Seq<ListingView>,
    /// How many fetches have been answered.
    pub fetched: nat,
    /// How many fetches the crawl makes at most.
    pub limit: nat,
}

/// A crawl that has fetched nothing yet.
pub open spec fn started(start_url: Seq<char>, limit: nat) -> CrawlView {
    CrawlView { next: Some(start_url), listings: Seq::empty(), fetched: 0, limit }
}

/// The address that the crawl wants fetched: none once it has finished.
pub open spec fn pending(crawl: CrawlView) -> Option<Seq<char>> {
    if crawl.fetched < crawl.limit {
        crawl.next
    } else {
        None
    }
}

/// The crawl after the pending fetch has returned `page`. A crawl that has
/// finished stays as it is.
pub open spec fn after_page(crawl: CrawlView, page: PageView) -> CrawlView {
    if pending(crawl) is Some {
        CrawlView {
            next: page.next,
            listings: crawl.listings + page.listings,
            fetched: crawl.fetched + 1,
            limit: crawl.limit,
        }
    } else {
        crawl
    }
}

/// The crawl after the pending fetch has failed: it ends with what it has.
pub open spec fn after_failure(crawl: CrawlView) -> CrawlView {
    if pending(crawl) is Some {
        CrawlView {
            next: None,
            listings: crawl.listings,
            fetched: crawl.fetched + 1,
            limit: crawl.limit,
        }
    } else {
        crawl
    }
}

/// The crawl after the pending fetch has returned `body`: the page that
/// the body stands for is taken in, and a body too long to be parsed counts
/// as a failed fetch.
pub open spec fn after_body(crawl: CrawlView, body: Seq<char>, selectors: SelectorSet) -> CrawlView {
    if is_parsable(body) {
        after_page(crawl, extracted(body, selectors))
    } else {
        after_failure(crawl)
    }
}

/// The state of the crawl of one search.
pub struct Crawl {
    next: Option<String>,
    listings: Vec<Listing>,
    fetched: usize,
    limit: usize,
}

impl View for Crawl {
    type V = CrawlView;

    closed spec fn view(&self) -> CrawlView {
        CrawlView {
            next: text_view(self.next),
            listings: self.listings.deep_view(),
            fetched: self.fetched as nat,
            limit: self.limit as nat,
        }
    }
}

impl Crawl {
    /// A crawl of the search at `start_url` that fetches at most `limit`
    /// pages.
    pub fn with_limit(start_url: &str, limit: usize) -> (crawl: Crawl)
        ensures
            crawl@ == started(start_url@, limit as nat),
    {
        let crawl = Crawl {
            next: Some(start_url.to_owned()),
            listings: Vec::new(),
            fetched: 0,
            limit,
        };
        assert(crawl@.listings =~= Seq::<ListingView>::empty());
        crawl
    }

    /// A crawl of the search at `start_url` with the default page limit.
    pub fn new(start_url: &str) -> (crawl: Crawl)
        ensures
            crawl@ == started(start_url@, DEFAULT_PAGE_LIMIT as nat),
    {
        Crawl::with_limit(start_url, DEFAULT_PAGE_LIMIT)
    }

    /// The address to fetch next; `None` once the crawl has finished.
    pub fn pending(&self) -> (address: Option<String>)
        ensures
            text_view(address) == pending(self@),
    {
        if self.fetched < self.limit {
            match &self.next {
                Some(url) => Some(url.clone()),
                None => None,
            }
        } else {
            None
        }
    }

    /// Whether the crawl has finished.
    pub fn is_finished(&self) -> (done: bool)
        ensures
            done == pending(self@).is_none(),
    {
        !(self.fetched < self.limit && self.next.is_some())
    }

    /// How many fetches have been answered.
    pub fn fetched(&self) -> (count: usize)
        ensures
            count == self@.fetched,
    {
        self.fetched
    }

    /// Takes in the page that the pending fetch returned: its listings are
    /// added to the result and the crawl goes on to the page it advertises.
    pub fn absorb(&mut self, page: Page)
        ensures
            final(self)@ == after_page(old(self)@, page@),
    {
        if self.fetched < self.limit && self.next.is_some() {
            let ghost before = self.listings.deep_view();
            let mut listings = page.listings;
            self.listings.append(&mut listings);
            self.next = page.next;
            self.fetched = self.fetched + 1;
            proof {
                assert(self.listings.deep_view() =~= before + page@.listings);
            }
        }
    }

    /// Takes in the body that the pending fetch returned: the page that it
    /// stands for is extracted and taken in. A body too long to be parsed
    /// ends the crawl as a failed fetch does.
    pub fn page_fetched(&mut self, extractor: &Extractor, body: &str)
        ensures
            final(self)@ == after_body(old(self)@, body@, extractor@),
    {
        match extractor.extract(body) {
            Some(page) => self.absorb(page),
            None => self.fetch_failed(),
        }
    }

    /// Records that the pending fetch failed: the crawl ends with what it
    /// has gathered.
    pub fn fetch_failed(&mut self)
        ensures
            final(self)@ == after_failure(old(self)@),
    {
        if self.fetched < self.limit && self.next.is_some() {
            self.next = None;
            self.fetched = self.fetched + 1;
        }
    }

    /// The listings gathered, in the order the pages gave them.
    pub fn into_listings(self) -> (listings: Vec<Listing>)
        ensures
            listings.deep_view() == self@.listings,
    {
        self.listings
    }
}

/// The crawl after the fetches have returned `pages`, one after the other.
pub open spec fn after_pages(crawl: CrawlView, pages: Seq<PageView>) -> CrawlView
    decreases pages.len(),
{
    if pages.len() == 0 {
        crawl
    } else {
        after_page(after_pages(crawl, pages.drop_last()), pages.last())
    }
}

/// The listings of `pages`, page after page.
pub open spec fn all_listings(pages: Seq<PageView>) -> Seq<ListingView>
    decreases pages.len(),
{
    if pages.len() == 0 {
        Seq::empty()
    } else {
        all_listings(pages.drop_last()) + pages.last().listings
    }
}

/// Whether every page but the last advertises a next page, and the last
/// does not.
pub open spec fn is_chain(pages: Seq<PageView>) -> bool {
    &&& pages.len() > 0
    &&& forall|k: int| 0 <= k < pages.len() - 1 ==> (#[trigger] pages[k]).next is Some
    &&& pages.last().next is None
}

/// The address of the fetch that follows `done` pages of a chain that was
/// started at `start_url`.
pub open spec fn address_after(start_url: Seq<char>, pages: Seq<PageView>, done: int) -> Option<
    Seq<char>,
> {
    if done == 0 {
        Some(start_url)
    } else {
        pages[done - 1].next
    }
}

/// Within the page limit, a crawl that has taken in the first `done` pages
/// of a chain holds their listings and has made `done` fetches.
proof fn lemma_chain_prefix(start_url: Seq<char>, limit: nat, pages: Seq<PageView>, done: int)
    requires
        is_chain(pages),
        pages.len() <= limit,
        0 <= done <= pages.len(),
    ensures
        after_pages(started(start_url, limit), pages.take(done)) == (CrawlView {
            next: address_after(start_url, pages, done),
            listings: all_listings(pages.take(done)),
            fetched: done as nat,
            limit,
        }),
    decreases done,
{
    if done > 0 {
        lemma_chain_prefix(start_url, limit, pages, done - 1);
        assert(pages.take(done).drop_last() =~= pages.take(done - 1));
        if done > 1 {
            assert(pages[done - 2].next is Some);
        }
    }
}

/// Pagination: over a chain of pages that fits the page limit, the crawl
/// asks for one fetch per page, the first at the start address and each
/// further one at the address that the page before advertised; after the
/// last page it has finished, with as many fetches as pages and with the
/// listings of all pages in order.
pub proof fn lemma_chain_crawl(start_url: Seq<char>, limit: nat, pages: Seq<PageView>)
    requires
        is_chain(pages),
        pages.len() <= limit,
    ensures
        forall|done: int|
            0 <= done < pages.len() ==> pending(
                #[trigger] after_pages(started(start_url, limit), pages.take(done)),
            ) == address_after(start_url, pages, done) && address_after(start_url, pages, done)
                is Some,
        pending(after_pages(started(start_url, limit), pages)) is None,
        after_pages(started(start_url, limit), pages).fetched == pages.len(),
        after_pages(started(start_url, limit), pages).listings == all_listings(pages),
{
    assert forall|done: int| 0 <= done < pages.len() implies pending(
        #[trigger] after_pages(started(start_url, limit), pages.take(done)),
    ) == address_after(start_url, pages, done) && address_after(start_url, pages, done)
        is Some by {
        lemma_chain_prefix(start_url, limit, pages, done);
    }
    lemma_chain_prefix(start_url, limit, pages, pages.len() as int);
    assert(pages.take(pages.len() as int) =~= pages);
}

/// A crawl never answers more fetches than its limit allows, and once it
/// has finished nothing changes it.
pub proof fn lemma_crawl_is_bounded(crawl: CrawlView, page: PageView)
    requires
        crawl.fetched <= crawl.limit,
    ensures
        after_page(crawl, page).fetched <= crawl.limit,
        after_failure(crawl).fetched <= crawl.limit,
        pending(after_failure(crawl)) is None,
        pending(crawl) is None ==> after_page(crawl, page) == crawl && after_failure(crawl)
            == crawl,
{
}

} // verus!
