//! The per-subscription step of a scheduler cycle: from a crawl result to the
//! notifications to deliver.

use vstd::prelude::*;
use crate::ledger::{is_saved_form, lists_url, loaded, urls_of, Ledger};
use crate::listing::{identifiers, message_text, Listing, ListingView};
use crate::novelty::{
    lemma_never_reported_twice, lemma_reported_is_recorded, recorded, reported,
};
use crate::text::lemma_push_contains;
use crate::tracker::{
    is_saved_state, lemma_repeated_diff_is_silent, restored, seen_by, state_after_diff,
    NoveltyTracker,
};

verus! {

/// What the crawl pipeline remembers, as contracts see it.
pub ghost struct PipelineState {
    /// Subscriber to search URL to the identifiers recorded for the pair.
    pub novelty: Map<i64, Map<Seq<char>, Seq<Seq<char>>>>,
    /// Subscriber to the searches that have been through a cycle.
    pub crawled: Map<i64, Seq<Seq<char>>>,
}

/// The first-crawl markers after a cycle has handled the pair.
pub open spec fn marked(crawled: Map<i64, Seq<Seq<char>>>, subscriber: i64, url: Seq<char>) -> Map<
    i64,
    Seq<Seq<char>>,
> {
    if lists_url(crawled, subscriber, url) {
        crawled
    } else {
        crawled.insert(subscriber, urls_of(crawled, subscriber).push(url))
    }
}

/// The listings that a cycle delivers for the pair: none while the pair has
/// not been through a cycle, and the new listings of the batch afterwards.
pub open spec fn delivered(
    state: PipelineState,
    subscriber: i64,
    url: Seq<char>,
    batch: Seq<ListingView>,
) -> Seq<ListingView> {
    if lists_url(state.crawled, subscriber, url) {
        reported(seen_by(state.novelty, subscriber, url), batch)
    } else {
        Seq::empty()
    }
}

/// The state after a cycle has handled the pair with the crawl result
/// `batch`.
pub open spec fn after_cycle(
    state: PipelineState,
    subscriber: i64,
    url: Seq<char>,
    batch: Seq<ListingView>,
) -> PipelineState {
    PipelineState {
        novelty: state_after_diff(state.novelty, subscriber, url, batch),
        crawled: marked(state.crawled, subscriber, url),
    }
}

/// A message for one subscriber.
#[derive(Clone, Debug, PartialEq, Eq)]
pub struct Notification {
    pub subscriber: i64,
    pub text: String,
}

impl View for Notification {
    type V = (i64, Seq<char>);

    open spec fn view(&self) -> (i64, Seq<char>) {
        (self.subscriber, self.text@)
    }
}

impl DeepView for Notification {
    type V = (i64, Seq<char>);

    open spec fn deep_view(&self) -> (i64, Seq<char>) {
        self@
    }
}

/// One message to `subscriber` for each of `listings`, in order.
pub open spec fn notifications_for(subscriber: i64, listings: Seq<ListingView>) -> Seq<
    (i64, Seq<char>),
> {
    listings.map_values(|l: ListingView| (subscriber, message_text(l)))
}

/// Writes one message to `subscriber` for each of `listings`.
pub fn compose(subscriber: i64, listings: &Vec<Listing>) -> (messages: Vec<Notification>)
    ensures
        messages.deep_view() == notifications_for(subscriber, listings.deep_view()),
{
    let mut messages: Vec<Notification> = Vec::new();
    let mut i: usize = 0;
    while i < listings.len()
        invariant
            i <= listings.len(),
            messages.deep_view() == notifications_for(
                subscriber,
                listings.deep_view().take(i as int),
            ),
        decreases listings.len() - i,
    {
        messages.push(Notification { subscriber, text: listings[i].notification_text() });
        proof {
            let all = listings.deep_view();
            assert(notifications_for(subscriber, all.take(i + 1)) =~= notifications_for(
                subscriber,
                all.take(i as int),
            ).push((subscriber, message_text(all[i as int]))));
        }
        i += 1;
    }
    messages
}

/// The state of the crawl pipeline: the novelty state and the first-crawl
/// markers.
pub struct Dispatcher {
    novelty: NoveltyTracker,
    first_crawls: Ledger,
}

impl View for Dispatcher {
    type V = PipelineState;

    closed spec fn view(&self) -> PipelineState {
        PipelineState { novelty: self.novelty@, crawled: self.first_crawls@ }
    }
}

impl Dispatcher {
    /// A pipeline that has seen no crawl.
    pub fn new() -> (dispatcher: Dispatcher)
        ensures
            dispatcher@.novelty == Map::<i64, Map<Seq<char>, Seq<Seq<char>>>>::empty(),
            dispatcher@.crawled == Map::<i64, Seq<Seq<char>>>::empty(),
    {
        Dispatcher { novelty: NoveltyTracker::new(), first_crawls: Ledger::new() }
    }

    /// Handles the crawl result of one subscription and returns the listings
    /// to deliver.
    ///
    /// The novelty state records the batch. The pair is marked as crawled.
    /// Nothing is delivered in the cycle that marks it; afterwards the new
    /// listings of the batch are delivered, in the order of the batch.
    pub fn select(&mut self, subscriber: i64, url: &str, listings: &Vec<Listing>) -> (chosen: Vec<
        Listing,
    >)
        ensures
            chosen.deep_view() == delivered(old(self)@, subscriber, url@, listings.deep_view()),
            final(self)@ == after_cycle(old(self)@, subscriber, url@, listings.deep_view()),
            lists_url(final(self)@.crawled, subscriber, url@),
            !lists_url(old(self)@.crawled, subscriber, url@) ==> chosen.len() == 0,
    {
        let found = self.novelty.diff(subscriber, url, listings);
        let first = self.first_crawls.insert(subscriber, url);
        proof {
            let crawled = self.first_crawls@;
            assert(urls_of(crawled, subscriber).contains(url@)) by {
                if first {
                    let before = urls_of(old(self)@.crawled, subscriber);
                    assert(before.push(url@)[before.len() as int] == url@);
                }
            }
        }
        if first {
            let none: Vec<Listing> = Vec::new();
            none
        } else {
            found
        }
    }

    /// Handles the crawl result of one subscription and returns one message
    /// for each listing to deliver.
    pub fn process(&mut self, subscriber: i64, url: &str, listings: &Vec<Listing>) -> (messages:
        Vec<Notification>)
        ensures
            messages.deep_view() == notifications_for(
                subscriber,
                delivered(old(self)@, subscriber, url@, listings.deep_view()),
            ),
            final(self)@ == after_cycle(old(self)@, subscriber, url@, listings.deep_view()),
    {
        let chosen = self.select(subscriber, url, listings);
        compose(subscriber, &chosen)
    }

    /// The novelty state as a plain list of entries.
    pub fn export_novelty(&self) -> (entries: Vec<(i64, Vec<(String, Vec<String>)>)>)
        ensures
            is_saved_state(entries.deep_view(), self@.novelty),
    {
        self.novelty.export()
    }

    /// The first-crawl markers as a plain list of entries.
    pub fn export_markers(&self) -> (entries: Vec<(i64, Vec<String>)>)
        ensures
            is_saved_form(entries.deep_view(), self@.crawled),
    {
        self.first_crawls.export()
    }

    /// The pipeline that plain lists of entries give.
    pub fn import(
        novelty: &Vec<(i64, Vec<(String, Vec<String>)>)>,
        markers: &Vec<(i64, Vec<String>)>,
    ) -> (dispatcher: Dispatcher)
        ensures
            dispatcher@.novelty == restored(novelty.deep_view()),
            dispatcher@.crawled == loaded(markers.deep_view()),
    {
        Dispatcher {
            novelty: NoveltyTracker::import(novelty),
            first_crawls: Ledger::import(markers),
        }
    }

    /// Whether the pair has been through a cycle.
    pub fn is_marked(&self, subscriber: i64, url: &str) -> (yes: bool)
        ensures
            yes == lists_url(self@.crawled, subscriber, url@),
    {
        self.first_crawls.contains(subscriber, url)
    }
}

/// First-crawl suppression: for a pair that was never crawled, the diff
/// reports nothing, whatever the crawl found; every identifier found is
/// recorded, and the pair is marked afterwards.
pub proof fn lemma_first_crawl_is_suppressed(
    state: PipelineState,
    subscriber: i64,
    url: Seq<char>,
    batch: Seq<ListingView>,
)
    requires
        seen_by(state.novelty, subscriber, url) is None,
    ensures
        reported(seen_by(state.novelty, subscriber, url), batch) == Seq::<ListingView>::empty(),
        delivered(state, subscriber, url, batch) == Seq::<ListingView>::empty(),
        seen_by(after_cycle(state, subscriber, url, batch).novelty, subscriber, url) == Some(
            identifiers(batch),
        ),
        lists_url(after_cycle(state, subscriber, url, batch).crawled, subscriber, url),
{
    lemma_marking_is_idempotent(state.crawled, subscriber, url);
}

/// A pair that has not been through a cycle gets nothing delivered in its
/// first cycle, whatever the crawl found, and is marked afterwards.
pub proof fn lemma_first_cycle_is_silent(
    state: PipelineState,
    subscriber: i64,
    url: Seq<char>,
    batch: Seq<ListingView>,
)
    requires
        !lists_url(state.crawled, subscriber, url),
    ensures
        delivered(state, subscriber, url, batch) == Seq::<ListingView>::empty(),
        lists_url(after_cycle(state, subscriber, url, batch).crawled, subscriber, url),
{
    let before = urls_of(state.crawled, subscriber);
    assert(before.push(url)[before.len() as int] == url);
}

/// A cycle that finds what the cycle before it found delivers nothing and
/// changes nothing.
pub proof fn lemma_repeated_cycle_is_silent(
    state: PipelineState,
    subscriber: i64,
    url: Seq<char>,
    batch: Seq<ListingView>,
)
    ensures
        delivered(after_cycle(state, subscriber, url, batch), subscriber, url, batch) == Seq::<
            ListingView,
        >::empty(),
        after_cycle(after_cycle(state, subscriber, url, batch), subscriber, url, batch)
            == after_cycle(state, subscriber, url, batch),
{
    lemma_repeated_diff_is_silent(state.novelty, subscriber, url, batch);
    lemma_marking_is_idempotent(state.crawled, subscriber, url);
}

/// State precedes delivery: after a cycle, the identifier of every listing
/// that the cycle delivers is recorded for the pair.
pub proof fn lemma_delivered_is_recorded(
    state: PipelineState,
    subscriber: i64,
    url: Seq<char>,
    batch: Seq<ListingView>,
)
    ensures
        seen_by(after_cycle(state, subscriber, url, batch).novelty, subscriber, url) == Some(
            recorded(seen_by(state.novelty, subscriber, url), batch),
        ),
        forall|k: int|
            0 <= k < delivered(state, subscriber, url, batch).len() ==> recorded(
                seen_by(state.novelty, subscriber, url),
                batch,
            ).contains(#[trigger] delivered(state, subscriber, url, batch)[k].id),
{
    lemma_reported_is_recorded(seen_by(state.novelty, subscriber, url), batch);
}

/// No identifier is delivered twice for a pair: what a cycle delivers was
/// not recorded for the pair before the cycle, and what was recorded stays
/// recorded.
pub proof fn lemma_nothing_delivered_twice(
    state: PipelineState,
    subscriber: i64,
    url: Seq<char>,
    batch: Seq<ListingView>,
)
    ensures
        forall|k: int|
            0 <= k < delivered(state, subscriber, url, batch).len() ==> seen_by(
                state.novelty,
                subscriber,
                url,
            ) is Some && !seen_by(state.novelty, subscriber, url)->0.contains(
                #[trigger] delivered(state, subscriber, url, batch)[k].id,
            ),
        forall|id: Seq<char>|
            seen_by(state.novelty, subscriber, url) is Some && seen_by(
                state.novelty,
                subscriber,
                url,
            )->0.contains(id) ==> #[trigger] recorded(
                seen_by(state.novelty, subscriber, url),
                batch,
            ).contains(id),
{
    if let Some(seen) = seen_by(state.novelty, subscriber, url) {
        lemma_never_reported_twice(seen, batch);
    }
}

/// Isolation: a cycle for one pair changes neither what is recorded for
/// another pair nor whether the other pair is marked.
pub proof fn lemma_pairs_are_independent(
    state: PipelineState,
    subscriber: i64,
    url: Seq<char>,
    batch: Seq<ListingView>,
    other_subscriber: i64,
    other_url: Seq<char>,
)
    requires
        subscriber != other_subscriber || url != other_url,
    ensures
        seen_by(
            after_cycle(state, subscriber, url, batch).novelty,
            other_subscriber,
            other_url,
        ) == seen_by(state.novelty, other_subscriber, other_url),
        lists_url(after_cycle(state, subscriber, url, batch).crawled, other_subscriber, other_url)
            == lists_url(state.crawled, other_subscriber, other_url),
{
    if subscriber == other_subscriber && !lists_url(state.crawled, subscriber, url) {
        let before = urls_of(state.crawled, subscriber);
        lemma_push_contains(before, url, other_url);
    }
}

/// Marking a pair lists it, and marking it again changes nothing.
pub proof fn lemma_marking_is_idempotent(
    crawled: Map<i64, Seq<Seq<char>>>,
    subscriber: i64,
    url: Seq<char>,
)
    ensures
        lists_url(marked(crawled, subscriber, url), subscriber, url),
        marked(marked(crawled, subscriber, url), subscriber, url) == marked(
            crawled,
            subscriber,
            url,
        ),
{
    let before = urls_of(crawled, subscriber);
    assert(before.push(url)[before.len() as int] == url);
}

} // verus!
