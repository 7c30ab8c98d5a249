//! The subscription registry: which searches each subscriber follows.

use vstd::prelude::*;
use crate::ledger::{is_saved_form, lists_url, loaded, urls_of, without, Ledger};
use crate::text::{lemma_push_contains, lemma_take_contains};

verus! {

/// What a subscribe request did.
#[derive(Clone, Copy, Debug, PartialEq, Eq, Structural)]
pub enum SubscribeOutcome {
    /// The search was added to the subscriber's list.
    Added,
    /// The subscriber follows the search already; nothing changed.
    AlreadyPresent,
}

/// What an unsubscribe request did.
#[derive(Clone, Copy, Debug, PartialEq, Eq, Structural)]
pub enum UnsubscribeOutcome {
    /// The search was taken off the subscriber's list.
    Removed,
    /// The subscriber did not follow the search; nothing changed.
    NotFound,
}

/// Why a request was rejected before it touched the registry.
#[derive(Clone, Copy, Debug, PartialEq, Eq, Structural)]
pub enum ValidationError {
    /// The search URL was empty.
    EmptyUrl,
}

/// What a subscribe request for `url` returns on the registry `registry`.
pub open spec fn subscribe_result(
    registry: Map<i64, Seq<Seq<char>>>,
    subscriber: i64,
    url: Seq<char>,
) -> Result<SubscribeOutcome, ValidationError> {
    if url.len() == 0 {
        Err(ValidationError::EmptyUrl)
    } else if lists_url(registry, subscriber, url) {
        Ok(SubscribeOutcome::AlreadyPresent)
    } else {
        Ok(SubscribeOutcome::Added)
    }
}

/// The registry after a subscribe request for `url`.
pub open spec fn after_subscribe(
    registry: Map<i64, Seq<Seq<char>>>,
    subscriber: i64,
    url: Seq<char>,
) -> Map<i64, Seq<Seq<char>>> {
    if url.len() == 0 || lists_url(registry, subscriber, url) {
        registry
    } else {
        registry.insert(subscriber, urls_of(registry, subscriber).push(url))
    }
}

/// What an unsubscribe request for `url` returns on the registry `registry`.
pub open spec fn unsubscribe_result(
    registry: Map<i64, Seq<Seq<char>>>,
    subscriber: i64,
    url: Seq<char>,
) -> UnsubscribeOutcome {
    if lists_url(registry, subscriber, url) {
        UnsubscribeOutcome::Removed
    } else {
        UnsubscribeOutcome::NotFound
    }
}

/// The registry after an unsubscribe request for `url`.
pub open spec fn after_unsubscribe(
    registry: Map<i64, Seq<Seq<char>>>,
    subscriber: i64,
    url: Seq<char>,
) -> Map<i64, Seq<Seq<char>>> {
    if lists_url(registry, subscriber, url) {
        registry.insert(subscriber, without(registry[subscriber], url))
    } else {
        registry
    }
}

/// Whether `url` occurs at exactly one position of `list`.
pub open spec fn occurs_once(list: Seq<Seq<char>>, url: Seq<char>) -> bool {
    exists|i: int|
        0 <= i < list.len() && #[trigger] list[i] == url && forall|j: int|
            0 <= j < list.len() && #[trigger] list[j] == url ==> j == i
}

/// Subscribing twice to a search that the subscriber did not follow adds it
/// the first time and reports it present the second time; the registry
/// then lists it exactly once, and the second request changes nothing.
pub proof fn lemma_subscribe_twice(
    registry: Map<i64, Seq<Seq<char>>>,
    subscriber: i64,
    url: Seq<char>,
)
    requires
        url.len() > 0,
        !lists_url(registry, subscriber, url),
    ensures
        subscribe_result(registry, subscriber, url) == Ok::<SubscribeOutcome, ValidationError>(
            SubscribeOutcome::Added,
        ),
        subscribe_result(after_subscribe(registry, subscriber, url), subscriber, url) == Ok::<
            SubscribeOutcome,
            ValidationError,
        >(SubscribeOutcome::AlreadyPresent),
        after_subscribe(after_subscribe(registry, subscriber, url), subscriber, url)
            == after_subscribe(registry, subscriber, url),
        occurs_once(urls_of(after_subscribe(registry, subscriber, url), subscriber), url),
{
    let before = urls_of(registry, subscriber);
    let after = urls_of(after_subscribe(registry, subscriber, url), subscriber);
    assert(after[before.len() as int] == url);
}

/// A subscribe request never lists a search twice, whatever the registry
/// held: a second identical request reports the search present and changes
/// nothing.
pub proof fn lemma_subscribe_idempotent(
    registry: Map<i64, Seq<Seq<char>>>,
    subscriber: i64,
    url: Seq<char>,
)
    requires
        url.len() > 0,
    ensures
        subscribe_result(after_subscribe(registry, subscriber, url), subscriber, url) == Ok::<
            SubscribeOutcome,
            ValidationError,
        >(SubscribeOutcome::AlreadyPresent),
        after_subscribe(after_subscribe(registry, subscriber, url), subscriber, url)
            == after_subscribe(registry, subscriber, url),
{
    if !lists_url(registry, subscriber, url) {
        lemma_subscribe_twice(registry, subscriber, url);
    }
}

/// Unsubscribing from a search that the subscriber does not follow reports
/// that it was not found and leaves the registry as it was.
pub proof fn lemma_unsubscribe_absent(
    registry: Map<i64, Seq<Seq<char>>>,
    subscriber: i64,
    url: Seq<char>,
)
    requires
        !lists_url(registry, subscriber, url),
    ensures
        unsubscribe_result(registry, subscriber, url) == UnsubscribeOutcome::NotFound,
        after_unsubscribe(registry, subscriber, url) == registry,
{
}

/// One search of one subscriber.
#[derive(Clone, Debug, PartialEq, Eq)]
pub struct Subscription {
    pub subscriber: i64,
    pub url: String,
}

impl View for Subscription {
    type V = (i64, Seq<char>);

    open spec fn view(&self) -> (i64, Seq<char>) {
        (self.subscriber, self.url@)
    }
}

impl DeepView for Subscription {
    type V = (i64, Seq<char>);

    open spec fn deep_view(&self) -> (i64, Seq<char>) {
        self@
    }
}

/// Whether `pairs` holds the pair of `subscriber` and `url`.
pub open spec fn has_pair(pairs: Seq<(i64, Seq<char>)>, subscriber: i64, url: Seq<char>) -> bool {
    pairs.contains((subscriber, url))
}

/// The searches that each subscriber follows.
pub struct Registry {
    ledger: Ledger,
}

impl View for Registry {
    type V = Map<i64, Seq<Seq<char>>>;

    /// Subscriber to the search URLs it follows, in the order subscribed.
    closed spec fn view(&self) -> Map<i64, Seq<Seq<char>>> {
        self.ledger@
    }
}

impl Registry {
    /// A registry without subscribers.
    pub fn new() -> (registry: Registry)
        ensures
            registry@ == Map::<i64, Seq<Seq<char>>>::empty(),
    {
        Registry { ledger: Ledger::new() }
    }

    /// Adds the search `url` to the list of `subscriber`.
    ///
    /// An empty URL is rejected and the registry stays as it was. A search
    /// that the subscriber follows already is reported as present, and the
    /// registry stays as it was.
    pub fn subscribe(&mut self, subscriber: i64, url: &str) -> (result: Result<
        SubscribeOutcome,
        ValidationError,
    >)
        ensures
            result == subscribe_result(old(self)@, subscriber, url@),
            final(self)@ == after_subscribe(old(self)@, subscriber, url@),
    {
        if url.is_empty() {
            return Err(ValidationError::EmptyUrl);
        }
        if self.ledger.insert(subscriber, url) {
            Ok(SubscribeOutcome::Added)
        } else {
            Ok(SubscribeOutcome::AlreadyPresent)
        }
    }

    /// Takes the search `url` off the list of `subscriber`.
    pub fn unsubscribe(&mut self, subscriber: i64, url: &str) -> (outcome: UnsubscribeOutcome)
        ensures
            outcome == unsubscribe_result(old(self)@, subscriber, url@),
            final(self)@ == after_unsubscribe(old(self)@, subscriber, url@),
            !lists_url(final(self)@, subscriber, url@),
    {
        if self.ledger.remove(subscriber, url) {
            UnsubscribeOutcome::Removed
        } else {
            UnsubscribeOutcome::NotFound
        }
    }

    /// Whether `subscriber` has ever subscribed to a search. A subscriber
    /// stays known after it has unsubscribed from its last search.
    pub fn knows(&self, subscriber: i64) -> (known: bool)
        ensures
            known == self@.contains_key(subscriber),
    {
        self.ledger.knows(subscriber)
    }

    /// The searches that `subscriber` follows, in the order subscribed, none
    /// of them twice; empty for a subscriber that follows none.
    pub fn list(&self, subscriber: i64) -> (urls: Vec<String>)
        ensures
            urls.deep_view() == urls_of(self@, subscriber),
            urls.deep_view().no_duplicates(),
    {
        self.ledger.urls(subscriber)
    }

    /// The registry as a plain list of entries, one for each subscriber, in
    /// no particular order: the subscriber and the searches it follows.
    pub fn export(&self) -> (entries: Vec<(i64, Vec<String>)>)
        ensures
            is_saved_form(entries.deep_view(), self@),
    {
        self.ledger.export()
    }

    /// The registry that a plain list of entries gives: each subscriber
    /// with its searches, duplicates dropped.
    pub fn import(entries: &Vec<(i64, Vec<String>)>) -> (registry: Registry)
        ensures
            registry@ == loaded(entries.deep_view()),
    {
        Registry { ledger: Ledger::import(entries) }
    }

    /// Every pair of a subscriber and a search it follows, each once. The
    /// order of the subscribers is not fixed.
    pub fn snapshot(&self) -> (subscriptions: Vec<Subscription>)
        ensures
            subscriptions.deep_view().no_duplicates(),
            forall|subscriber: i64, url: Seq<char>| #[trigger]
                has_pair(subscriptions.deep_view(), subscriber, url) <==> lists_url(
                    self@,
                    subscriber,
                    url,
                ),
    {
        let ids = self.ledger.subscribers();
        let mut out: Vec<Subscription> = Vec::new();
        let mut i: usize = 0;
        while i < ids.len()
            invariant
                i <= ids.len(),
                ids@.no_duplicates(),
                ids@.to_set() == self@.dom(),
                out.deep_view().no_duplicates(),
                forall|s: i64, u: Seq<char>| #[trigger]
                    has_pair(out.deep_view(), s, u) <==> ids@.take(i as int).contains(s)
                        && lists_url(self@, s, u),
            decreases ids.len() - i,
        {
            let subscriber = ids[i];
            let urls = self.ledger.urls(subscriber);
            let ghost done = ids@.take(i as int);
            let mut j: usize = 0;
            while j < urls.len()
                invariant
                    j <= urls.len(),
                    i < ids.len(),
                    subscriber == ids@[i as int],
                    done == ids@.take(i as int),
                    !done.contains(subscriber),
                    urls.deep_view() == urls_of(self@, subscriber),
                    urls.deep_view().no_duplicates(),
                    out.deep_view().no_duplicates(),
                    forall|s: i64, u: Seq<char>| #[trigger]
                        has_pair(out.deep_view(), s, u) <==> (done.contains(s) && lists_url(
                            self@,
                            s,
                            u,
                        )) || (s == subscriber && urls.deep_view().take(j as int).contains(u)),
                decreases urls.len() - j,
            {
                let ghost before = out.deep_view();
                let ghost url = urls.deep_view()[j as int];
                out.push(Subscription { subscriber, url: urls[j].clone() });
                proof {
                    let after = out.deep_view();
                    assert(after =~= before.push((subscriber, url)));
                    assert(!has_pair(before, subscriber, url));
                    assert forall|s: i64, u: Seq<char>| #[trigger]
                        has_pair(after, s, u) <==> (done.contains(s) && lists_url(self@, s, u))
                            || (s == subscriber && urls.deep_view().take(j + 1).contains(u)) by {
                        assert(has_pair(before, s, u) <==> (done.contains(s) && lists_url(
                            self@,
                            s,
                            u,
                        )) || (s == subscriber && urls.deep_view().take(j as int).contains(u)));
                        lemma_push_contains(before, (subscriber, url), (s, u));
                        lemma_take_contains(urls.deep_view(), j as int, u);
                    }
                }
                j += 1;
            }
            proof {
                assert(urls.deep_view().take(j as int) =~= urls.deep_view());
                assert forall|s: i64, u: Seq<char>| #[trigger]
                    has_pair(out.deep_view(), s, u) <==> ids@.take(i + 1).contains(s)
                        && lists_url(self@, s, u) by {
                    lemma_take_contains(ids@, i as int, s);
                }
            }
            i += 1;
        }
        proof {
            assert(ids@.take(i as int) =~= ids@);
        }
        out
    }
}

} // verus!
