//! The novelty state of every subscriber.

use std::collections::HashMap;
use vstd::prelude::*;
use vstd::std_specs::hash::group_hash_axioms;
use vstd::std_specs::iter::IteratorSpec;
use crate::history::{seen_for, SubscriberHistory};
use crate::listing::{identifiers, Listing, ListingView};
use crate::novelty::{lemma_nothing_fresh, lemma_reported_is_recorded, recorded, reported};
use crate::table::{
    collected, distinct_keys, has_key, is_listing_of, key_at, lemma_collected_listing,
};

verus! {

/// The novelty state of every subscriber.
pub struct NoveltyTracker {
    subscribers: HashMap<i64, SubscriberHistory>,
}

impl View for NoveltyTracker {
    type V = Map<i64, Map<Seq<char>, Seq<Seq<char>>>>;

    /// Subscriber to search URL to the identifiers recorded, in the order
    /// recorded.
    closed spec fn view(&self) -> Map<i64, Map<Seq<char>, Seq<Seq<char>>>> {
        Map::new(
            |subscriber: i64| self.subscribers@.contains_key(subscriber),
            |subscriber: i64| self.subscribers@[subscriber]@,
        )
    }
}

/// What `state` holds for `subscriber`: the empty history for one it does
/// not know.
pub open spec fn history_of(
    state: Map<i64, Map<Seq<char>, Seq<Seq<char>>>>,
    subscriber: i64,
) -> Map<Seq<char>, Seq<Seq<char>>> {
    if state.contains_key(subscriber) {
        state[subscriber]
    } else {
        Map::empty()
    }
}

/// What `state` records for the pair of `subscriber` and `url`, if anything.
pub open spec fn seen_by(
    state: Map<i64, Map<Seq<char>, Seq<Seq<char>>>>,
    subscriber: i64,
    url: Seq<char>,
) -> Option<Seq<Seq<char>>> {
    seen_for(history_of(state, subscriber), url)
}

/// The novelty state after a diff of `batch` for the pair of `subscriber`
/// and `url`.
pub open spec fn state_after_diff(
    state: Map<i64, Map<Seq<char>, Seq<Seq<char>>>>,
    subscriber: i64,
    url: Seq<char>,
    batch: Seq<ListingView>,
) -> Map<i64, Map<Seq<char>, Seq<Seq<char>>>> {
    state.insert(
        subscriber,
        history_of(state, subscriber).insert(url, recorded(seen_by(state, subscriber, url), batch)),
    )
}

/// A second diff of the same batch for the same pair reports nothing and
/// leaves the state as the first one made it.
pub proof fn lemma_repeated_diff_is_silent(
    state: Map<i64, Map<Seq<char>, Seq<Seq<char>>>>,
    subscriber: i64,
    url: Seq<char>,
    batch: Seq<ListingView>,
)
    ensures
        reported(seen_by(state_after_diff(state, subscriber, url, batch), subscriber, url), batch)
            == Seq::<ListingView>::empty(),
        state_after_diff(state_after_diff(state, subscriber, url, batch), subscriber, url, batch)
            == state_after_diff(state, subscriber, url, batch),
{
    let before = seen_by(state, subscriber, url);
    let once = state_after_diff(state, subscriber, url, batch);
    let kept = recorded(before, batch);
    lemma_reported_is_recorded(before, batch);
    lemma_nothing_fresh(kept, batch);
    assert(history_of(once, subscriber).insert(url, kept) =~= history_of(once, subscriber));
}

impl NoveltyTracker {
    /// A tracker that has recorded nothing.
    pub fn new() -> (tracker: NoveltyTracker)
        ensures
            tracker@ == Map::<i64, Map<Seq<char>, Seq<Seq<char>>>>::empty(),
    {
        let tracker = NoveltyTracker { subscribers: HashMap::new() };
        tracker
    }

    /// The new listings of a crawl result for the pair of `subscriber` and
    /// `url`, in the order of the crawl.
    ///
    /// For a pair never crawled before, every identifier is recorded and
    /// nothing is reported. Otherwise a listing is reported when its
    /// identifier is not recorded and no earlier listing of the batch carries
    /// it, and the identifiers reported are added to the record.
    pub fn diff(&mut self, subscriber: i64, url: &str, listings: &Vec<Listing>) -> (found: Vec<
        Listing,
    >)
        ensures
            found.deep_view() == reported(
                seen_by(old(self)@, subscriber, url@),
                listings.deep_view(),
            ),
            seen_by(old(self)@, subscriber, url@) is None ==> found.len() == 0,
            final(self)@ == state_after_diff(old(self)@, subscriber, url@, listings.deep_view()),
    {
        broadcast use group_hash_axioms;

        let mut history = match self.subscribers.remove(&subscriber) {
            Some(h) => h,
            None => SubscriberHistory::new(),
        };
        let found = history.diff(url, listings);
        self.subscribers.insert(subscriber, history);
        assert(found.deep_view().len() == found.len());
        found
    }

    /// Whether the pair of `subscriber` and `url` has been crawled before.
    pub fn knows(&self, subscriber: i64, url: &str) -> (known: bool)
        ensures
            known == seen_by(self@, subscriber, url@).is_some(),
    {
        broadcast use group_hash_axioms;

        match self.subscribers.get(&subscriber) {
            Some(history) => history.knows(url),
            None => false,
        }
    }
}

/// The saved entries with the searches of each subscriber collected into a
/// map.
pub open spec fn unpacked(entries: Seq<(i64, Seq<(Seq<char>, Seq<Seq<char>>)>)>) -> Seq<
    (i64, Map<Seq<char>, Seq<Seq<char>>>),
> {
    entries.map_values(|e: (i64, Seq<(Seq<char>, Seq<Seq<char>>)>)| (e.0, collected(e.1)))
}

/// The novelty state that a list of saved entries gives: of two entries for
/// one subscriber, or for one search of a subscriber, the later counts.
pub open spec fn restored(entries: Seq<(i64, Seq<(Seq<char>, Seq<Seq<char>>)>)>) -> Map<
    i64,
    Map<Seq<char>, Seq<Seq<char>>>,
> {
    collected(unpacked(entries))
}

/// Whether `entries` is a saved form of `state`: every subscriber once, with
/// a list of its searches, each once with what is recorded for it.
pub open spec fn is_saved_state(
    entries: Seq<(i64, Seq<(Seq<char>, Seq<Seq<char>>)>)>,
    state: Map<i64, Map<Seq<char>, Seq<Seq<char>>>>,
) -> bool {
    &&& distinct_keys(entries)
    &&& forall|i: int|
        0 <= i < entries.len() ==> state.contains_key(#[trigger] key_at(entries, i))
            && is_listing_of(entries[i].1, state[entries[i].0])
    &&& forall|subscriber: i64| #[trigger]
        state.contains_key(subscriber) ==> has_key(entries, subscriber)
}

/// Round trip: restoring the saved form of a novelty state gives the state
/// back.
pub proof fn lemma_state_round_trip(
    entries: Seq<(i64, Seq<(Seq<char>, Seq<Seq<char>>)>)>,
    state: Map<i64, Map<Seq<char>, Seq<Seq<char>>>>,
)
    requires
        is_saved_state(entries, state),
    ensures
        restored(entries) == state,
{
    let maps = unpacked(entries);
    assert forall|i: int| 0 <= i < maps.len() implies #[trigger] key_at(maps, i) == key_at(
        entries,
        i,
    ) && maps[i].1 == state[entries[i].0] by {
        assert(state.contains_key(key_at(entries, i)));
        lemma_collected_listing(entries[i].1, state[entries[i].0]);
    }
    assert forall|k: i64| #[trigger] state.contains_key(k) implies has_key(maps, k) by {
        let i = choose|i: int| 0 <= i < entries.len() && #[trigger] key_at(entries, i) == k;
        assert(key_at(maps, i) == k);
    }
    lemma_collected_listing(maps, state);
}

impl NoveltyTracker {
    /// The subscribers that the tracker knows, each once, in no particular
    /// order.
    pub fn subscribers(&self) -> (ids: Vec<i64>)
        ensures
            ids@.no_duplicates(),
            ids@.to_set() == self@.dom(),
    {
        broadcast use group_hash_axioms;

        let mut ids: Vec<i64> = Vec::new();
        let keys = self.subscribers.keys();
        let ghost all = keys.remaining();
        for key in it: keys
            invariant
                it.seq() == all,
                ids@.len() == it.index(),
                forall|j: int| 0 <= j < ids@.len() ==> ids@[j] == *all[j],
        {
            ids.push(*key);
        }
        assert(ids@ =~= all.unref());
        ids
    }

    /// The state as a plain list of entries, one for each subscriber, in no
    /// particular order: the subscriber and, for each of its searches, the
    /// URL and the identifiers recorded.
    pub fn export(&self) -> (entries: Vec<(i64, Vec<(String, Vec<String>)>)>)
        ensures
            is_saved_state(entries.deep_view(), self@),
    {
        broadcast use group_hash_axioms;

        let ids = self.subscribers();
        let mut entries: Vec<(i64, Vec<(String, Vec<String>)>)> = Vec::new();
        let mut i: usize = 0;
        while i < ids.len()
            invariant
                i <= ids.len(),
                ids@.no_duplicates(),
                ids@.to_set() == self@.dom(),
                entries.len() == i,
                forall|k: int|
                    0 <= k < i ==> (#[trigger] entries.deep_view()[k]).0 == ids@[k]
                        && is_listing_of(entries.deep_view()[k].1, self@[ids@[k]]),
            decreases ids.len() - i,
        {
            let ghost before = entries.deep_view();
            let searches = match self.subscribers.get(&ids[i]) {
                Some(history) => history.entries(),
                None => Vec::new(),
            };
            entries.push((ids[i], searches));
            proof {
                let after = entries.deep_view();
                assert forall|k: int| 0 <= k < i + 1 implies (#[trigger] after[k]).0 == ids@[k]
                    && is_listing_of(after[k].1, self@[ids@[k]]) by {
                    if k < i {
                        assert(after[k] == before[k]);
                    }
                }
            }
            i += 1;
        }
        proof {
            let listed = entries.deep_view();
            assert forall|s: i64| #[trigger] self@.contains_key(s) implies has_key(listed, s) by {
                let k = choose|k: int| 0 <= k < ids@.len() && ids@[k] == s;
                assert(key_at(listed, k) == s);
            }
        }
        entries
    }

    /// The state that a plain list of entries gives.
    pub fn import(entries: &Vec<(i64, Vec<(String, Vec<String>)>)>) -> (tracker: NoveltyTracker)
        ensures
            tracker@ == restored(entries.deep_view()),
    {
        broadcast use group_hash_axioms;

        let mut tracker = NoveltyTracker::new();
        let mut i: usize = 0;
        let ghost all = entries.deep_view();
        let ghost maps = unpacked(all);
        while i < entries.len()
            invariant
                i <= entries.len(),
                all == entries.deep_view(),
                maps == unpacked(all),
                tracker@ == collected(maps.take(i as int)),
            decreases entries.len() - i,
        {
            let history = SubscriberHistory::from_entries(&entries[i].1);
            tracker.subscribers.insert(entries[i].0, history);
            proof {
                assert(maps.take(i + 1).drop_last() =~= maps.take(i as int));
            }
            i += 1;
        }
        proof {
            assert(maps.take(i as int) =~= maps);
        }
        tracker
    }
}

} // verus!
