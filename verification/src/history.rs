//! What one subscriber has been shown, search by search.

use vstd::prelude::*;
use crate::listing::Listing;
use crate::novelty::{collect_fresh, collect_identifiers, recorded, reported};
use crate::table::{collected, has_key, is_listing_of, key_at};
use crate::text::copy_list;

verus! {

/// What one subscriber has been shown for one search.
struct SearchHistory {
    url: String,
    seen: Vec<String>,
}

/// What one subscriber has been shown, search by search. No search URL
/// occurs twice.
pub struct SubscriberHistory {
    searches: Vec<SearchHistory>,
}

/// Whether some entry of `entries` is for the search `url`.
spec fn has_search(entries: Seq<SearchHistory>, url: Seq<char>) -> bool {
    exists|i: int| 0 <= i < entries.len() && #[trigger] entries[i].url@ == url
}

/// The position of the entry of `entries` for the search `url`.
spec fn search_index(entries: Seq<SearchHistory>, url: Seq<char>) -> int {
    choose|i: int| 0 <= i < entries.len() && #[trigger] entries[i].url@ == url
}

/// Whether no search URL occurs twice in `entries`.
spec fn distinct_searches(entries: Seq<SearchHistory>) -> bool {
    forall|i: int, j: int|
        0 <= i < j < entries.len() ==> #[trigger] entries[i].url@ != #[trigger] entries[j].url@
}

/// The map that `entries` stands for: search URL to the identifiers
/// recorded for it.
spec fn model(entries: Seq<SearchHistory>) -> Map<Seq<char>, Seq<Seq<char>>> {
    Map::new(
        |url: Seq<char>| has_search(entries, url),
        |url: Seq<char>| entries[search_index(entries, url)].seen.deep_view(),
    )
}

/// Adding an entry for a search that has none inserts it into the map.
proof fn lemma_pushed(entries: Seq<SearchHistory>, entry: SearchHistory)
    requires
        distinct_searches(entries),
        !has_search(entries, entry.url@),
    ensures
        distinct_searches(entries.push(entry)),
        model(entries.push(entry)) == model(entries).insert(entry.url@, entry.seen.deep_view()),
{
    let after = entries.push(entry);
    let n = entries.len() as int;
    assert forall|u: Seq<char>| has_search(after, u) <==> (u == entry.url@ || has_search(
        entries,
        u,
    )) by {
        if has_search(entries, u) {
            let k = search_index(entries, u);
            assert(after[k].url@ == u);
        }
        if u == entry.url@ {
            assert(after[n].url@ == u);
        }
    }
}

/// Replacing the entry of a search by another for the same search updates
/// the map at that search.
proof fn lemma_replaced(entries: Seq<SearchHistory>, i: int, entry: SearchHistory)
    requires
        distinct_searches(entries),
        0 <= i < entries.len(),
        entry.url@ == entries[i].url@,
    ensures
        distinct_searches(entries.update(i, entry)),
        model(entries.update(i, entry)) == model(entries).insert(
            entry.url@,
            entry.seen.deep_view(),
        ),
{
    let after = entries.update(i, entry);
    assert forall|u: Seq<char>| has_search(after, u) <==> has_search(entries, u) by {
        if has_search(entries, u) {
            let k = search_index(entries, u);
            assert(after[k].url@ == u);
        }
    }
}

impl View for SubscriberHistory {
    type V = Map<Seq<char>, Seq<Seq<char>>>;

    /// Search URL to the identifiers recorded for it, in the order recorded.
    closed spec fn view(&self) -> Map<Seq<char>, Seq<Seq<char>>> {
        model(self.searches@)
    }
}

/// What `history` records for the search `url`, if anything.
pub open spec fn seen_for(history: Map<Seq<char>, Seq<Seq<char>>>, url: Seq<char>) -> Option<
    Seq<Seq<char>>,
> {
    if history.contains_key(url) {
        Some(history[url])
    } else {
        None
    }
}

impl SubscriberHistory {
    #[verifier::type_invariant]
    spec fn well_formed(&self) -> bool {
        distinct_searches(self.searches@)
    }

    /// A history with no search in it.
    pub fn new() -> (history: SubscriberHistory)
        ensures
            history@ == Map::<Seq<char>, Seq<Seq<char>>>::empty(),
    {
        let history = SubscriberHistory { searches: Vec::new() };
        history
    }

    /// The position of the entry for `url`, if there is one.
    fn find(&self, url: &String) -> (at: Option<usize>)
        ensures
            match at {
                Some(i) => i < self.searches.len() && self.searches[i as int].url@ == url@,
                None => !has_search(self.searches@, url@),
            },
    {
        let mut i: usize = 0;
        while i < self.searches.len()
            invariant
                i <= self.searches.len(),
                forall|j: int| 0 <= j < i ==> self.searches[j].url@ != url@,
            decreases self.searches.len() - i,
        {
            if self.searches[i].url == *url {
                return Some(i);
            }
            i += 1;
        }
        None
    }

    /// Whether anything is recorded for the search `url`.
    pub fn knows(&self, url: &str) -> (known: bool)
        ensures
            known == self@.contains_key(url@),
    {
        self.find(&url.to_owned()).is_some()
    }

    /// Records `seen` for the search `url`, in place of what was recorded.
    pub fn set(&mut self, url: &str, seen: Vec<String>)
        ensures
            final(self)@ == old(self)@.insert(url@, seen.deep_view()),
    {
        proof {
            use_type_invariant(&*self);
        }
        let key = url.to_owned();
        let at = self.find(&key);
        let mut searches: Vec<SearchHistory> = Vec::new();
        std::mem::swap(&mut searches, &mut self.searches);
        let ghost before = searches@;
        let entry = SearchHistory { url: key, seen };
        match at {
            None => {
                proof {
                    lemma_pushed(before, entry);
                }
                searches.push(entry);
            },
            Some(i) => {
                proof {
                    lemma_replaced(before, i as int, entry);
                }
                let _ = searches.remove(i);
                searches.insert(i, entry);
                assert(searches@ =~= before.update(i as int, entry));
            },
        }
        self.searches = searches;
    }

    /// Compares a crawl result with what was recorded for the search `url`.
    ///
    /// On the first crawl of the search every identifier is recorded and
    /// nothing is reported. Afterwards the new listings are reported, and
    /// their identifiers are added to the record.
    pub fn diff(&mut self, url: &str, listings: &Vec<Listing>) -> (found: Vec<Listing>)
        ensures
            found.deep_view() == reported(seen_for(old(self)@, url@), listings.deep_view()),
            final(self)@ == old(self)@.insert(
                url@,
                recorded(seen_for(old(self)@, url@), listings.deep_view()),
            ),
    {
        proof {
            use_type_invariant(&*self);
        }
        let key = url.to_owned();
        let at = self.find(&key);
        let mut searches: Vec<SearchHistory> = Vec::new();
        std::mem::swap(&mut searches, &mut self.searches);
        let ghost before = searches@;
        let found = match at {
            None => {
                let entry = SearchHistory { url: key, seen: collect_identifiers(listings) };
                proof {
                    lemma_pushed(before, entry);
                }
                searches.push(entry);
                Vec::new()
            },
            Some(i) => {
                let mut entry = searches.remove(i);
                let found = collect_fresh(&mut entry.seen, listings);
                proof {
                    lemma_replaced(before, i as int, entry);
                }
                searches.insert(i, entry);
                assert(searches@ =~= before.update(i as int, entry));
                found
            },
        };
        self.searches = searches;
        found
    }

    /// The history as a plain list of entries, one for each search: its URL
    /// and the identifiers recorded for it.
    pub fn entries(&self) -> (entries: Vec<(String, Vec<String>)>)
        ensures
            is_listing_of(entries.deep_view(), self@),
    {
        proof {
            use_type_invariant(self);
        }
        let mut entries: Vec<(String, Vec<String>)> = Vec::new();
        let mut i: usize = 0;
        while i < self.searches.len()
            invariant
                i <= self.searches.len(),
                entries.len() == i,
                forall|k: int|
                    0 <= k < i ==> (#[trigger] entries.deep_view()[k]).0 == self.searches[k].url@
                        && entries.deep_view()[k].1 == self.searches[k].seen.deep_view(),
            decreases self.searches.len() - i,
        {
            let ghost before = entries.deep_view();
            entries.push((self.searches[i].url.clone(), copy_list(&self.searches[i].seen)));
            proof {
                let after = entries.deep_view();
                assert forall|k: int| 0 <= k < i + 1 implies (#[trigger] after[k]).0
                    == self.searches[k].url@ && after[k].1 == self.searches[k].seen.deep_view() by {
                    if k < i {
                        assert(after[k] == before[k]);
                    }
                }
            }
            i += 1;
        }
        proof {
            let listed = entries.deep_view();
            let held = self.searches@;
            assert forall|u: Seq<char>| #[trigger] self@.contains_key(u) implies has_key(
                listed,
                u,
            ) by {
                let k = search_index(held, u);
                assert(key_at(listed, k) == u);
            }
        }
        entries
    }

    /// The history that a plain list of entries gives: of two entries for
    /// one search the later counts.
    pub fn from_entries(entries: &Vec<(String, Vec<String>)>) -> (history: SubscriberHistory)
        ensures
            history@ == collected(entries.deep_view()),
    {
        let mut history = SubscriberHistory::new();
        let mut i: usize = 0;
        let ghost all = entries.deep_view();
        while i < entries.len()
            invariant
                i <= entries.len(),
                all == entries.deep_view(),
                history@ == collected(all.take(i as int)),
            decreases entries.len() - i,
        {
            history.set(entries[i].0.as_str(), copy_list(&entries[i].1));
            proof {
                assert(all.take(i + 1).drop_last() =~= all.take(i as int));
            }
            i += 1;
        }
        proof {
            assert(all.take(i as int) =~= all);
        }
        history
    }
}

} // verus!
