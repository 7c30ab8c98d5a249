//! Per-subscriber lists of search URLs, each URL at most once in a list.

use std::collections::HashMap;
use vstd::prelude::*;
use vstd::std_specs::hash::group_hash_axioms;
use vstd::std_specs::iter::IteratorSpec;
use crate::table::{collected, has_key, is_listing_of, key_at, lemma_collected_listing};
use crate::text::{contains_text, lemma_push_contains, position_of};

verus! {

/// The position of the first occurrence of `url` in `list`.
pub open spec fn first_position(list: Seq<Seq<char>>, url: Seq<char>) -> int {
    choose|i: int| 0 <= i < list.len() && list[i] == url && !list.take(i).contains(url)
}

/// `list` without the first occurrence of `url`.
#[verifier::opaque]
pub open spec fn without(list: Seq<Seq<char>>, url: Seq<char>) -> Seq<Seq<char>> {
    if list.contains(url) {
        list.remove(first_position(list, url))
    } else {
        list
    }
}

/// A list without duplicates no longer holds a URL once its first occurrence
/// is removed.
pub proof fn lemma_without_removes(list: Seq<Seq<char>>, url: Seq<char>)
    requires
        list.no_duplicates(),
    ensures
        !without(list, url).contains(url),
        without(list, url).no_duplicates(),
{
    reveal(without);
}

/// A list of URLs in which none occurs twice.
pub struct UrlList {
    urls: Vec<String>,
}

impl View for UrlList {
    type V = Seq<Seq<char>>;

    closed spec fn view(&self) -> Seq<Seq<char>> {
        self.urls.deep_view()
    }
}

impl UrlList {
    #[verifier::type_invariant]
    spec fn well_formed(&self) -> bool {
        self.urls.deep_view().no_duplicates()
    }

    /// The empty list.
    pub fn new() -> (list: UrlList)
        ensures
            list@ == Seq::<Seq<char>>::empty(),
    {
        let list = UrlList { urls: Vec::new() };
        list
    }

    /// Whether the list holds `url`.
    pub fn contains(&self, url: &String) -> (found: bool)
        ensures
            found == self@.contains(url@),
    {
        position_of(&self.urls, url).is_some()
    }

    /// Adds `url` at the end unless the list holds it already; says whether
    /// it was added.
    pub fn insert(&mut self, url: String) -> (added: bool)
        ensures
            added == !old(self)@.contains(url@),
            final(self)@ == if added {
                old(self)@.push(url@)
            } else {
                old(self)@
            },
            final(self)@.no_duplicates(),
    {
        proof {
            use_type_invariant(&*self);
        }
        if position_of(&self.urls, &url).is_some() {
            return false;
        }
        let mut urls: Vec<String> = Vec::new();
        std::mem::swap(&mut urls, &mut self.urls);
        let ghost before = urls.deep_view();
        urls.push(url);
        proof {
            assert(urls.deep_view() =~= before.push(url@));
        }
        self.urls = urls;
        true
    }

    /// Removes `url` if the list holds it; says whether it did.
    pub fn remove(&mut self, url: &String) -> (removed: bool)
        ensures
            removed == old(self)@.contains(url@),
            final(self)@ == without(old(self)@, url@),
            !final(self)@.contains(url@),
            final(self)@.no_duplicates(),
    {
        proof {
            use_type_invariant(&*self);
        }
        match position_of(&self.urls, url) {
            None => {
                proof {
                    reveal(without);
                }
                false
            },
            Some(i) => {
                let mut urls: Vec<String> = Vec::new();
                std::mem::swap(&mut urls, &mut self.urls);
                let ghost before = urls.deep_view();
                let _ = urls.remove(i);
                proof {
                    reveal(without);
                    assert(urls.deep_view() =~= before.remove(i as int));
                }
                self.urls = urls;
                true
            },
        }
    }

    /// The URLs of the list, in order.
    pub fn to_vec(&self) -> (urls: Vec<String>)
        ensures
            urls.deep_view() == self@,
            urls.deep_view().no_duplicates(),
    {
        proof {
            use_type_invariant(self);
        }
        let mut urls: Vec<String> = Vec::new();
        let mut i: usize = 0;
        while i < self.urls.len()
            invariant
                i <= self.urls.len(),
                urls.deep_view() == self.urls.deep_view().take(i as int),
            decreases self.urls.len() - i,
        {
            let ghost before = urls.deep_view();
            urls.push(self.urls[i].clone());
            proof {
                assert(urls.deep_view() =~= before.push(self.urls.deep_view()[i as int]));
            }
            i += 1;
        }
        urls
    }
}

/// For each subscriber a list of search URLs.
pub struct Ledger {
    lists: HashMap<i64, UrlList>,
}

impl View for Ledger {
    type V = Map<i64, Seq<Seq<char>>>;

    /// Subscriber to the URLs listed for it, in the order they were added.
    closed spec fn view(&self) -> Map<i64, Seq<Seq<char>>> {
        Map::new(
            |subscriber: i64| self.lists@.contains_key(subscriber),
            |subscriber: i64| self.lists@[subscriber]@,
        )
    }
}

/// The URLs that `ledger` lists for `subscriber`: none for a subscriber it
/// does not know.
pub open spec fn urls_of(ledger: Map<i64, Seq<Seq<char>>>, subscriber: i64) -> Seq<Seq<char>> {
    if ledger.contains_key(subscriber) {
        ledger[subscriber]
    } else {
        Seq::empty()
    }
}

/// Whether `ledger` lists `url` for `subscriber`.
pub open spec fn lists_url(
    ledger: Map<i64, Seq<Seq<char>>>,
    subscriber: i64,
    url: Seq<char>,
) -> bool {
    urls_of(ledger, subscriber).contains(url)
}

impl Ledger {
    /// A ledger that knows no subscriber.
    pub fn new() -> (ledger: Ledger)
        ensures
            ledger@ == Map::<i64, Seq<Seq<char>>>::empty(),
    {
        let ledger = Ledger { lists: HashMap::new() };
        ledger
    }

    /// Whether the ledger has a list for `subscriber`. A subscriber is known
    /// from the first URL listed for it, and stays known when its list
    /// becomes empty.
    pub fn knows(&self, subscriber: i64) -> (known: bool)
        ensures
            known == self@.contains_key(subscriber),
    {
        broadcast use group_hash_axioms;

        self.lists.contains_key(&subscriber)
    }

    /// Whether `url` is listed for `subscriber`.
    pub fn contains(&self, subscriber: i64, url: &str) -> (found: bool)
        ensures
            found == lists_url(self@, subscriber, url@),
    {
        broadcast use group_hash_axioms;

        let key = url.to_owned();
        match self.lists.get(&subscriber) {
            Some(list) => list.contains(&key),
            None => false,
        }
    }

    /// Lists `url` for `subscriber` unless it is listed already; says whether
    /// it was added.
    pub fn insert(&mut self, subscriber: i64, url: &str) -> (added: bool)
        ensures
            added == !lists_url(old(self)@, subscriber, url@),
            final(self)@ == if added {
                old(self)@.insert(subscriber, urls_of(old(self)@, subscriber).push(url@))
            } else {
                old(self)@
            },
    {
        broadcast use group_hash_axioms;

        if self.contains(subscriber, url) {
            return false;
        }
        let mut list = match self.lists.remove(&subscriber) {
            Some(l) => l,
            None => UrlList::new(),
        };
        let _ = list.insert(url.to_owned());
        self.lists.insert(subscriber, list);
        true
    }

    /// Takes `url` off the list of `subscriber` if it is on it; says whether
    /// it was.
    pub fn remove(&mut self, subscriber: i64, url: &str) -> (removed: bool)
        ensures
            removed == lists_url(old(self)@, subscriber, url@),
            final(self)@ == if removed {
                old(self)@.insert(subscriber, without(old(self)@[subscriber], url@))
            } else {
                old(self)@
            },
            !lists_url(final(self)@, subscriber, url@),
    {
        broadcast use group_hash_axioms;

        if !self.contains(subscriber, url) {
            return false;
        }
        let key = url.to_owned();
        match self.lists.remove(&subscriber) {
            Some(l) => {
                let mut list = l;
                let _ = list.remove(&key);
                self.lists.insert(subscriber, list);
            },
            None => {},
        }
        true
    }

    /// The URLs listed for `subscriber`, in the order they were added; none
    /// for a subscriber that the ledger does not know.
    pub fn urls(&self, subscriber: i64) -> (urls: Vec<String>)
        ensures
            urls.deep_view() == urls_of(self@, subscriber),
            urls.deep_view().no_duplicates(),
    {
        broadcast use group_hash_axioms;

        match self.lists.get(&subscriber) {
            Some(list) => list.to_vec(),
            None => {
                let urls: Vec<String> = Vec::new();
                urls
            },
        }
    }

    /// The subscribers that the ledger knows, each once, in no particular
    /// order.
    pub fn subscribers(&self) -> (ids: Vec<i64>)
        ensures
            ids@.no_duplicates(),
            ids@.to_set() == self@.dom(),
    {
        broadcast use group_hash_axioms;

        let mut ids: Vec<i64> = Vec::new();
        let keys = self.lists.keys();
        let ghost all = keys.remaining();
        for key in it: keys
            invariant
                it.seq() == all,
                ids@.len() == it.index(),
                forall|j: int| 0 <= j < ids@.len() ==> ids@[j] == *all[j],
        {
            ids.push(*key);
        }
        assert(ids@ =~= all.unref());
        ids
    }
}

/// `list` with every string kept at its first occurrence only.
pub open spec fn deduped(list: Seq<Seq<char>>) -> Seq<Seq<char>>
    decreases list.len(),
{
    if list.len() == 0 {
        Seq::empty()
    } else {
        let kept = deduped(list.drop_last());
        if kept.contains(list.last()) {
            kept
        } else {
            kept.push(list.last())
        }
    }
}

/// What is kept holds no string twice and holds exactly the strings of the
/// list; a list without duplicates is kept whole.
pub proof fn lemma_deduped(list: Seq<Seq<char>>)
    ensures
        deduped(list).no_duplicates(),
        forall|url: Seq<char>| #[trigger] deduped(list).contains(url) <==> list.contains(url),
        list.no_duplicates() ==> deduped(list) == list,
    decreases list.len(),
{
    if list.len() > 0 {
        let shorter = list.drop_last();
        let last = list.last();
        let kept = deduped(shorter);
        lemma_deduped(shorter);
        assert(list =~= shorter.push(last));
        assert forall|url: Seq<char>| #[trigger] deduped(list).contains(url) <==> list.contains(
            url,
        ) by {
            lemma_push_contains(kept, last, url);
        }
    }
}

/// The ledger that a list of saved entries gives: each subscriber with its
/// URLs, duplicates dropped; of two entries for one subscriber the later
/// counts.
pub open spec fn loaded(entries: Seq<(i64, Seq<Seq<char>>)>) -> Map<i64, Seq<Seq<char>>> {
    collected(entries.map_values(|e: (i64, Seq<Seq<char>>)| (e.0, deduped(e.1))))
}

/// Whether `entries` is a saved form of `ledger`: every subscriber once,
/// with its list, and no list with a URL twice.
pub open spec fn is_saved_form(
    entries: Seq<(i64, Seq<Seq<char>>)>,
    ledger: Map<i64, Seq<Seq<char>>>,
) -> bool {
    &&& is_listing_of(entries, ledger)
    &&& forall|i: int| 0 <= i < entries.len() ==> (#[trigger] entries[i]).1.no_duplicates()
}

/// Round trip: loading the saved form of a ledger gives the ledger back.
pub proof fn lemma_ledger_round_trip(
    entries: Seq<(i64, Seq<Seq<char>>)>,
    ledger: Map<i64, Seq<Seq<char>>>,
)
    requires
        is_saved_form(entries, ledger),
    ensures
        loaded(entries) == ledger,
{
    let cleaned = entries.map_values(|e: (i64, Seq<Seq<char>>)| (e.0, deduped(e.1)));
    assert(cleaned =~= entries) by {
        assert forall|i: int| 0 <= i < entries.len() implies cleaned[i] == entries[i] by {
            lemma_deduped(entries[i].1);
        }
    }
    lemma_collected_listing(entries, ledger);
}

impl UrlList {
    /// The list of the strings of `urls`, each kept at its first occurrence.
    pub fn from_vec(urls: &Vec<String>) -> (list: UrlList)
        ensures
            list@ == deduped(urls.deep_view()),
    {
        let mut kept: Vec<String> = Vec::new();
        let mut i: usize = 0;
        while i < urls.len()
            invariant
                i <= urls.len(),
                kept.deep_view() == deduped(urls.deep_view().take(i as int)),
            decreases urls.len() - i,
        {
            proof {
                let all = urls.deep_view();
                assert(all.take(i + 1).drop_last() =~= all.take(i as int));
            }
            if !contains_text(&kept, &urls[i]) {
                kept.push(urls[i].clone());
            }
            i += 1;
        }
        proof {
            assert(urls.deep_view().take(i as int) =~= urls.deep_view());
            lemma_deduped(urls.deep_view());
        }
        UrlList { urls: kept }
    }
}

impl Ledger {
    /// The ledger as a plain list of entries, one for each subscriber, in no
    /// particular order.
    pub fn export(&self) -> (entries: Vec<(i64, Vec<String>)>)
        ensures
            is_saved_form(entries.deep_view(), self@),
    {
        let ids = self.subscribers();
        let mut entries: Vec<(i64, Vec<String>)> = Vec::new();
        let mut i: usize = 0;
        while i < ids.len()
            invariant
                i <= ids.len(),
                ids@.no_duplicates(),
                ids@.to_set() == self@.dom(),
                entries.len() == i,
                forall|k: int|
                    0 <= k < i ==> (#[trigger] entries.deep_view()[k]).0 == ids@[k]
                        && entries.deep_view()[k].1 == self@[ids@[k]]
                        && entries.deep_view()[k].1.no_duplicates(),
            decreases ids.len() - i,
        {
            let ghost before = entries.deep_view();
            let urls = self.urls(ids[i]);
            entries.push((ids[i], urls));
            proof {
                let after = entries.deep_view();
                assert forall|k: int| 0 <= k < i + 1 implies (#[trigger] after[k]).0 == ids@[k]
                    && after[k].1 == self@[ids@[k]] && after[k].1.no_duplicates() by {
                    if k < i {
                        assert(after[k] == before[k]);
                    }
                }
            }
            i += 1;
        }
        proof {
            let listed = entries.deep_view();
            assert forall|s: i64| #[trigger] self@.contains_key(s) implies has_key(listed, s) by {
                let k = choose|k: int| 0 <= k < ids@.len() && ids@[k] == s;
                assert(key_at(listed, k) == s);
            }
        }
        entries
    }

    /// The ledger that a plain list of entries gives.
    pub fn import(entries: &Vec<(i64, Vec<String>)>) -> (ledger: Ledger)
        ensures
            ledger@ == loaded(entries.deep_view()),
    {
        broadcast use group_hash_axioms;

        let mut ledger = Ledger::new();
        let mut i: usize = 0;
        let ghost all = entries.deep_view();
        let ghost cleaned = all.map_values(|e: (i64, Seq<Seq<char>>)| (e.0, deduped(e.1)));
        while i < entries.len()
            invariant
                i <= entries.len(),
                all == entries.deep_view(),
                cleaned == all.map_values(|e: (i64, Seq<Seq<char>>)| (e.0, deduped(e.1))),
                ledger@ == collected(cleaned.take(i as int)),
            decreases entries.len() - i,
        {
            let list = UrlList::from_vec(&entries[i].1);
            ledger.lists.insert(entries[i].0, list);
            proof {
                assert(cleaned.take(i + 1).drop_last() =~= cleaned.take(i as int));
            }
            i += 1;
        }
        proof {
            assert(cleaned.take(i as int) =~= cleaned);
        }
        ledger
    }
}

} // verus!
