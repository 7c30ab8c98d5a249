//! Novelty tracking: which listings of a crawl a subscriber has not been
//! shown yet for a given search.

use vstd::prelude::*;
use crate::listing::{identifiers, Listing, ListingView};
use crate::text::contains_text;

verus! {

/// Whether the listing at position `i` of `batch` is new relative to `seen`:
/// its identifier is not in `seen` and no earlier listing of the batch
/// carries it.
pub open spec fn is_new_at(seen: Seq<Seq<char>>, batch: Seq<ListingView>, i: int) -> bool {
    &&& 0 <= i < batch.len()
    &&& !seen.contains(batch[i].id)
    &&& !identifiers(batch.take(i)).contains(batch[i].id)
}

/// The new listings of `batch` relative to `seen`, in the order of the batch.
pub open spec fn fresh(seen: Seq<Seq<char>>, batch: Seq<ListingView>) -> Seq<ListingView>
    decreases batch.len(),
{
    if batch.len() == 0 {
        Seq::empty()
    } else {
        let earlier = fresh(seen, batch.drop_last());
        if is_new_at(seen, batch, batch.len() - 1) {
            earlier.push(batch.last())
        } else {
            earlier
        }
    }
}

/// What one diff reports, given what was recorded for the pair before
/// (`None` when the pair was never crawled).
pub open spec fn reported(before: Option<Seq<Seq<char>>>, batch: Seq<ListingView>) -> Seq<
    ListingView,
> {
    match before {
        None => Seq::empty(),
        Some(seen) => fresh(seen, batch),
    }
}

/// What is recorded for the pair after one diff.
pub open spec fn recorded(before: Option<Seq<Seq<char>>>, batch: Seq<ListingView>) -> Seq<
    Seq<char>,
> {
    match before {
        None => identifiers(batch),
        Some(seen) => seen + identifiers(fresh(seen, batch)),
    }
}

/// An identifier is recorded after a diff over a prefix of the batch
/// exactly when it was seen before or some listing of the prefix carries it.
pub proof fn lemma_recorded_members(seen: Seq<Seq<char>>, batch: Seq<ListingView>, id: Seq<char>)
    ensures
        (seen + identifiers(fresh(seen, batch))).contains(id) <==> seen.contains(id)
            || identifiers(batch).contains(id),
    decreases batch.len(),
{
    let now = seen + identifiers(fresh(seen, batch));
    if batch.len() > 0 {
        let shorter = batch.drop_last();
        let last = batch.last();
        let n = batch.len() - 1;
        lemma_recorded_members(seen, shorter, id);
        let before = seen + identifiers(fresh(seen, shorter));
        let ids = identifiers(batch);
        let short_ids = identifiers(shorter);
        assert(short_ids.contains(id) ==> ids.contains(id)) by {
            if short_ids.contains(id) {
                let k = choose|k: int| 0 <= k < short_ids.len() && short_ids[k] == id;
                assert(ids[k] == id);
            }
        }
        assert(ids.contains(id) ==> short_ids.contains(id) || id == last.id) by {
            if ids.contains(id) {
                let k = choose|k: int| 0 <= k < ids.len() && ids[k] == id;
                if k < n {
                    assert(short_ids[k] == id);
                }
            }
        }
        assert(ids[n] == last.id);
        assert(before.contains(id) ==> now.contains(id)) by {
            if before.contains(id) {
                let k = choose|k: int| 0 <= k < before.len() && before[k] == id;
                assert(now[k] == id);
            }
        }
        assert(now.contains(id) ==> before.contains(id) || (id == last.id && is_new_at(
            seen,
            batch,
            n,
        ))) by {
            if now.contains(id) {
                let k = choose|k: int| 0 <= k < now.len() && now[k] == id;
                if k < before.len() {
                    assert(before[k] == id);
                }
            }
        }
        if id == last.id {
            if is_new_at(seen, batch, n) {
                assert(now[now.len() - 1] == id);
            }
        }
    }
}

/// The positions of the new listings of `batch` relative to `seen`, in
/// increasing order.
pub open spec fn new_positions(seen: Seq<Seq<char>>, batch: Seq<ListingView>) -> Seq<int>
    decreases batch.len(),
{
    if batch.len() == 0 {
        Seq::empty()
    } else {
        let earlier = new_positions(seen, batch.drop_last());
        if is_new_at(seen, batch, batch.len() - 1) {
            earlier.push(batch.len() - 1)
        } else {
            earlier
        }
    }
}

/// Whether a position of a longer batch is new does not depend on what
/// follows it.
proof fn lemma_new_at_prefix(seen: Seq<Seq<char>>, batch: Seq<ListingView>, i: int)
    requires
        0 <= i < batch.len() - 1,
    ensures
        is_new_at(seen, batch, i) == is_new_at(seen, batch.drop_last(), i),
{
    assert(batch.drop_last().take(i) =~= batch.take(i));
}

/// Partition: the listings reported are exactly those at the new positions
/// of the batch, each once and in the order of the batch.
pub proof fn lemma_fresh_partition(seen: Seq<Seq<char>>, batch: Seq<ListingView>)
    ensures
        fresh(seen, batch).len() == new_positions(seen, batch).len(),
        forall|k: int|
            0 <= k < fresh(seen, batch).len() ==> {
                &&& is_new_at(seen, batch, #[trigger] new_positions(seen, batch)[k])
                &&& fresh(seen, batch)[k] == batch[new_positions(seen, batch)[k]]
            },
        forall|j: int, k: int|
            0 <= j < k < new_positions(seen, batch).len() ==> new_positions(seen, batch)[j]
                < new_positions(seen, batch)[k],
        forall|i: int|
            is_new_at(seen, batch, i) ==> #[trigger] new_positions(seen, batch).contains(i),
    decreases batch.len(),
{
    if batch.len() > 0 {
        let shorter = batch.drop_last();
        let n = batch.len() - 1;
        let at = new_positions(seen, batch);
        let at0 = new_positions(seen, shorter);
        lemma_fresh_partition(seen, shorter);
        assert forall|k: int| 0 <= k < at0.len() implies 0 <= #[trigger] at0[k] < n
            && is_new_at(seen, batch, at0[k]) && batch[at0[k]] == shorter[at0[k]] by {
            lemma_new_at_prefix(seen, batch, at0[k]);
        }
        assert forall|i: int| is_new_at(seen, batch, i) implies #[trigger] at.contains(i) by {
            if i < n {
                lemma_new_at_prefix(seen, batch, i);
                assert(at0.contains(i));
                let k = choose|k: int| 0 <= k < at0.len() && at0[k] == i;
                assert(at[k] == i);
            } else {
                assert(at[at.len() - 1] == i);
            }
        }
    }
}

/// What is reported carries identifiers that were not recorded, each once;
/// and every identifier of the batch that was not recorded is reported.
pub proof fn lemma_fresh_identifiers(seen: Seq<Seq<char>>, batch: Seq<ListingView>)
    ensures
        identifiers(fresh(seen, batch)).no_duplicates(),
        forall|id: Seq<char>|
            #[trigger] identifiers(fresh(seen, batch)).contains(id) <==> !seen.contains(id)
                && identifiers(batch).contains(id),
    decreases batch.len(),
{
    let ids = identifiers(fresh(seen, batch));
    if batch.len() > 0 {
        let shorter = batch.drop_last();
        let last = batch.last();
        let n = batch.len() - 1;
        let ids0 = identifiers(fresh(seen, shorter));
        lemma_fresh_identifiers(seen, shorter);
        if is_new_at(seen, batch, n) {
            assert(ids =~= ids0.push(last.id));
            assert(!ids0.contains(last.id));
        }
        assert forall|id: Seq<char>| #[trigger] ids.contains(id) <==> !seen.contains(id)
            && identifiers(batch).contains(id) by {
            let all = identifiers(batch);
            let all0 = identifiers(shorter);
            if ids.contains(id) {
                let k = choose|k: int| 0 <= k < ids.len() && ids[k] == id;
                if k < ids0.len() {
                    assert(ids0.contains(id));
                    let j = choose|j: int| 0 <= j < all0.len() && all0[j] == id;
                    assert(all[j] == id);
                } else {
                    assert(all[n] == id);
                }
            }
            if !seen.contains(id) && all.contains(id) {
                let j = choose|j: int| 0 <= j < all.len() && all[j] == id;
                if j < n {
                    assert(all0[j] == id);
                    assert(ids0.contains(id));
                    let k = choose|k: int| 0 <= k < ids0.len() && ids0[k] == id;
                    assert(ids[k] == id);
                } else if !all0.contains(id) {
                    assert(ids[ids.len() - 1] == id);
                }
            }
        }
    }
}

/// A batch whose identifiers are all recorded reports nothing.
pub proof fn lemma_nothing_fresh(seen: Seq<Seq<char>>, batch: Seq<ListingView>)
    requires
        forall|i: int| 0 <= i < batch.len() ==> seen.contains(#[trigger] batch[i].id),
    ensures
        fresh(seen, batch) == Seq::<ListingView>::empty(),
    decreases batch.len(),
{
    if batch.len() > 0 {
        let shorter = batch.drop_last();
        lemma_nothing_fresh(seen, shorter);
    }
}

/// After a diff, every identifier of the batch is recorded for the pair, and
/// with it the identifier of every listing that was reported.
pub proof fn lemma_reported_is_recorded(before: Option<Seq<Seq<char>>>, batch: Seq<ListingView>)
    ensures
        forall|i: int|
            0 <= i < batch.len() ==> recorded(before, batch).contains(#[trigger] batch[i].id),
        forall|k: int|
            0 <= k < reported(before, batch).len() ==> recorded(before, batch).contains(
                #[trigger] reported(before, batch)[k].id,
            ),
{
    let after = recorded(before, batch);
    assert forall|i: int| 0 <= i < batch.len() implies after.contains(#[trigger] batch[i].id) by {
        assert(identifiers(batch)[i] == batch[i].id);
        match before {
            None => {},
            Some(seen) => {
                lemma_recorded_members(seen, batch, batch[i].id);
            },
        }
    }
    assert forall|k: int| 0 <= k < reported(before, batch).len() implies after.contains(
        #[trigger] reported(before, batch)[k].id,
    ) by {
        let seen = before->0;
        let ids = identifiers(fresh(seen, batch));
        assert(after[seen.len() + k] == ids[k]);
    }
}

/// No identifier is reported twice for a pair: what a diff reports was not
/// recorded before it, and what was recorded stays recorded.
pub proof fn lemma_never_reported_twice(seen: Seq<Seq<char>>, batch: Seq<ListingView>)
    ensures
        forall|k: int|
            0 <= k < fresh(seen, batch).len() ==> !seen.contains(
                #[trigger] fresh(seen, batch)[k].id,
            ),
        forall|id: Seq<char>|
            seen.contains(id) ==> #[trigger] recorded(Some(seen), batch).contains(id),
{
    lemma_fresh_identifiers(seen, batch);
    let ids = identifiers(fresh(seen, batch));
    assert forall|k: int| 0 <= k < fresh(seen, batch).len() implies !seen.contains(
        #[trigger] fresh(seen, batch)[k].id,
    ) by {
        assert(ids.contains(ids[k]));
    }
    assert forall|id: Seq<char>| seen.contains(id) implies #[trigger] recorded(
        Some(seen),
        batch,
    ).contains(id) by {
        lemma_recorded_members(seen, batch, id);
    }
}

/// The identifiers of `listings`, in order.
pub fn collect_identifiers(listings: &Vec<Listing>) -> (ids: Vec<String>)
    ensures
        ids.deep_view() == identifiers(listings.deep_view()),
{
    let mut ids: Vec<String> = Vec::new();
    let mut i: usize = 0;
    while i < listings.len()
        invariant
            i <= listings.len(),
            ids.deep_view() == identifiers(listings.deep_view().take(i as int)),
        decreases listings.len() - i,
    {
        ids.push(listings[i].id.clone());
        proof {
            let batch = listings.deep_view();
            assert(identifiers(batch.take(i + 1)) =~= identifiers(batch.take(i as int)).push(
                batch[i as int].id,
            ));
        }
        i += 1;
    }
    ids
}

/// Records in `seen` the identifiers of the new listings of `batch` and
/// returns copies of those listings, in the order of the batch.
pub fn collect_fresh(seen: &mut Vec<String>, batch: &Vec<Listing>) -> (found: Vec<Listing>)
    ensures
        found.deep_view() == fresh(old(seen).deep_view(), batch.deep_view()),
        final(seen).deep_view() == old(seen).deep_view() + identifiers(found.deep_view()),
{
    let ghost seen0 = seen.deep_view();
    let ghost all = batch.deep_view();
    let mut found: Vec<Listing> = Vec::new();
    let mut i: usize = 0;
    while i < batch.len()
        invariant
            i <= batch.len(),
            all == batch.deep_view(),
            found.deep_view() == fresh(seen0, all.take(i as int)),
            seen.deep_view() == seen0 + identifiers(found.deep_view()),
        decreases batch.len() - i,
    {
        let ghost prefix = all.take(i as int);
        let ghost longer = all.take(i + 1);
        let ghost seen_before = seen.deep_view();
        proof {
            lemma_recorded_members(seen0, prefix, all[i as int].id);
            assert(longer.take(i as int) =~= prefix);
        }
        if !contains_text(seen, &batch[i].id) {
            found.push(batch[i].duplicate());
            seen.push(batch[i].id.clone());
            proof {
                assert(seen.deep_view() =~= seen_before.push(all[i as int].id));
            }
        }
        i += 1;
    }
    proof {
        assert(all.take(i as int) =~= all);
    }
    found
}

} // verus!
