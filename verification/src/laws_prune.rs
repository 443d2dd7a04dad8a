//! Laws of pruning: how many entries go and which, told by the rows of the tables alone.

use vstd::prelude::*;
use vstd::set_lib::*;

use crate::history::{
    cutoff_of, excess, expired, lemma_expired, lemma_surplus, lemma_without_len, lemma_without_none,
    pruned, pruned_now, surplus, without_all,
};
use crate::sql::{live, newer, oldest_first, page, sound, Tables};
use crate::types::{EntryId, UnixMillis};

verus! {

/// Whether the entry `id` is there and within the retention time: it is pinned, or there
/// is no cutoff, or it is not from before the cutoff.
pub open spec fn is_in_time(t: Tables, cutoff: Option<UnixMillis>, id: i64) -> bool {
    t.entries.contains_key(id) && (t.entries[id].pinned != 0 || cutoff is None || t.entries[id].ts
        >= cutoff->0)
}

/// The entries within the retention time.
pub open spec fn in_time(t: Tables, cutoff: Option<UnixMillis>) -> Set<i64> {
    Set::new(|id: i64| is_in_time(t, cutoff, id))
}

/// The unpinned entries within the retention time.
pub open spec fn unpinned_in_time(t: Tables, cutoff: Option<UnixMillis>) -> Set<i64> {
    Set::new(|id: i64| is_in_time(t, cutoff, id) && t.entries[id].pinned == 0)
}

/// The unpinned entries within the retention time that are older than `id`, or as old with
/// a lower id.
pub open spec fn older_in_time(t: Tables, cutoff: Option<UnixMillis>, id: i64) -> Set<i64> {
    Set::new(
        |k: i64|
            is_in_time(t, cutoff, k) && t.entries[k].pinned == 0 && (t.entries[k].ts
                < t.entries[id].ts || (t.entries[k].ts == t.entries[id].ts && k < id)),
    )
}

proof fn lemma_in_time(t: Tables, cutoff: Option<UnixMillis>)
    requires
        sound(t),
    ensures
        sound(expired(t, cutoff)),
        expired(t, cutoff).entries.dom() == in_time(t, cutoff),
        live(expired(t, cutoff)) == in_time(t, cutoff),
        in_time(t, cutoff).finite(),
        unpinned_in_time(t, cutoff).finite(),
        unpinned_in_time(t, cutoff).len() <= in_time(t, cutoff).len() <= t.entries.dom().len(),
        forall|id: i64| #[trigger]
            in_time(t, cutoff).contains(id) ==> expired(t, cutoff).entries[id] == t.entries[id],
{
    let rest = expired(t, cutoff);
    lemma_expired(t, cutoff);
    assert(rest.entries.dom() =~= in_time(t, cutoff));
    assert(live(rest) =~= in_time(t, cutoff));
    lemma_len_subset(in_time(t, cutoff), t.entries.dom());
    lemma_len_subset(unpinned_in_time(t, cutoff), in_time(t, cutoff));
}

proof fn lemma_oldest_in_time(t: Tables, cutoff: Option<UnixMillis>, all: Seq<EntryId>)
    requires
        sound(t),
        oldest_first(expired(t, cutoff), all),
    ensures
        all.to_set() == unpinned_in_time(t, cutoff),
        all.len() == unpinned_in_time(t, cutoff).len(),
        forall|p: int|
            0 <= p < all.len() ==> older_in_time(t, cutoff, #[trigger] all[p]).finite()
                && older_in_time(t, cutoff, all[p]).len() == p,
{
    let rest = expired(t, cutoff);
    lemma_in_time(t, cutoff);
    assert forall|id: i64| #[trigger] all.to_set().contains(id) <==> unpinned_in_time(
        t,
        cutoff,
    ).contains(id) by {
        assert(all.contains(id) <==> live(rest).contains(id) && rest.entries[id].pinned == 0);
        assert(in_time(t, cutoff).contains(id) <==> is_in_time(t, cutoff, id));
    }
    assert(all.to_set() =~= unpinned_in_time(t, cutoff));
    all.unique_seq_to_set();
    assert forall|p: int| 0 <= p < all.len() implies older_in_time(
        t,
        cutoff,
        #[trigger] all[p],
    ).finite() && older_in_time(t, cutoff, all[p]).len() == p by {
        let first = all.take(p);
        let older = older_in_time(t, cutoff, all[p]);
        assert forall|i: int| 0 <= i < all.len() implies rest.entries[#[trigger] all[i]]
            == t.entries[all[i]] by {
            assert(all.contains(all[i]));
            assert(in_time(t, cutoff).contains(all[i]));
        }
        assert forall|k: i64| #[trigger] older.contains(k) <==> first.to_set().contains(k) by {
            if older.contains(k) {
                assert(unpinned_in_time(t, cutoff).contains(k));
                assert(all.to_set().contains(k));
                assert(all.contains(k));
                let m = all.index_of(k);
                if m > p {
                    assert(newer(rest, all[m], all[p]));
                }
                assert(first[m] == k);
                assert(first.contains(k));
            }
            if first.to_set().contains(k) {
                assert(first.contains(k));
                let m = first.index_of(k);
                assert(all[m] == k);
                assert(all.contains(k));
                assert(all.to_set().contains(k));
                assert(unpinned_in_time(t, cutoff).contains(k));
                assert(newer(rest, all[p], all[m]));
            }
        }
        assert(older =~= first.to_set());
        assert(first.no_duplicates());
        first.unique_seq_to_set();
        vstd::seq_lib::seq_to_set_is_finite(first);
    }
}

/// Pruning by age and by number: what is past its time goes, and of the rest no more than
/// is needed. So many go as there are above `max`, or all unpinned ones, where they are
/// fewer.
pub proof fn prune_deletes_what_is_needed(
    t: Tables,
    after: Tables,
    max: i64,
    cutoff: Option<UnixMillis>,
)
    requires
        sound(t),
        pruned(t, after, max, cutoff),
    ensures
        in_time(t, cutoff).finite(),
        in_time(t, cutoff).len() <= max ==> after.entries.dom() == in_time(t, cutoff),
        in_time(t, cutoff).len() > max && unpinned_in_time(t, cutoff).len() >= in_time(
            t,
            cutoff,
        ).len() - max ==> after.entries.dom().len() == max,
        in_time(t, cutoff).len() > max && unpinned_in_time(t, cutoff).len() < in_time(
            t,
            cutoff,
        ).len() - max ==> after.entries.dom().len() == in_time(t, cutoff).len() - unpinned_in_time(
            t,
            cutoff,
        ).len(),
{
    let rest = expired(t, cutoff);
    lemma_in_time(t, cutoff);
    let ids = choose|ids: Seq<EntryId>| #[trigger]
        surplus(rest, max, ids) && after == without_all(rest, ids);
    lemma_surplus(rest, max, ids);
    assert forall|id: EntryId| #[trigger] ids.contains(id) implies rest.entries.contains_key(
        id,
    ) by {
        assert(live(rest).contains(id));
    }
    lemma_without_len(rest, ids);
    let all = choose|all: Seq<EntryId>| #[trigger]
        oldest_first(rest, all) && ids == page(all, 0, excess(rest, max));
    lemma_oldest_in_time(t, cutoff, all);
    if in_time(t, cutoff).len() <= max {
        assert(ids =~= Seq::empty());
        lemma_without_none(rest);
    }
}

/// Without an age limit pruning deletes as many entries as there are above `max`, or all
/// unpinned ones where they are fewer, and no more: at least `max` entries remain, or all
/// that there were.
pub proof fn prune_by_number_deletes_no_more_than_needed(t: Tables, after: Tables, max: i64)
    requires
        sound(t),
        pruned(t, after, max, None),
        max >= 0,
    ensures
        ({
            let n = t.entries.dom().len();
            let unpinned = t.entries.dom().filter(|id: i64| t.entries[id].pinned == 0).len();
            let above = if n > max { n - max } else { 0 };
            &&& n - after.entries.dom().len() == if unpinned <= above {
                unpinned as int
            } else {
                above
            }
            &&& after.entries.dom().len() >= if n <= max {
                n as int
            } else {
                max as int
            }
        }),
        t.entries.dom().len() <= max ==> after == t,
{
    assert(in_time(t, None) =~= t.entries.dom());
    assert(unpinned_in_time(t, None) =~= t.entries.dom().filter(
        |id: i64| t.entries[id].pinned == 0,
    ));
    prune_deletes_what_is_needed(t, after, max, None);
    lemma_in_time(t, None);
    if t.entries.dom().len() <= max {
        let ids = choose|ids: Seq<EntryId>| #[trigger]
            surplus(t, max, ids) && after == without_all(t, ids);
        let all = choose|all: Seq<EntryId>| #[trigger]
            oldest_first(t, all) && ids == page(all, 0, excess(t, max));
        assert(ids =~= Seq::empty());
        lemma_without_none(t);
    }
}

/// Which entries remain is decided by their place: an entry that is past its time goes, a
/// pinned one stays, and of the others one goes if and only if the entries above `max` are
/// more than the unpinned ones that are older.
pub proof fn prune_takes_exactly_the_oldest(
    t: Tables,
    after: Tables,
    max: i64,
    cutoff: Option<UnixMillis>,
    id: EntryId,
)
    requires
        sound(t),
        pruned(t, after, max, cutoff),
    ensures
        after.entries.contains_key(id) <==> is_in_time(t, cutoff, id) && (t.entries[id].pinned != 0
            || older_in_time(t, cutoff, id).len() >= in_time(t, cutoff).len() - max),
{
    let rest = expired(t, cutoff);
    lemma_in_time(t, cutoff);
    let ids = choose|ids: Seq<EntryId>| #[trigger]
        surplus(rest, max, ids) && after == without_all(rest, ids);
    lemma_surplus(rest, max, ids);
    let all = choose|all: Seq<EntryId>| #[trigger]
        oldest_first(rest, all) && ids == page(all, 0, excess(rest, max));
    lemma_oldest_in_time(t, cutoff, all);
    assert(in_time(t, cutoff).contains(id) <==> is_in_time(t, cutoff, id));
    if is_in_time(t, cutoff, id) {
        if t.entries[id].pinned != 0 {
            assert(!ids.contains(id));
        } else {
            assert(unpinned_in_time(t, cutoff).contains(id));
            assert(all.to_set().contains(id));
            assert(all.contains(id));
            let p = all.index_of(id);
            assert(older_in_time(t, cutoff, all[p]).len() == p);
            if p < ids.len() {
                assert(ids[p] == id);
                assert(ids.contains(id));
            } else if ids.contains(id) {
                let q = ids.index_of(id);
                assert(all[q] == id);
            }
        }
    }
}

/// Pruning leaves what remains as it was: its row, its targets and its indexed text. What
/// goes takes its targets with it, and what goes by number its indexed text too.
pub proof fn prune_leaves_the_rest_alone(
    t: Tables,
    after: Tables,
    max: i64,
    cutoff: Option<UnixMillis>,
    id: EntryId,
    mime: Seq<char>,
    content: Seq<char>,
)
    requires
        sound(t),
        pruned(t, after, max, cutoff),
    ensures
        after.entries.contains_key(id) ==> after.entries[id] == t.entries[id],
        after.entries.contains_key(id) ==> after.targets.contains_key((id, mime))
            == t.targets.contains_key((id, mime)),
        after.entries.contains_key(id) && t.targets.contains_key((id, mime)) ==> after.targets[(
            id,
            mime,
        )] == t.targets[(id, mime)],
        after.entries.contains_key(id) ==> after.index.count((id, content)) == t.index.count(
            (id, content),
        ),
        !after.entries.contains_key(id) ==> !after.targets.contains_key((id, mime)),
        !after.entries.contains_key(id) && is_in_time(t, cutoff, id) ==> after.index.count(
            (id, content),
        ) == 0,
        after.groups == t.groups,
        after.meta == t.meta,
{
    let rest = expired(t, cutoff);
    lemma_in_time(t, cutoff);
    let ids = choose|ids: Seq<EntryId>| #[trigger]
        surplus(rest, max, ids) && after == without_all(rest, ids);
    assert(in_time(t, cutoff).contains(id) <==> is_in_time(t, cutoff, id));
    assert(rest.index == t.index);
    if after.targets.contains_key((id, mime)) {
        assert(rest.targets.contains_key((id, mime)));
    }
}

/// Pruning with a number of days uses the time that lies so many days back, and without
/// one no entry is too old.
pub proof fn prune_counts_days_back(t: Tables, after: Tables, max: i64, days: Option<i64>)
    requires
        pruned_now(t, after, max, days),
    ensures
        days is None ==> pruned(t, after, max, None),
        days matches Some(d) ==> exists|now: UnixMillis, cutoff: UnixMillis| #[trigger]
            pruned(t, after, max, Some(cutoff)) && #[trigger] is_days_back(now, d, cutoff),
{
    if let Some(d) = days {
        let now = choose|now: UnixMillis|
            pruned(t, after, max, Some(#[trigger] cutoff_of(now, d)));
        assert(is_days_back(now, d, cutoff_of(now, d)));
    }
}

/// Whether `cutoff` lies `days` days of 86,400,000 milliseconds before `now`, as far as
/// 64 bits can tell.
pub open spec fn is_days_back(now: UnixMillis, days: i64, cutoff: UnixMillis) -> bool {
    i64::MIN <= days * 86_400_000 <= i64::MAX && i64::MIN <= now - days * 86_400_000 <= i64::MAX
        ==> cutoff == now - days * 86_400_000
}

} // verus!
