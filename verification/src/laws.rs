//! Laws of the history: what holds of every history, and how its operations
//! relate to each other.

use vstd::prelude::*;
use vstd::set_lib::*;

use crate::content::{has_token_char, pattern_is_empty_without_tokens, pattern_of};
use crate::history::{
    answers_search, are_hits_of, captured, clamped, cleared, cutoff_of, distinct_mimes, excess,
    expired, findable, flag, from_offset, has_mime, index_text, is_entry, is_page, kept,
    lemma_expired, lemma_surplus, lemma_without_len, lemma_without_none, pruned, put_all, recorded,
    repeats, same_targets, stored_size, stored_size_is_total, summarizes, summary_of, surplus,
    without_all,
};
use crate::schema::migrated;
use crate::sql::{
    bumped, fresh_id, fts_match, is_latest, is_listing, live, new_row, newer, oldest_first, page,
    sound, with_group, with_pin, Database, EntryRow, Tables,
};
use crate::store::prepared;
use crate::text::blank;
use crate::types::{
    inferred_kind, kind_name, kind_name_round_trip, total_bytes, EntryId, FullEntry, Summary,
    Target, UnixMillis,
};

verus! {

broadcast use vstd::string::group_string_axioms;

// ---- the tables stay sound ----

/// Counting a use, pinning, grouping, deleting and clearing keep the tables
/// sound.
pub proof fn changes_keep_sound(
    t: Tables,
    id: EntryId,
    pinned: bool,
    group: Option<i64>,
    ids: Seq<EntryId>,
)
    requires
        sound(t),
    ensures
        sound(bumped(t, id)),
        sound(with_pin(t, id, flag(pinned))),
        sound(with_group(t, id, group)),
        sound(without_all(t, ids)),
        sound(cleared(t)),
{
    let rest = without_all(t, ids).entries.dom();
    lemma_len_subset(rest, t.entries.dom());
}

/// Storing targets for an entry leaves those of the others alone, and takes none away.
pub proof fn lemma_put_all_keys(
    stored: Map<(i64, Seq<char>), Seq<u8>>,
    id: EntryId,
    list: Seq<Target>,
    key: (i64, Seq<char>),
)
    ensures
        key.0 != id ==> put_all(stored, id, list).contains_key(key) == stored.contains_key(key)
            && put_all(stored, id, list)[key] == stored[key],
        stored.contains_key(key) ==> put_all(stored, id, list).contains_key(key),
    decreases list.len(),
{
    if list.len() > 0 {
        lemma_put_all_keys(stored, id, list.drop_last(), key);
    }
}

/// Capturing keeps the tables sound.
pub proof fn capture_keeps_sound(
    t: Tables,
    after: Tables,
    targets: Seq<Target>,
    origin: Option<Seq<char>>,
    max: u64,
    now: UnixMillis,
    id: EntryId,
)
    requires
        sound(t),
        captured(t, after, targets, origin, max, now, id),
    ensures
        sound(after),
{
    if !(exists|last: EntryId| repeats(t, last, targets)) {
        assert forall|k: (i64, Seq<char>)| #[trigger] after.targets.contains_key(k) implies
            after.entries.contains_key(k.0) by {
            lemma_put_all_keys(t.targets, id, kept(targets, max), k);
        }
    }
}

/// Pruning keeps the tables sound.
pub proof fn prune_keeps_sound(t: Tables, after: Tables, max: i64, cutoff: Option<UnixMillis>)
    requires
        sound(t),
        pruned(t, after, max, cutoff),
    ensures
        sound(after),
{
    lemma_expired(t, cutoff);
    let ids = choose|ids: Seq<EntryId>| #[trigger]
        surplus(expired(t, cutoff), max, ids) && after == without_all(expired(t, cutoff), ids);
    changes_keep_sound(expired(t, cutoff), 0, false, None, ids);
}

// ---- opening again ----

/// Opening a database again keeps the history: every entry, every target and
/// all indexed text.
pub proof fn reopening_keeps_history(before: Database, after: Database)
    requires
        before.ready(),
        prepared(before, after),
    ensures
        after.ready(),
        after.tables.entries == before.tables.entries,
        after.tables.targets == before.tables.targets,
        after.tables.index == before.tables.index,
        after.tables.groups == before.tables.groups,
{
}

// ---- capturing and reading back ----

proof fn lemma_put_all(
    stored: Map<(i64, Seq<char>), Seq<u8>>,
    id: EntryId,
    list: Seq<Target>,
    mime: Seq<char>,
)
    requires
        distinct_mimes(list),
    ensures
        has_mime(list, mime) ==> put_all(stored, id, list).contains_key((id, mime)),
        !has_mime(list, mime) ==> put_all(stored, id, list).contains_key((id, mime))
            == stored.contains_key((id, mime)),
        forall|i: int|
            0 <= i < list.len() && (#[trigger] list[i]).mime == mime ==> put_all(stored, id, list)[(
                id,
                mime,
            )] == list[i].bytes,
    decreases list.len(),
{
    if list.len() > 0 {
        let before = list.drop_last();
        assert forall|i: int, j: int| 0 <= i < j < before.len() implies (#[trigger] before[i]).mime
            != (#[trigger] before[j]).mime by {
            assert(list[i].mime != list[j].mime);
        }
        lemma_put_all(stored, id, before, mime);
        assert(list.last() == list[list.len() - 1]);
        if has_mime(list, mime) && list.last().mime != mime {
            let i = choose|i: int| 0 <= i < list.len() && (#[trigger] list[i]).mime == mime;
            assert(before[i].mime == mime);
        }
        if !has_mime(list, mime) {
            assert(list.last().mime != mime);
            assert forall|i: int| 0 <= i < before.len() implies (#[trigger] before[i]).mime
                != mime by {
                assert(list[i].mime != mime);
            }
        }
        assert forall|i: int| 0 <= i < list.len() && (#[trigger] list[i]).mime == mime implies put_all(
            stored,
            id,
            list,
        )[(id, mime)] == list[i].bytes by {
            if i < list.len() - 1 {
                assert(list[i].mime != list[list.len() - 1].mime);
                assert(before[i] == list[i]);
            }
        }
    }
}

proof fn lemma_all_kept(targets: Seq<Target>, max: u64)
    requires
        forall|i: int| 0 <= i < targets.len() ==> (#[trigger] targets[i]).bytes.len() <= max,
    ensures
        kept(targets, max) == targets,
    decreases targets.len(),
{
    reveal(Seq::filter);
    if targets.len() > 0 {
        let before = targets.drop_last();
        assert forall|i: int| 0 <= i < before.len() implies (#[trigger] before[i]).bytes.len()
            <= max by {
            assert(targets[i].bytes.len() <= max);
        }
        lemma_all_kept(before, max);
        assert(targets.last() == targets[targets.len() - 1]);
        assert(kept(targets, max) == kept(before, max).push(targets.last()));
    }
    assert(kept(targets, max) =~= targets);
}

proof fn lemma_recorded_same(
    t: Tables,
    id: EntryId,
    targets: Seq<Target>,
    origin: Option<Seq<char>>,
    max: u64,
    now: UnixMillis,
)
    requires
        sound(t),
        fresh_id(t, id),
        distinct_mimes(targets),
        forall|i: int| 0 <= i < targets.len() ==> (#[trigger] targets[i]).bytes.len() <= max,
    ensures
        same_targets(recorded(t, id, targets, origin, max, now), id, targets),
{
    lemma_all_kept(targets, max);
    let after = recorded(t, id, targets, origin, max, now);
    assert forall|i: int| 0 <= i < targets.len() implies after.targets.contains_key(
        (id, (#[trigger] targets[i]).mime),
    ) && after.targets[(id, targets[i].mime)] == targets[i].bytes by {
        lemma_put_all(t.targets, id, targets, targets[i].mime);
        assert(has_mime(targets, targets[i].mime));
    }
    assert forall|mime: Seq<char>| #[trigger] after.targets.contains_key((id, mime)) implies has_mime(
        targets,
        mime,
    ) by {
        lemma_put_all(t.targets, id, targets, mime);
    }
}

/// A capture is read back in full: the new entry holds every target byte for
/// byte and nothing else, together with its time, its source, its kind and its
/// size. This needs that no two targets have the same mime, and that none
/// exceeds the limit.
pub proof fn capture_is_read_back(
    t: Tables,
    id: EntryId,
    targets: Seq<Target>,
    origin: Option<Seq<char>>,
    max: u64,
    now: UnixMillis,
    e: FullEntry,
)
    requires
        sound(t),
        fresh_id(t, id),
        distinct_mimes(targets),
        forall|i: int| 0 <= i < targets.len() ==> (#[trigger] targets[i]).bytes.len() <= max,
        is_entry(recorded(t, id, targets, origin, max, now), id, e),
    ensures
        live(recorded(t, id, targets, origin, max, now)).contains(id),
        e.targets.no_duplicates(),
        forall|x: Target| #[trigger] e.targets.contains(x) <==> targets.contains(x),
        e.ts == now,
        e.origin == origin,
        e.use_count == 1,
        !e.pinned,
        e.group is None,
        e.preview_kind == inferred_kind(targets),
        total_bytes(targets) <= i64::MAX ==> e.size_bytes == total_bytes(targets),
{
    let after = recorded(t, id, targets, origin, max, now);
    lemma_recorded_same(t, id, targets, origin, max, now);
    kind_name_round_trip(inferred_kind(targets));
    if total_bytes(targets) <= i64::MAX {
        stored_size_is_total(targets);
    }
    assert forall|x: Target| #[trigger] e.targets.contains(x) <==> targets.contains(x) by {
        if targets.contains(x) {
            let i = targets.index_of(x);
            assert(after.targets.contains_key((id, targets[i].mime)));
        }
        if e.targets.contains(x) {
            assert(after.targets.contains_key((id, x.mime)));
            let i = choose|i: int| 0 <= i < targets.len() && (#[trigger] targets[i]).mime == x.mime;
            assert(targets[i] == x);
        }
    }
}

/// Whether an operation of the store made `after` of the tables `t`, and the
/// entry `id` is still there.
pub open spec fn spares(t: Tables, after: Tables, id: EntryId) -> bool {
    &&& after.entries.contains_key(id)
    &&& {
        ||| after == t
        ||| after == migrated(t)
        ||| exists|
            targets: Seq<Target>,
            origin: Option<Seq<char>>,
            max: u64,
            now: UnixMillis,
            other: EntryId,
        | #[trigger]
            captured(t, after, targets, origin, max, now, other)
        ||| exists|other: EntryId| after == #[trigger] bumped(t, other)
        ||| exists|other: EntryId, pin: i64| after == #[trigger] with_pin(t, other, pin)
        ||| exists|other: EntryId, group: Option<i64>|
            after == #[trigger] with_group(t, other, group)
        ||| exists|ids: Seq<EntryId>| after == #[trigger] without_all(t, ids)
        ||| exists|max: i64, cutoff: Option<UnixMillis>| #[trigger] pruned(t, after, max, cutoff)
    }
}

proof fn lemma_spared(t: Tables, after: Tables, id: EntryId, mime: Seq<char>)
    requires
        t.entries.contains_key(id),
        spares(t, after, id),
    ensures
        after.targets.contains_key((id, mime)) == t.targets.contains_key((id, mime)),
        t.targets.contains_key((id, mime)) ==> after.targets[(id, mime)] == t.targets[(id, mime)],
{
    if exists|
        targets: Seq<Target>,
        origin: Option<Seq<char>>,
        max: u64,
        now: UnixMillis,
        other: EntryId,
    | #[trigger]
        captured(t, after, targets, origin, max, now, other) {
        let (targets, origin, max, now, other) = choose|
            targets: Seq<Target>,
            origin: Option<Seq<char>>,
            max: u64,
            now: UnixMillis,
            other: EntryId,
        | #[trigger]
            captured(t, after, targets, origin, max, now, other);
        if other != id {
            lemma_put_all_keys(t.targets, other, kept(targets, max), (id, mime));
        }
    } else if exists|max: i64, cutoff: Option<UnixMillis>| #[trigger]
        pruned(t, after, max, cutoff) {
        let (max, cutoff) = choose|max: i64, cutoff: Option<UnixMillis>| #[trigger]
            pruned(t, after, max, cutoff);
        let ids = choose|ids: Seq<EntryId>| #[trigger]
            surplus(expired(t, cutoff), max, ids) && after == without_all(expired(t, cutoff), ids);
        assert(expired(t, cutoff).entries.contains_key(id));
    }
}

/// What was captured stays in the history, byte for byte, until it is deleted:
/// after any operations that spare the entry that the capture gave, the entry
/// holds the targets of the capture and no others, in some order. This needs that
/// no two targets have the same mime, and that none exceeds the limit.
pub proof fn captured_targets_last(
    t: Tables,
    targets: Seq<Target>,
    origin: Option<Seq<char>>,
    max: u64,
    now: UnixMillis,
    id: EntryId,
    states: Seq<Tables>,
    e: FullEntry,
)
    requires
        sound(t),
        distinct_mimes(targets),
        forall|i: int| 0 <= i < targets.len() ==> (#[trigger] targets[i]).bytes.len() <= max,
        states.len() > 0,
        captured(t, states[0], targets, origin, max, now, id),
        forall|i: int|
            0 < i < states.len() ==> spares(states[i - 1], #[trigger] states[i], id),
        is_entry(states.last(), id, e),
    ensures
        e.id == id,
        states.last().entries.contains_key(id),
        e.targets.to_multiset() == targets.to_multiset(),
{
    lemma_captured_targets(t, targets, origin, max, now, id, states);
    let last = states.last();
    assert forall|x: Target| #[trigger] e.targets.contains(x) <==> targets.contains(x) by {
        if targets.contains(x) {
            let i = targets.index_of(x);
            assert(last.targets.contains_key((id, targets[i].mime)));
        }
        if e.targets.contains(x) {
            assert(last.targets.contains_key((id, x.mime)));
            let i = choose|i: int| 0 <= i < targets.len() && (#[trigger] targets[i]).mime == x.mime;
            assert(targets[i] == x);
        }
    }
    assert(targets.no_duplicates());
    e.targets.lemma_multiset_has_no_duplicates();
    targets.lemma_multiset_has_no_duplicates();
    e.targets.to_multiset_ensures();
    targets.to_multiset_ensures();
    assert forall|x: Target| #[trigger] e.targets.to_multiset().count(x)
        == targets.to_multiset().count(x) by {
        assert(e.targets.contains(x) <==> targets.contains(x));
        assert(e.targets.to_multiset().count(x) > 0 <==> e.targets.contains(x));
        assert(targets.to_multiset().count(x) > 0 <==> targets.contains(x));
    }
    assert(e.targets.to_multiset() =~= targets.to_multiset());
}

proof fn lemma_captured_targets(
    t: Tables,
    targets: Seq<Target>,
    origin: Option<Seq<char>>,
    max: u64,
    now: UnixMillis,
    id: EntryId,
    states: Seq<Tables>,
)
    requires
        sound(t),
        distinct_mimes(targets),
        forall|i: int| 0 <= i < targets.len() ==> (#[trigger] targets[i]).bytes.len() <= max,
        states.len() > 0,
        captured(t, states[0], targets, origin, max, now, id),
        forall|i: int|
            0 < i < states.len() ==> spares(states[i - 1], #[trigger] states[i], id),
    ensures
        states.last().entries.contains_key(id),
        same_targets(states.last(), id, targets),
    decreases states.len(),
{
    if states.len() == 1 {
        if !(exists|last: EntryId| repeats(t, last, targets)) {
            lemma_recorded_same(t, id, targets, origin, max, now);
        }
    } else {
        let earlier = states.drop_last();
        assert forall|i: int| 0 < i < earlier.len() implies spares(
            earlier[i - 1],
            #[trigger] earlier[i],
            id,
        ) by {
            assert(spares(states[i - 1], states[i], id));
        }
        lemma_captured_targets(t, targets, origin, max, now, id, earlier);
        let before = earlier.last();
        let after = states.last();
        assert(before == states[states.len() - 2]);
        assert(spares(before, states[states.len() - 1], id));
        assert forall|mime: Seq<char>|
            #![trigger after.targets.contains_key((id, mime))]
            after.targets.contains_key((id, mime)) == before.targets.contains_key((id, mime)) && (
            before.targets.contains_key((id, mime)) ==> after.targets[(id, mime)]
                == before.targets[(id, mime)]) by {
            lemma_spared(before, after, id, mime);
        }
    }
}

/// Capturing the same targets again right after they were captured does not add
/// an entry: it counts one more use of the one that is there. This needs that
/// the clock has not gone back, and that the ids have not run out.
pub proof fn repeated_capture_is_counted(
    t: Tables,
    id: EntryId,
    targets: Seq<Target>,
    origin: Option<Seq<char>>,
    max: u64,
    now: UnixMillis,
    after: Tables,
    origin2: Option<Seq<char>>,
    max2: u64,
    now2: UnixMillis,
    id2: EntryId,
)
    requires
        sound(t),
        fresh_id(t, id),
        distinct_mimes(targets),
        forall|i: int| 0 <= i < targets.len() ==> (#[trigger] targets[i]).bytes.len() <= max,
        forall|k: EntryId| #[trigger] t.entries.contains_key(k) ==> t.entries[k].ts <= now,
        !t.entries.contains_key(i64::MAX),
        captured(
            recorded(t, id, targets, origin, max, now),
            after,
            targets,
            origin2,
            max2,
            now2,
            id2,
        ),
    ensures
        id2 == id,
        after == bumped(recorded(t, id, targets, origin, max, now), id),
        after.entries.dom() == recorded(t, id, targets, origin, max, now).entries.dom(),
        after.entries[id].use_count == 2,
{
    let mid = recorded(t, id, targets, origin, max, now);
    lemma_recorded_same(t, id, targets, origin, max, now);
    assert(mid.entries[id] == new_row(
        now,
        origin,
        kind_name(inferred_kind(targets)),
        stored_size(targets),
    ));
    assert(live(mid).contains(id));
    assert forall|other: i64| #[trigger] live(mid).contains(other) implies other == id || newer(
        mid,
        id,
        other,
    ) by {
        if other != id {
            assert(t.entries.contains_key(other));
        }
    }
    assert(repeats(mid, id, targets));
    assert(live(mid).contains(id2));
    assert(is_latest(mid, id2));
    assert(after.entries.dom() =~= mid.entries.dom());
}

/// A use that is counted leaves the newest entry the newest, with its targets:
/// further repetitions are counted too.
pub proof fn counting_keeps_repeating(t: Tables, id: EntryId, targets: Seq<Target>)
    requires
        repeats(t, id, targets),
    ensures
        repeats(bumped(t, id), id, targets),
{
    let after = bumped(t, id);
    assert(live(t).contains(id));
    assert forall|other: i64| live(after).contains(other) == live(t).contains(other) by {}
    assert(live(after).contains(id));
    assert forall|other: i64| #[trigger] live(after).contains(other) implies other == id || newer(
        after,
        id,
        other,
    ) by {
        assert(live(t).contains(other));
    }
}

/// A capture that does not repeat the newest entry adds exactly one entry and
/// leaves the others as they were.
pub proof fn other_capture_adds_one(
    t: Tables,
    after: Tables,
    targets: Seq<Target>,
    origin: Option<Seq<char>>,
    max: u64,
    now: UnixMillis,
    id: EntryId,
)
    requires
        sound(t),
        captured(t, after, targets, origin, max, now, id),
        forall|last: EntryId| !repeats(t, last, targets),
    ensures
        !t.entries.contains_key(id),
        after.entries.contains_key(id),
        live(after).len() == live(t).len() + 1,
        forall|other: EntryId|
            other != id ==> after.entries.contains_key(other) == t.entries.contains_key(other)
                && #[trigger] after.entries[other] == t.entries[other],
        forall|other: EntryId, mime: Seq<char>|
            other != id ==> #[trigger] after.targets.contains_key((other, mime))
                == t.targets.contains_key((other, mime)) && after.targets[(other, mime)]
                == t.targets[(other, mime)],
{
    assert(live(t) =~= t.entries.dom());
    assert(live(after) =~= t.entries.dom().insert(id));
    assert forall|other: EntryId, mime: Seq<char>|
        other != id implies #[trigger] after.targets.contains_key((other, mime))
        == t.targets.contains_key((other, mime)) && after.targets[(other, mime)] == t.targets[(
        other,
        mime,
    )] by {
        lemma_put_all_keys(t.targets, id, kept(targets, max), (other, mime));
    }
}

// ---- pruning ----

/// A pinned entry survives pruning unchanged, with all of its targets.
pub proof fn pinned_survives_prune(
    t: Tables,
    after: Tables,
    max: i64,
    cutoff: Option<UnixMillis>,
    id: EntryId,
)
    requires
        sound(t),
        pruned(t, after, max, cutoff),
        t.entries.contains_key(id),
        t.entries[id].pinned != 0,
    ensures
        after.entries.contains_key(id),
        after.entries[id] == t.entries[id],
        forall|mime: Seq<char>| #[trigger]
            after.targets.contains_key((id, mime)) == t.targets.contains_key((id, mime)),
        forall|mime: Seq<char>| #[trigger]
            t.targets.contains_key((id, mime)) ==> after.targets[(id, mime)] == t.targets[(
                id,
                mime,
            )],
{
    let rest = expired(t, cutoff);
    let ids = choose|ids: Seq<EntryId>| #[trigger]
        surplus(rest, max, ids) && after == without_all(rest, ids);
    lemma_surplus(rest, max, ids);
    assert(rest.entries.contains_key(id));
    assert(!ids.contains(id));
}

/// After pruning at most `max` entries remain, or every entry that remains is
/// pinned.
pub proof fn prune_bounds_history(
    t: Tables,
    after: Tables,
    max: i64,
    cutoff: Option<UnixMillis>,
)
    requires
        sound(t),
        pruned(t, after, max, cutoff),
    ensures
        live(after).len() <= max || forall|id: EntryId| #[trigger]
            after.entries.contains_key(id) ==> after.entries[id].pinned != 0,
{
    prune_keeps_sound(t, after, max, cutoff);
    lemma_expired(t, cutoff);
    let rest = expired(t, cutoff);
    let ids = choose|ids: Seq<EntryId>| #[trigger]
        surplus(rest, max, ids) && after == without_all(rest, ids);
    lemma_surplus(rest, max, ids);
    assert forall|id: EntryId| #[trigger] ids.contains(id) implies rest.entries.contains_key(
        id,
    ) by {
        assert(live(rest).contains(id));
    }
    lemma_without_len(rest, ids);
    assert(live(after) =~= after.entries.dom());
    assert(live(rest) =~= rest.entries.dom());
    let all = choose|all: Seq<EntryId>| #[trigger]
        oldest_first(rest, all) && ids == page(all, 0, excess(rest, max));
    if excess(rest, max) > all.len() {
        assert(ids =~= all);
        assert forall|id: EntryId| #[trigger] after.entries.contains_key(id) implies
            after.entries[id].pinned != 0 by {
            assert(rest.entries.contains_key(id));
            assert(live(rest).contains(id));
            if rest.entries[id].pinned == 0 {
                assert(all.contains(id));
            }
        }
    }
}

/// Pruning by number takes the oldest entries: every unpinned entry that
/// survives is newer than every entry that was deleted to meet the limit.
pub proof fn prune_keeps_newest(t: Tables, max: i64, ids: Seq<EntryId>, old: EntryId, new: EntryId)
    requires
        surplus(t, max, ids),
        ids.contains(old),
        live(t).contains(new),
        t.entries[new].pinned == 0,
        !ids.contains(new),
    ensures
        newer(t, new, old),
{
    let all = choose|all: Seq<EntryId>| #[trigger]
        oldest_first(t, all) && ids == page(all, 0, excess(t, max));
    assert(all.contains(new));
    let i = ids.index_of(old);
    let j = all.index_of(new);
    assert(all[i] == old);
    if j < ids.len() {
        assert(ids[j] == new);
    }
    assert(newer(t, all[j], all[i]));
}

/// Entries within the retention time survive the age limit.
pub proof fn prune_spares_recent(t: Tables, cutoff: UnixMillis, id: EntryId)
    requires
        t.entries.contains_key(id),
    ensures
        expired(t, Some(cutoff)).entries.contains_key(id) <==> t.entries[id].pinned != 0
            || t.entries[id].ts >= cutoff,
{
}

/// Where the arithmetic does not overflow, the cutoff lies the given number of
/// days before now.
pub proof fn cutoff_is_days_ago(now: UnixMillis, days: i64)
    requires
        i64::MIN <= days * 86_400_000 <= i64::MAX,
        i64::MIN <= now - days * 86_400_000 <= i64::MAX,
    ensures
        cutoff_of(now, days) == now - days * 86_400_000,
{
}

/// Pruning again with the same limits deletes nothing more.
pub proof fn prune_is_idempotent(
    t: Tables,
    after: Tables,
    max: i64,
    cutoff: Option<UnixMillis>,
    again: Tables,
)
    requires
        sound(t),
        pruned(t, after, max, cutoff),
        pruned(after, again, max, cutoff),
    ensures
        again == after,
{
    prune_keeps_sound(t, after, max, cutoff);
    prune_bounds_history(t, after, max, cutoff);
    let rest = expired(t, cutoff);
    let gone = choose|ids: Seq<EntryId>| #[trigger]
        surplus(rest, max, ids) && after == without_all(rest, ids);
    let same = expired(after, cutoff);
    assert(same.entries =~= after.entries);
    assert(same.targets =~= after.targets);
    let ids = choose|ids: Seq<EntryId>| #[trigger]
        surplus(same, max, ids) && again == without_all(same, ids);
    let all = choose|all: Seq<EntryId>| #[trigger]
        oldest_first(same, all) && ids == page(all, 0, excess(same, max));
    if !(live(after).len() <= max) && all.len() > 0 {
        assert(all.contains(all[0]));
        assert(after.entries.contains_key(all[0]));
    }
    assert(ids =~= Seq::empty());
    lemma_without_none(after);
}

// ---- searching ----

/// A new entry can be found by the text of its targets: by every pattern that
/// matches what was indexed for it.
pub proof fn capture_is_findable(
    t: Tables,
    id: EntryId,
    targets: Seq<Target>,
    origin: Option<Seq<char>>,
    max: u64,
    now: UnixMillis,
    pattern: Seq<char>,
)
    requires
        !blank(index_text(kept(targets, max))),
        fts_match(index_text(kept(targets, max)), pattern),
    ensures
        findable(recorded(t, id, targets, origin, max, now), id, pattern),
{
    let text = index_text(kept(targets, max));
    let after = recorded(t, id, targets, origin, max, now);
    assert(after.index.count((id, text)) > 0);
    let matching = |content: Seq<char>| fts_match(content, pattern);
    assert(matching(text));
}

/// A search shows entries of the history only, each by a text that was indexed
/// for it, and no more than was asked for.
pub proof fn search_shows_entries(
    t: Tables,
    query: Seq<char>,
    limit: i64,
    list: Seq<Summary>,
    i: int,
)
    requires
        answers_search(t, query, limit, list),
        0 <= i < list.len(),
    ensures
        list.len() <= clamped(limit),
        live(t).contains(list[i].id),
        !blank(pattern_of(query)) ==> findable(t, list[i].id, pattern_of(query)),
{
    if blank(pattern_of(query)) {
        page_shows_entries(t, 0, limit, None, list, i);
    } else {
        let pattern = pattern_of(query);
        let all = choose|all: Seq<EntryId>| #[trigger]
            are_hits_of(t, pattern, all) && summarizes(
                t,
                page(all, 0, clamped(limit)),
                list,
            );
        assert(list[i] == summary_of(t, page(all, 0, clamped(limit))[i]));
        assert(all.contains(all[i]));
    }
}

/// A search that shows fewer entries than were asked for shows every entry that
/// its pattern finds.
pub proof fn search_is_complete(
    t: Tables,
    query: Seq<char>,
    limit: i64,
    list: Seq<Summary>,
    id: EntryId,
)
    requires
        !blank(pattern_of(query)),
        answers_search(t, query, limit, list),
        list.len() < clamped(limit),
        live(t).contains(id),
        findable(t, id, pattern_of(query)),
    ensures
        list.contains(summary_of(t, id)),
{
    let pattern = pattern_of(query);
    let all = choose|all: Seq<EntryId>| #[trigger]
        are_hits_of(t, pattern, all) && summarizes(t, page(all, 0, clamped(limit)), list);
    assert(all.contains(id));
    let i = all.index_of(id);
    assert(page(all, 0, clamped(limit)) =~= all);
    assert(list[i] == summary_of(t, all[i]));
}

/// A search shows no entry twice.
pub proof fn search_shows_each_once(
    t: Tables,
    query: Seq<char>,
    limit: i64,
    list: Seq<Summary>,
    i: int,
    j: int,
)
    requires
        answers_search(t, query, limit, list),
        0 <= i < j < list.len(),
    ensures
        list[i].id != list[j].id,
{
    if blank(pattern_of(query)) {
        page_is_newest_first(t, 0, limit, None, list, i, j);
    } else {
        let all = choose|all: Seq<EntryId>| #[trigger]
            are_hits_of(t, pattern_of(query), all) && summarizes(
                t,
                page(all, 0, clamped(limit)),
                list,
            );
        let part = page(all, 0, clamped(limit));
        assert(list[i] == summary_of(t, part[i]));
        assert(list[j] == summary_of(t, part[j]));
        assert(part[i] == all[i] && part[j] == all[j]);
    }
}

/// Whether the entries `all` come newest first.
spec fn falls(t: Tables, all: Seq<EntryId>) -> bool {
    forall|i: int, j: int|
        0 <= i < j < all.len() ==> newer(t, #[trigger] all[i], #[trigger] all[j])
}

proof fn lemma_same_order(
    t: Tables,
    a: Seq<EntryId>,
    b: Seq<EntryId>,
)
    requires
        falls(t, a),
        falls(t, b),
        forall|id: EntryId| #[trigger] a.contains(id) <==> b.contains(id),
    ensures
        a == b,
    decreases a.len(),
{
    if a.len() == 0 {
        if b.len() > 0 {
            assert(b.contains(b[0]));
            assert(a.contains(b[0]));
        }
        assert(a =~= b);
    } else {
        assert(a.contains(a[0]));
        let j = b.index_of(a[0]);
        assert(b.contains(b[0]));
        assert(a.contains(b[0]));
        let i = a.index_of(b[0]);
        assert(a[i] == b[0] && b[j] == a[0]);
        if j > 0 {
            assert(newer(t, b[0], b[j]));
            if i > 0 {
                assert(newer(t, a[0], a[i]));
            }
        }
        assert(a[0] == b[0]);
        let c = a.drop_first();
        let d = b.drop_first();
        assert forall|id: EntryId| #[trigger] c.contains(id) <==> d.contains(
            id,
        ) by {
            if c.contains(id) {
                let k = c.index_of(id);
                assert(a[k + 1] == id);
                assert(newer(t, a[0], a[k + 1]));
                assert(a.contains(id));
                let m = b.index_of(id);
                assert(m > 0);
                assert(d[m - 1] == id);
            }
            if d.contains(id) {
                let k = d.index_of(id);
                assert(b[k + 1] == id);
                assert(newer(t, b[0], b[k + 1]));
                assert(b.contains(id));
                assert(a.contains(id));
                let m = a.index_of(id);
                assert(m > 0);
                assert(c[m - 1] == id);
            }
        }
        assert forall|x: int, y: int| 0 <= x < y < c.len() implies newer(
            t,
            #[trigger] c[x],
            #[trigger] c[y],
        ) by {
            assert(newer(t, a[x + 1], a[y + 1]));
        }
        assert forall|x: int, y: int| 0 <= x < y < d.len() implies newer(
            t,
            #[trigger] d[x],
            #[trigger] d[y],
        ) by {
            assert(newer(t, b[x + 1], b[y + 1]));
        }
        lemma_same_order(t, c, d);
        assert(a =~= seq![a[0]] + c);
        assert(b =~= seq![b[0]] + d);
    }
}

/// There is one page of the history at each place.
pub proof fn page_is_unique(
    t: Tables,
    offset: i64,
    limit: i64,
    group: Option<i64>,
    a: Seq<Summary>,
    b: Seq<Summary>,
)
    requires
        is_page(t, offset, limit, group, a),
        is_page(t, offset, limit, group, b),
    ensures
        a == b,
{
    let x = choose|x: Seq<EntryId>| #[trigger]
        is_listing(t, group, x) && summarizes(
            t,
            page(x, from_offset(offset), clamped(limit)),
            a,
        );
    let y = choose|y: Seq<EntryId>| #[trigger]
        is_listing(t, group, y) && summarizes(
            t,
            page(y, from_offset(offset), clamped(limit)),
            b,
        );
    assert forall|id: EntryId| #[trigger] x.contains(id) <==> y.contains(
        id,
    ) by {}
    lemma_same_order(t, x, y);
    assert(a =~= b);
}

/// A search without anything to search for shows the first page of the history.
pub proof fn blank_search_is_first_page(
    t: Tables,
    query: Seq<char>,
    limit: i64,
    found: Seq<Summary>,
    first: Seq<Summary>,
)
    requires
        !has_token_char(query),
        answers_search(t, query, limit, found),
        is_page(t, 0, limit, None, first),
    ensures
        found == first,
{
    pattern_is_empty_without_tokens(query);
    page_is_unique(t, 0, limit, None, found, first);
}

// ---- listing ----

/// A new capture comes first in the list. This needs that the clock has not
/// gone back, and that the ids have not run out.
pub proof fn new_capture_is_listed_first(
    t: Tables,
    id: EntryId,
    targets: Seq<Target>,
    origin: Option<Seq<char>>,
    max: u64,
    now: UnixMillis,
    limit: i64,
    list: Seq<Summary>,
)
    requires
        sound(t),
        fresh_id(t, id),
        forall|k: EntryId| #[trigger] t.entries.contains_key(k) ==> t.entries[k].ts <= now,
        !t.entries.contains_key(i64::MAX),
        is_page(recorded(t, id, targets, origin, max, now), 0, limit, None, list),
    ensures
        list.len() > 0,
        list[0].id == id,
        list[0].ts == now,
{
    let after = recorded(t, id, targets, origin, max, now);
    let all = choose|all: Seq<EntryId>| #[trigger]
        is_listing(after, None, all) && summarizes(after, page(all, 0, clamped(limit)), list);
    assert(live(after).contains(id));
    assert(all.contains(id));
    let k = all.index_of(id);
    assert(list[0] == summary_of(after, page(all, 0, clamped(limit))[0]));
    assert(page(all, 0, clamped(limit))[0] == all[0]);
    if all[0] != id {
        assert(all.contains(all[0]));
        assert(t.entries.contains_key(all[0]));
        assert(newer(after, all[0], all[k]));
    }
}

/// A page lists each entry once, the newest first, and holds no more than was asked
/// for.
pub proof fn page_is_newest_first(
    t: Tables,
    offset: i64,
    limit: i64,
    group: Option<i64>,
    list: Seq<Summary>,
    i: int,
    j: int,
)
    requires
        is_page(t, offset, limit, group, list),
        0 <= i < j < list.len(),
    ensures
        list.len() <= clamped(limit),
        list[i].ts >= list[j].ts,
        list[i].ts == list[j].ts ==> list[i].id > list[j].id,
        list[i].id != list[j].id,
{
    let all = choose|all: Seq<EntryId>| #[trigger]
        is_listing(t, group, all) && summarizes(
            t,
            page(all, from_offset(offset), clamped(limit)),
            list,
        );
    let part = page(all, from_offset(offset), clamped(limit));
    let from = if from_offset(offset) <= all.len() {
        from_offset(offset)
    } else {
        all.len() as int
    };
    assert(part[i] == all[from + i]);
    assert(part[j] == all[from + j]);
    assert(list[i] == summary_of(t, part[i]));
    assert(list[j] == summary_of(t, part[j]));
}

/// A page shows entries of the history only, and in a group only those of the
/// group.
pub proof fn page_shows_entries(
    t: Tables,
    offset: i64,
    limit: i64,
    group: Option<i64>,
    list: Seq<Summary>,
    i: int,
)
    requires
        is_page(t, offset, limit, group, list),
        0 <= i < list.len(),
    ensures
        live(t).contains(list[i].id),
        list[i].ts == t.entries[list[i].id].ts,
        list[i].pinned == (t.entries[list[i].id].pinned != 0),
        group is Some ==> list[i].group == group,
{
    let all = choose|all: Seq<EntryId>| #[trigger]
        is_listing(t, group, all) && summarizes(
            t,
            page(all, from_offset(offset), clamped(limit)),
            list,
        );
    let part = page(all, from_offset(offset), clamped(limit));
    let from = if from_offset(offset) <= all.len() {
        from_offset(offset)
    } else {
        all.len() as int
    };
    assert(part[i] == all[from + i]);
    assert(all.contains(part[i]));
    assert(list[i] == summary_of(t, part[i]));
}

/// The first page shows every entry, as long as the page has room.
pub proof fn first_page_is_complete(t: Tables, limit: i64, list: Seq<Summary>, id: EntryId)
    requires
        is_page(t, 0, limit, None, list),
        list.len() < clamped(limit),
        live(t).contains(id),
    ensures
        exists|i: int| 0 <= i < list.len() && (#[trigger] list[i]).id == id,
{
    let all = choose|all: Seq<EntryId>| #[trigger]
        is_listing(t, None, all) && summarizes(t, page(all, 0, clamped(limit)), list);
    assert(page(all, 0, clamped(limit)) =~= all);
    assert(all.contains(id));
    let i = all.index_of(id);
    assert(list[i] == summary_of(t, all[i]));
}

/// The first page has as many rows as there are entries, up to the number that was
/// asked for.
pub proof fn first_page_counts_entries(t: Tables, limit: i64, list: Seq<Summary>)
    requires
        is_page(t, 0, limit, None, list),
    ensures
        list.len() == if live(t).len() <= clamped(limit) {
            live(t).len() as int
        } else {
            clamped(limit)
        },
{
    let all = choose|all: Seq<EntryId>| #[trigger]
        is_listing(t, None, all) && summarizes(t, page(all, 0, clamped(limit)), list);
    all.unique_seq_to_set();
    assert forall|id: EntryId| #[trigger] all.to_set().contains(id) <==> live(t).contains(id) by {
        assert(all.contains(id) <==> live(t).contains(id));
    }
    assert(all.to_set() =~= live(t));
}

// ---- deleting, pinning, grouping ----

/// Deleting removes the named entries with their targets and their indexed
/// text, and leaves every other entry as it was.
pub proof fn delete_is_exact(t: Tables, ids: Seq<EntryId>, id: EntryId, mime: Seq<char>)
    ensures
        without_all(t, ids).entries.contains_key(id) <==> t.entries.contains_key(id)
            && !ids.contains(id),
        without_all(t, ids).targets.contains_key((id, mime)) <==> t.targets.contains_key((id, mime))
            && !ids.contains(id),
        !ids.contains(id) && t.entries.contains_key(id) ==> without_all(t, ids).entries[id]
            == t.entries[id],
        !ids.contains(id) && t.targets.contains_key((id, mime)) ==> without_all(t, ids).targets[(
            id,
            mime,
        )] == t.targets[(id, mime)],
        ids.contains(id) ==> forall|content: Seq<char>| #[trigger]
            without_all(t, ids).index.count((id, content)) == 0,
{
}

/// After clearing, the history is empty: nothing is listed and nothing is found.
pub proof fn clear_empties(t: Tables, limit: i64, list: Seq<Summary>, id: EntryId, pattern: Seq<char>)
    ensures
        live(cleared(t)).len() == 0,
        is_page(cleared(t), 0, limit, None, list) ==> list.len() == 0,
        !findable(cleared(t), id, pattern),
{
    assert(live(cleared(t)) =~= Set::empty());
    if is_page(cleared(t), 0, limit, None, list) && list.len() > 0 {
        page_shows_entries(cleared(t), 0, limit, None, list, 0);
    }
}

/// Setting the pin of an entry changes the pin of that entry and nothing else.
pub proof fn pin_is_exact(t: Tables, id: EntryId, pinned: bool, other: EntryId)
    requires
        live(t).contains(id),
    ensures
        (with_pin(t, id, flag(pinned)).entries[id].pinned != 0) == pinned,
        with_pin(t, id, flag(pinned)).entries[id] == (EntryRow {
            pinned: flag(pinned),
            ..t.entries[id]
        }),
        other != id ==> with_pin(t, id, flag(pinned)).entries[other] == t.entries[other],
        with_pin(t, id, flag(pinned)).entries.dom() == t.entries.dom(),
        with_pin(t, id, flag(pinned)).targets == t.targets,
        with_pin(t, id, flag(pinned)).index == t.index,
{
    assert(with_pin(t, id, flag(pinned)).entries.dom() =~= t.entries.dom());
}

/// Setting the group of an entry changes the group of that entry and nothing
/// else.
pub proof fn group_is_exact(t: Tables, id: EntryId, group: Option<i64>, other: EntryId)
    requires
        live(t).contains(id),
    ensures
        with_group(t, id, group).entries[id] == (EntryRow { group_id: group, ..t.entries[id] }),
        other != id ==> with_group(t, id, group).entries[other] == t.entries[other],
        with_group(t, id, group).entries.dom() == t.entries.dom(),
        with_group(t, id, group).targets == t.targets,
        with_group(t, id, group).index == t.index,
{
    assert(with_group(t, id, group).entries.dom() =~= t.entries.dom());
}

} // verus!
