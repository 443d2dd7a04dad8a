//! What the operations of the history store do and answer, as functions and
//! relations on the rows of the tables.

use vstd::prelude::*;
use vstd::multiset::Multiset;
use vstd::set_lib::*;
use vstd::utf8::*;

use crate::content::{pattern_of, preview_of, stripped, text_or_empty};
use crate::errors::StoreError;
use crate::sql::{
    are_hits, bumped, fresh_id, fts_match, indexed, is_latest, is_listing, keep_entries, live,
    new_row, newer, oldest_first, page, preview_mime, same_place, sound, unexpired, with_group,
    Database, Tables,
};
use crate::text::{blank, same_folded};
use crate::types::{
    inferred_kind, kind_name, named_kind, plain_mime, total_bytes, EntryId, EntrySummary, FullEntry,
    Summary, Target, UnixMillis,
};

verus! {

// ---- adding a capture ----

/// The targets that are no larger than `max` bytes.
pub open spec fn kept(targets: Seq<Target>, max: u64) -> Seq<Target> {
    targets.filter(|t: Target| t.bytes.len() <= max)
}

/// How the targets that are kept grow, one target after the other.
pub proof fn lemma_kept_step(all: Seq<Target>, max: u64, i: int)
    requires
        0 <= i <= all.len(),
    ensures
        kept(all.take(0), max).len() == 0,
        i < all.len() ==> {
            let before = kept(all.take(i), max);
            let after = kept(all.take(i + 1), max);
            if all[i].bytes.len() <= max {
                after.len() > 0 && after.drop_last() == before && after.last() == all[i]
            } else {
                after == before
            }
        },
{
    reveal(Seq::filter);
    assert(all.take(0).len() == 0);
    if i < all.len() {
        let now = all.take(i + 1);
        assert(now.drop_last() == all.take(i));
        assert(now.last() == all[i]);
        let before = kept(all.take(i), max);
        if all[i].bytes.len() <= max {
            assert(kept(now, max) == before.push(all[i]));
            assert(before.push(all[i]).drop_last() =~= before);
        }
    }
}

/// The stored targets after `list` was stored for the entry `id`, one target
/// after the other.
pub open spec fn put_all(
    stored: Map<(i64, Seq<char>), Seq<u8>>,
    id: EntryId,
    list: Seq<Target>,
) -> Map<(i64, Seq<char>), Seq<u8>>
    decreases list.len(),
{
    if list.len() == 0 {
        stored
    } else {
        put_all(stored, id, list.drop_last()).insert((id, list.last().mime), list.last().bytes)
    }
}

/// What a target adds to the indexed text: plain text as it is, HTML without
/// its tags, other targets nothing.
pub open spec fn index_line(t: Target) -> Seq<char> {
    if plain_mime(t.mime) {
        text_or_empty(t.bytes).push('\n')
    } else if same_folded(t.mime, "text/html"@) {
        stripped(text_or_empty(t.bytes)).push('\n')
    } else {
        Seq::empty()
    }
}

/// The text that is indexed for an entry with the targets `list`.
pub open spec fn index_text(list: Seq<Target>) -> Seq<char>
    decreases list.len(),
{
    if list.len() == 0 {
        Seq::empty()
    } else {
        index_text(list.drop_last()) + index_line(list.last())
    }
}

/// The size that is stored for an entry with these targets: their bytes
/// together, in wrapping arithmetic.
pub open spec fn stored_size(targets: Seq<Target>) -> i64
    decreases targets.len(),
{
    if targets.len() == 0 {
        0
    } else {
        stored_size(targets.drop_last()).wrapping_add(targets.last().bytes.len() as i64)
    }
}

/// The stored size is the number of bytes, where an `i64` can hold it.
pub proof fn stored_size_is_total(targets: Seq<Target>)
    requires
        total_bytes(targets) <= i64::MAX,
    ensures
        stored_size(targets) == total_bytes(targets),
    decreases targets.len(),
{
    if targets.len() > 0 {
        stored_size_is_total(targets.drop_last());
    }
}

/// The tables with a new entry `id` for `targets`.
pub open spec fn recorded(
    t: Tables,
    id: EntryId,
    targets: Seq<Target>,
    origin: Option<Seq<char>>,
    max: u64,
    now: UnixMillis,
) -> Tables {
    let text = index_text(kept(targets, max));
    Tables {
        entries: t.entries.insert(
            id,
            new_row(now, origin, kind_name(inferred_kind(targets)), stored_size(targets)),
        ),
        targets: put_all(t.targets, id, kept(targets, max)),
        index: if blank(text) {
            t.index
        } else {
            t.index.insert((id, text))
        },
        ..t
    }
}

/// Whether no two of `targets` have the same mime.
pub open spec fn distinct_mimes(targets: Seq<Target>) -> bool {
    forall|i: int, j: int|
        0 <= i < j < targets.len() ==> (#[trigger] targets[i]).mime != (#[trigger] targets[j]).mime
}

/// Whether some of `targets` has the type `mime`.
pub open spec fn has_mime(targets: Seq<Target>, mime: Seq<char>) -> bool {
    exists|i: int| 0 <= i < targets.len() && (#[trigger] targets[i]).mime == mime
}

/// Whether the entry `id` holds exactly `targets`.
pub open spec fn same_targets(t: Tables, id: EntryId, targets: Seq<Target>) -> bool {
    &&& distinct_mimes(targets)
    &&& forall|i: int|
        0 <= i < targets.len() ==> t.targets.contains_key((id, (#[trigger] targets[i]).mime))
            && t.targets[(id, targets[i].mime)] == targets[i].bytes
    &&& forall|mime: Seq<char>| #[trigger]
        t.targets.contains_key((id, mime)) ==> has_mime(targets, mime)
}

/// Whether capturing `targets` repeats the newest entry, which is `id`.
pub open spec fn repeats(t: Tables, id: EntryId, targets: Seq<Target>) -> bool {
    is_latest(t, id) && same_targets(t, id, targets)
}

/// What capturing `targets` does: a repetition of the newest entry counts as
/// one more use of it, and anything else becomes a new entry.
pub open spec fn captured(
    t: Tables,
    after: Tables,
    targets: Seq<Target>,
    origin: Option<Seq<char>>,
    max: u64,
    now: UnixMillis,
    id: EntryId,
) -> bool {
    if exists|last: EntryId| repeats(t, last, targets) {
        repeats(t, id, targets) && after == bumped(t, id)
    } else {
        fresh_id(t, id) && after == recorded(t, id, targets, origin, max, now)
    }
}

/// Whether the use of the entry `id` can be counted once more.
pub open spec fn countable(t: Tables, id: EntryId) -> bool {
    t.entries.contains_key(id) ==> t.entries[id].use_count < i64::MAX
}

/// Whether the use of the newest entry can be counted once more.
pub open spec fn latest_countable(t: Tables) -> bool {
    forall|id: EntryId| #[trigger] is_latest(t, id) ==> countable(t, id)
}

// ---- reading ----

/// Whether `list` are the targets of the entry `id`, each once.
pub open spec fn targets_listed(t: Tables, id: EntryId, list: Seq<Target>) -> bool {
    &&& list.no_duplicates()
    &&& forall|x: Target| #[trigger]
        list.contains(x) <==> t.targets.contains_key((id, x.mime)) && t.targets[(id, x.mime)]
            == x.bytes
}

/// Whether `e` is the entry `id`.
pub open spec fn is_entry(t: Tables, id: EntryId, e: FullEntry) -> bool {
    let row = t.entries[id];
    &&& e.id == id
    &&& e.ts == row.ts
    &&& e.pinned == (row.pinned != 0)
    &&& e.group == row.group_id
    &&& e.origin == row.origin
    &&& e.use_count == row.use_count as u32
    &&& e.preview_kind == named_kind(row.preview_kind)
    &&& e.size_bytes == row.size_bytes as u64
    &&& targets_listed(t, id, e.targets)
}

/// The summaries as values.
pub open spec fn summaries(list: Seq<EntrySummary>) -> Seq<Summary> {
    list.map_values(|s: EntrySummary| s@)
}

/// The plain text that previews the entry `id`, if it has one that is valid
/// UTF-8.
pub open spec fn preview_text(t: Tables, id: EntryId) -> Option<Seq<char>> {
    match preview_mime(t, id) {
        Some(mime) => {
            let bytes = t.targets[(id, mime)];
            if valid_utf8(bytes) {
                preview_of(Some(decode_utf8(bytes)))
            } else {
                None
            }
        },
        None => None,
    }
}

/// The summary of the entry `id`.
pub open spec fn summary_of(t: Tables, id: EntryId) -> Summary {
    let e = t.entries[id];
    Summary {
        id,
        ts: e.ts,
        pinned: e.pinned != 0,
        group: e.group_id,
        origin: e.origin,
        use_count: e.use_count as u32,
        preview_kind: named_kind(e.preview_kind),
        size_bytes: e.size_bytes as u64,
        preview_text: preview_text(t, id),
    }
}

/// How many rows a request for `limit` rows gets at most.
pub open spec fn clamped(limit: i64) -> int {
    if limit < 1 {
        1
    } else if limit > 500 {
        500
    } else {
        limit as int
    }
}

/// The position from which a request for `offset` is served.
pub open spec fn from_offset(offset: i64) -> int {
    if offset < 0 {
        0
    } else {
        offset as int
    }
}

/// Whether `list` is the page of the history, or of one group of it, newest
/// first.
pub open spec fn is_page(
    t: Tables,
    offset: i64,
    limit: i64,
    group: Option<i64>,
    list: Seq<Summary>,
) -> bool {
    exists|all: Seq<EntryId>| #[trigger]
        is_listing(t, group, all) && summarizes(
            t,
            page(all, from_offset(offset), clamped(limit)),
            list,
        )
}

/// Whether `list` are the summaries of the entries `part`.
pub open spec fn summarizes(t: Tables, part: Seq<EntryId>, list: Seq<Summary>) -> bool {
    &&& list.len() == part.len()
    &&& forall|i: int| 0 <= i < list.len() ==> #[trigger] list[i] == summary_of(t, part[i])
}

/// Whether the full-text index has a text of the entry `id` that `pattern`
/// finds.
pub open spec fn findable(t: Tables, id: EntryId, pattern: Seq<char>) -> bool {
    indexed(t, id, |content: Seq<char>| fts_match(content, pattern))
}

/// Whether `all` are the hits of a search for `pattern`, in some order.
pub open spec fn are_hits_of(t: Tables, pattern: Seq<char>, all: Seq<EntryId>) -> bool {
    are_hits(t, |content: Seq<char>| fts_match(content, pattern), all)
}

/// Whether `list` are the summaries of what `pattern` finds: of the first hits,
/// in some order of the hits, and at most as many as were asked for.
pub open spec fn is_found(t: Tables, pattern: Seq<char>, limit: i64, list: Seq<Summary>) -> bool {
    exists|all: Seq<EntryId>| #[trigger]
        are_hits_of(t, pattern, all) && summarizes(t, page(all, 0, clamped(limit)), list)
}

/// What a search answers: what the pattern finds, or the newest entries where
/// there is nothing to search for.
pub open spec fn answers_search(
    t: Tables,
    query: Seq<char>,
    limit: i64,
    list: Seq<Summary>,
) -> bool {
    if blank(pattern_of(query)) {
        is_page(t, 0, limit, None, list)
    } else {
        is_found(t, pattern_of(query), limit, list)
    }
}

// ---- changing entries ----

/// The tables without the entries `ids`, their targets and their indexed text.
pub open spec fn without_all(t: Tables, ids: Seq<EntryId>) -> Tables {
    Tables {
        entries: t.entries.restrict(t.entries.dom().filter(|id: i64| !ids.contains(id))),
        targets: t.targets.restrict(
            t.targets.dom().filter(|k: (i64, Seq<char>)| !ids.contains(k.0)),
        ),
        index: t.index.filter(|row: (i64, Seq<char>)| !ids.contains(row.0)),
        ..t
    }
}

/// The tables without any entry.
pub open spec fn cleared(t: Tables) -> Tables {
    Tables { entries: Map::empty(), targets: Map::empty(), index: Multiset::empty(), ..t }
}

/// A flag as SQLite keeps it.
pub open spec fn flag(b: bool) -> i64 {
    if b {
        1
    } else {
        0
    }
}

/// The tables without the unpinned entries from before `cutoff`, if there is a
/// cutoff.
pub open spec fn expired(t: Tables, cutoff: Option<UnixMillis>) -> Tables {
    match cutoff {
        Some(c) => keep_entries(t, unexpired(t, c)),
        None => t,
    }
}

/// How many entries there are above `max`.
pub open spec fn excess(t: Tables, max: i64) -> int {
    if live(t).len() > max {
        live(t).len() - max
    } else {
        0
    }
}

/// Whether `ids` are the oldest unpinned entries that have to go so that at
/// most `max` entries remain, as far as there are so many.
pub open spec fn surplus(t: Tables, max: i64, ids: Seq<EntryId>) -> bool {
    exists|all: Seq<EntryId>| #[trigger]
        oldest_first(t, all) && ids == page(all, 0, excess(t, max))
}

/// What pruning does: unpinned entries from before the cutoff go first, then
/// the oldest unpinned ones until at most `max` entries remain.
pub open spec fn pruned(
    t: Tables,
    after: Tables,
    max: i64,
    cutoff: Option<UnixMillis>,
) -> bool {
    exists|ids: Seq<EntryId>| #[trigger]
        surplus(expired(t, cutoff), max, ids) && after == without_all(expired(t, cutoff), ids)
}

/// The time before which entries are older than `days` days at the time `now`,
/// in wrapping arithmetic.
pub open spec fn cutoff_of(now: UnixMillis, days: i64) -> UnixMillis {
    now.wrapping_sub(days.wrapping_mul(86_400_000))
}

/// What pruning at some time does, with entries kept for `days` days, if a
/// number of days is given.
pub open spec fn pruned_now(t: Tables, after: Tables, max: i64, days: Option<i64>) -> bool {
    match days {
        Some(d) => exists|now: UnixMillis|
            pruned(t, after, max, Some(#[trigger] cutoff_of(now, d))),
        None => pruned(t, after, max, None),
    }
}

/// Removing expired entries keeps the tables sound, and adds no entry.
pub proof fn lemma_expired(t: Tables, cutoff: Option<UnixMillis>)
    requires
        sound(t),
    ensures
        sound(expired(t, cutoff)),
        expired(t, cutoff).entries.dom().len() <= t.entries.dom().len(),
        expired(t, cutoff).entries.dom().subset_of(t.entries.dom()),
{
    lemma_len_subset(expired(t, cutoff).entries.dom(), t.entries.dom());
}

proof fn lemma_oldest(t: Tables, ids: Set<EntryId>) -> (first: EntryId)
    requires
        ids.finite(),
        ids.len() > 0,
    ensures
        ids.contains(first),
        forall|other: EntryId| #[trigger] ids.contains(other) ==> other == first || newer(
            t,
            other,
            first,
        ),
    decreases ids.len(),
{
    let x = ids.choose();
    if ids.len() == 1 {
        assert(ids.remove(x).len() == 0);
        assert forall|other: EntryId| #[trigger] ids.contains(other) implies other == x by {
            if other != x {
                assert(ids.remove(x).contains(other));
            }
        }
        x
    } else {
        let y = lemma_oldest(t, ids.remove(x));
        if newer(t, y, x) {
            assert forall|other: EntryId| #[trigger] ids.contains(other) implies other == x
                || newer(t, other, x) by {
                if other != x {
                    assert(ids.remove(x).contains(other));
                }
            }
            x
        } else {
            assert forall|other: EntryId| #[trigger] ids.contains(other) implies other == y
                || newer(t, other, y) by {
                if other != x {
                    assert(ids.remove(x).contains(other));
                }
            }
            y
        }
    }
}

/// The ids in `ids` from the oldest entry to the newest.
proof fn lemma_sorted(t: Tables, ids: Set<EntryId>) -> (all: Seq<EntryId>)
    requires
        ids.finite(),
    ensures
        all.no_duplicates(),
        forall|id: EntryId| #[trigger] all.contains(id) <==> ids.contains(id),
        forall|i: int, j: int|
            0 <= i < j < all.len() ==> newer(t, #[trigger] all[j], #[trigger] all[i]),
    decreases ids.len(),
{
    if ids.len() == 0 {
        Seq::empty()
    } else {
        let first = lemma_oldest(t, ids);
        let rest = lemma_sorted(t, ids.remove(first));
        let all = seq![first] + rest;
        assert forall|i: int, j: int| 0 <= i < j < all.len() implies newer(
            t,
            #[trigger] all[j],
            #[trigger] all[i],
        ) by {
            assert(all[j] == rest[j - 1]);
            assert(rest.contains(rest[j - 1]));
            assert(ids.remove(first).contains(all[j]));
            if i > 0 {
                assert(all[i] == rest[i - 1]);
            }
        }
        assert forall|id: EntryId| #[trigger] all.contains(id) <==> ids.contains(id) by {
            if ids.contains(id) {
                if id == first {
                    assert(all[0] == id);
                } else {
                    assert(rest.contains(id));
                    assert(all[rest.index_of(id) + 1] == id);
                }
            }
            if all.contains(id) {
                let k = all.index_of(id);
                if k > 0 {
                    assert(rest[k - 1] == id);
                    assert(rest.contains(id));
                }
            }
        }
        assert forall|i: int, j: int| 0 <= i < all.len() && 0 <= j < all.len() && i
            != j implies all[i] != all[j] by {
            if i < j {
                assert(newer(t, all[j], all[i]));
            } else {
                assert(newer(t, all[i], all[j]));
            }
        }
        all
    }
}

/// The unpinned entries can be listed from the oldest to the newest.
pub proof fn lemma_oldest_first_exists(t: Tables)
    requires
        t.entries.dom().finite(),
    ensures
        exists|all: Seq<EntryId>| oldest_first(t, all),
{
    let ids = live(t).filter(|id: i64| t.entries[id].pinned == 0);
    let all = lemma_sorted(t, ids);
    assert(oldest_first(t, all));
}

/// There are no more unpinned entries than entries.
pub proof fn lemma_oldest_first_len(t: Tables, all: Seq<EntryId>)
    requires
        t.entries.dom().finite(),
        oldest_first(t, all),
    ensures
        all.len() <= t.entries.dom().len(),
{
    all.unique_seq_to_set();
    assert forall|id: EntryId| #[trigger] all.to_set().contains(id) implies t.entries.dom().contains(
        id,
    ) by {
        assert(all.contains(id));
    }
    lemma_len_subset(all.to_set(), t.entries.dom());
}

/// Entries that have to go are unpinned, and none of them is named twice.
pub proof fn lemma_surplus(t: Tables, max: i64, ids: Seq<EntryId>)
    requires
        surplus(t, max, ids),
    ensures
        ids.no_duplicates(),
        forall|id: EntryId| #[trigger]
            ids.contains(id) ==> live(t).contains(id) && t.entries[id].pinned == 0,
{
    let all = choose|all: Seq<EntryId>| #[trigger]
        oldest_first(t, all) && ids == page(all, 0, excess(t, max));
    assert forall|id: EntryId| #[trigger] ids.contains(id) implies live(t).contains(id)
        && t.entries[id].pinned == 0 by {
        let k = ids.index_of(id);
        assert(all[k] == id);
        assert(all.contains(id));
    }
}

/// Deleting entries that are there, each named once, leaves that many fewer.
pub proof fn lemma_without_len(t: Tables, ids: Seq<EntryId>)
    requires
        t.entries.dom().finite(),
        ids.no_duplicates(),
        forall|id: EntryId| #[trigger] ids.contains(id) ==> t.entries.contains_key(id),
    ensures
        without_all(t, ids).entries.dom().len() + ids.len() == t.entries.dom().len(),
{
    let rest = without_all(t, ids).entries.dom();
    ids.unique_seq_to_set();
    assert forall|id: EntryId| ids.to_set().contains(id) == #[trigger] ids.contains(id) by {}
    assert(rest.disjoint(ids.to_set()));
    assert(rest + ids.to_set() =~= t.entries.dom());
    vstd::seq_lib::seq_to_set_is_finite(ids);
    lemma_len_subset(rest, t.entries.dom());
    lemma_set_disjoint_lens(rest, ids.to_set());
}

/// Deleting no entry changes nothing.
pub proof fn lemma_without_none(t: Tables)
    ensures
        without_all(t, Seq::empty()) == t,
{
    let none = Seq::<EntryId>::empty();
    assert(without_all(t, none).entries =~= t.entries);
    assert(without_all(t, none).targets =~= t.targets);
    assert(without_all(t, none).index =~= t.index);
}

// ---- outcomes ----

/// A change that runs in a transaction of its own failed, because the database
/// reported an error: nothing of it is kept, though the transaction may still be
/// open.
pub open spec fn failed(before: Database, after: Database) -> bool {
    &&& after.faults > before.faults
    &&& same_place(before, after)
    &&& after.origin == before.origin
    &&& (after.saved is None && after.tables == before.tables) || after.saved == Some(before.tables)
}

/// The outcome of a single change: the tables are `tables` if it succeeded, and
/// as they were if the database reported an error.
pub open spec fn changed_if_ok(
    before: Database,
    after: Database,
    tables: Tables,
    ok: bool,
) -> bool {
    &&& after.ready()
    &&& same_place(before, after)
    &&& after.tables == if ok {
        tables
    } else {
        before.tables
    }
    &&& if ok {
        after.faults == before.faults
    } else {
        after.faults > before.faults
    }
}

/// The outcome of reading: a ready database is still ready, with the same rows,
/// and reading fails only if the database reports an error.
pub open spec fn unchanged(before: Database, after: Database, ok: bool) -> bool {
    &&& after.ready()
    &&& same_place(before, after)
    &&& after.tables == before.tables
    &&& if ok {
        after.faults == before.faults
    } else {
        after.faults > before.faults
    }
}

/// What a store answers while it is closed.
pub open spec fn refused<T>(after: Option<Database>, r: Result<T, StoreError>) -> bool {
    &&& r matches Err(StoreError::Locked)
    &&& after is None
}

/// The outcome of adding a capture, on a store that is open on `before`.
pub open spec fn capture_outcome(
    before: Database,
    after: Database,
    targets: Seq<Target>,
    origin: Option<Seq<char>>,
    max: u64,
    r: Result<EntryId, StoreError>,
) -> bool {
    before.ready() && latest_countable(before.tables) ==> match r {
        Ok(id) => after.ready() && same_place(before, after) && exists|now: UnixMillis| #[trigger]
            captured(before.tables, after.tables, targets, origin, max, now, id),
        Err(_) => failed(before, after),
    }
}

/// The outcome of deleting entries, on a store that is open on `before`.
pub open spec fn delete_outcome(
    before: Database,
    after: Database,
    ids: Seq<EntryId>,
    r: Result<(), StoreError>,
) -> bool {
    &&& ids.len() == 0 ==> r is Ok && after == before
    &&& before.ready() ==> match r {
        Ok(_) => after.ready() && same_place(before, after) && after.tables == without_all(
            before.tables,
            ids,
        ),
        Err(_) => failed(before, after),
    }
}

/// The outcome of clearing the history, on a store that is open on `before`.
pub open spec fn clear_outcome(
    before: Database,
    after: Database,
    r: Result<(), StoreError>,
) -> bool {
    before.ready() ==> match r {
        Ok(_) => after.ready() && same_place(before, after) && after.tables == cleared(
            before.tables,
        ),
        Err(_) => failed(before, after),
    }
}

/// The outcome of setting the group of an entry, on a store that is open on
/// `before`: a group that does not exist is refused for an entry that does.
pub open spec fn group_outcome(
    before: Database,
    after: Database,
    id: EntryId,
    group: Option<i64>,
    r: Result<(), StoreError>,
) -> bool {
    before.ready() ==> {
        &&& changed_if_ok(before, after, with_group(before.tables, id, group), r is Ok)
        &&& r is Ok && live(before.tables).contains(id) ==> (group matches Some(g)
            ==> before.tables.groups.contains(g))
    }
}

/// The outcome of pruning, on a store that is open on `before`.
pub open spec fn prune_outcome(
    before: Database,
    after: Database,
    max: i64,
    days: Option<i64>,
    r: Result<i64, StoreError>,
) -> bool {
    before.ready() && before.tables.entries.dom().len() <= i64::MAX ==> match r {
        Ok(n) => {
            &&& after.ready()
            &&& same_place(before, after)
            &&& pruned_now(before.tables, after.tables, max, days)
            &&& before.tables.entries.dom().len() <= i32::MAX ==> n
                + after.tables.entries.dom().len() == before.tables.entries.dom().len()
        },
        Err(_) => failed(before, after),
    }
}

} // verus!
