//! Laws of outcomes: what the history store promises of every operation, whether it
//! succeeds or fails.

use vstd::prelude::*;

use crate::errors::StoreError;
use crate::history::{
    capture_outcome, captured, changed_if_ok, clear_outcome, countable, delete_outcome, failed,
    flag, group_outcome, is_entry, latest_countable, prune_outcome, pruned_now, refused, unchanged,
};
use crate::schema::{migration_is_forward_only, version_of};
use crate::sql::{bumped, is_latest, live, no_rows, sound, with_group, with_pin, Database, Tables};
use crate::store::prepared;
use crate::text::decimal_round_trip;
use crate::types::{EntryId, FullEntry, Target, UnixMillis};

verus! {

broadcast use vstd::string::group_string_axioms;

// ---- when the promises hold ----

/// A database is in order if a store made its tables, no transaction is open, it has
/// finitely many entries, none of them is marked as deleted, and every target belongs to
/// an entry. That is all that is asked of it.
pub proof fn database_in_order_is_ready(d: Database)
    requires
        d.origin is Own,
        d.saved is None,
        d.tables.entries.dom().finite(),
        forall|id: i64| #[trigger]
            d.tables.entries.contains_key(id) ==> d.tables.entries[id].deleted == 0,
        forall|k: (i64, Seq<char>)| #[trigger]
            d.tables.targets.contains_key(k) ==> d.tables.entries.contains_key(k.0),
    ensures
        d.ready(),
{
}

/// Uses can be counted as long as none of the numbers has reached the highest there is.
pub proof fn uses_below_the_highest_are_countable(t: Tables, id: EntryId)
    requires
        forall|k: i64| #[trigger] t.entries.contains_key(k) ==> t.entries[k].use_count < i64::MAX,
    ensures
        countable(t, id),
        latest_countable(t),
{
    assert forall|k: EntryId| #[trigger] is_latest(t, k) implies countable(t, k) by {
        assert(live(t).contains(k));
    }
}

/// A new database is in order and empty, and records version 1. One that a store made
/// keeps all of its rows, and what else it records.
pub proof fn opened_database_is_in_order(before: Database, after: Database, key: Seq<char>)
    requires
        prepared(before, after),
    ensures
        before.origin is Blank && before.saved is None && before.tables == no_rows() ==> {
            &&& after.ready()
            &&& after.tables.entries.dom() == Set::<i64>::empty()
            &&& after.tables.targets.dom() == Set::<(i64, Seq<char>)>::empty()
            &&& after.tables.index.len() == 0
            &&& version_of(after.tables) == 1
        },
        before.ready() ==> {
            &&& after.ready()
            &&& after.tables.entries == before.tables.entries
            &&& after.tables.targets == before.tables.targets
            &&& after.tables.index == before.tables.index
            &&& after.tables.groups == before.tables.groups
            &&& version_of(after.tables) >= 1
            &&& version_of(after.tables) >= version_of(before.tables)
            &&& version_of(before.tables) >= 1 ==> after.tables.meta == before.tables.meta
            &&& key != "schema_version"@ ==> after.tables.meta.contains_key(key)
                == before.tables.meta.contains_key(key) && after.tables.meta[key]
                == before.tables.meta[key]
        },
{
    decimal_round_trip(1);
    if before.ready() {
        migration_is_forward_only(before.tables);
    }
    if before.origin is Blank && before.saved is None && before.tables == no_rows() {
        assert(after.tables.entries.dom() =~= Set::<i64>::empty());
        assert(after.tables.targets.dom() =~= Set::<(i64, Seq<char>)>::empty());
    }
}

// ---- what success and failure mean ----

/// A change that failed is as if it had not been tried: the database told of an error, and
/// its rows are what they were, at the latest when the open transaction is undone.
pub proof fn failed_change_is_undone(before: Database, after: Database)
    requires
        failed(before, after),
    ensures
        after.faults > before.faults,
        after.path == before.path && after.key == before.key,
        after.saved is None ==> after.tables == before.tables,
        after.saved matches Some(t) ==> t == before.tables,
{
}

/// A single change takes place if it succeeds, and does not if it fails; it fails only if
/// the database tells of an error.
pub proof fn change_takes_place_if_it_succeeds(
    before: Database,
    after: Database,
    tables: Tables,
    ok: bool,
)
    requires
        changed_if_ok(before, after, tables, ok),
    ensures
        after.ready(),
        after.path == before.path && after.key == before.key,
        ok ==> after.tables == tables && after.faults == before.faults,
        !ok ==> after.tables == before.tables && after.faults > before.faults,
{
}

/// Reading changes no row, and fails only if the database tells of an error.
pub proof fn reading_changes_nothing(before: Database, after: Database, ok: bool)
    requires
        unchanged(before, after, ok),
    ensures
        after.ready(),
        after.path == before.path && after.key == before.key,
        after.tables == before.tables,
        ok ==> after.faults == before.faults,
        !ok ==> after.faults > before.faults,
{
}

/// A closed store refuses every request as locked, and stays closed.
pub proof fn closed_store_refuses(after: Option<Database>, r: Result<EntryId, StoreError>)
    requires
        refused(after, r),
    ensures
        r == Err::<EntryId, StoreError>(StoreError::Locked),
        after is None,
{
}

/// A capture that a store in order takes is in its tables, under the id that it gives, and
/// one that it does not take is not.
pub proof fn taken_capture_is_in_the_tables(
    before: Database,
    after: Database,
    targets: Seq<Target>,
    origin: Option<Seq<char>>,
    max: u64,
    r: Result<EntryId, StoreError>,
)
    requires
        before.ready(),
        latest_countable(before.tables),
        capture_outcome(before, after, targets, origin, max, r),
    ensures
        r matches Ok(id) ==> after.ready() && exists|now: UnixMillis| #[trigger]
            captured(before.tables, after.tables, targets, origin, max, now, id),
        r is Err ==> after.faults > before.faults,
        r is Err && after.saved is None ==> after.tables == before.tables,
        after.path == before.path && after.key == before.key,
{
}

/// Counting a use makes the number of uses one higher, and changes nothing else. Of an
/// entry that is not there nothing is counted.
pub proof fn use_is_counted_once(t: Tables, id: EntryId, other: EntryId)
    requires
        t.entries.contains_key(id) ==> t.entries[id].use_count < i64::MAX,
    ensures
        t.entries.contains_key(id) ==> {
            let row = bumped(t, id).entries[id];
            &&& row.use_count == t.entries[id].use_count + 1
            &&& row.ts == t.entries[id].ts
            &&& row.pinned == t.entries[id].pinned
            &&& row.group_id == t.entries[id].group_id
            &&& row.origin == t.entries[id].origin
            &&& row.preview_kind == t.entries[id].preview_kind
            &&& row.deleted == t.entries[id].deleted
            &&& row.size_bytes == t.entries[id].size_bytes
        },
        bumped(t, id).entries.contains_key(other) == t.entries.contains_key(other),
        other != id ==> bumped(t, id).entries[other] == t.entries[other],
        bumped(t, id).targets == t.targets,
        bumped(t, id).index == t.index,
        bumped(t, id).groups == t.groups,
        bumped(t, id).meta == t.meta,
{
}

/// What is said of an entry that is not there changes nothing.
pub proof fn absent_entry_is_not_changed(
    t: Tables,
    id: EntryId,
    pinned: bool,
    group: Option<i64>,
)
    requires
        !t.entries.contains_key(id),
    ensures
        bumped(t, id) == t,
        with_pin(t, id, flag(pinned)) == t,
        with_group(t, id, group) == t,
{
}

/// A pin that is set is read back, and one that is taken off is not.
pub proof fn pin_is_read_back(t: Tables, id: EntryId, pinned: bool, e: FullEntry)
    requires
        sound(t),
        t.entries.contains_key(id),
        is_entry(with_pin(t, id, flag(pinned)), id, e),
    ensures
        e.pinned == pinned,
        e.ts == t.entries[id].ts,
        e.group == t.entries[id].group_id,
        e.origin == t.entries[id].origin,
        e.use_count == t.entries[id].use_count as u32,
{
}

/// A group that is set is read back.
pub proof fn group_is_read_back(t: Tables, id: EntryId, group: Option<i64>, e: FullEntry)
    requires
        sound(t),
        t.entries.contains_key(id),
        is_entry(with_group(t, id, group), id, e),
    ensures
        e.group == group,
        e.ts == t.entries[id].ts,
        e.pinned == (t.entries[id].pinned != 0),
        e.origin == t.entries[id].origin,
        e.use_count == t.entries[id].use_count as u32,
{
}

/// Setting a group succeeds for an entry only if the group exists, and takes place if it
/// succeeds.
pub proof fn group_must_exist(
    before: Database,
    after: Database,
    id: EntryId,
    group: Option<i64>,
    r: Result<(), StoreError>,
)
    requires
        before.ready(),
        group_outcome(before, after, id, group, r),
        before.tables.entries.contains_key(id),
    ensures
        r is Ok && group is Some ==> before.tables.groups.contains(group->0),
        r is Ok ==> after.tables.entries[id].group_id == group,
        r is Err ==> after.tables == before.tables && after.faults > before.faults,
{
}

/// Deleting takes the named entries, with their targets and their indexed text, and leaves
/// every other entry, target and text as it was. Deleting nothing does nothing. Where it
/// fails, nothing is deleted.
pub proof fn delete_takes_what_is_named(
    before: Database,
    after: Database,
    ids: Seq<EntryId>,
    r: Result<(), StoreError>,
    id: EntryId,
    mime: Seq<char>,
    content: Seq<char>,
)
    requires
        before.ready(),
        delete_outcome(before, after, ids, r),
    ensures
        ids.len() == 0 ==> r is Ok && after == before,
        r is Ok ==> after.ready() && after.path == before.path && after.key == before.key,
        r is Ok && ids.contains(id) ==> {
            &&& !after.tables.entries.contains_key(id)
            &&& !after.tables.targets.contains_key((id, mime))
            &&& after.tables.index.count((id, content)) == 0
        },
        r is Ok && !ids.contains(id) ==> {
            &&& after.tables.entries.contains_key(id) == before.tables.entries.contains_key(id)
            &&& before.tables.entries.contains_key(id) ==> after.tables.entries[id]
                == before.tables.entries[id]
            &&& after.tables.targets.contains_key((id, mime)) == before.tables.targets.contains_key(
                (id, mime),
            )
            &&& before.tables.targets.contains_key((id, mime)) ==> after.tables.targets[(id, mime)]
                == before.tables.targets[(id, mime)]
            &&& after.tables.index.count((id, content)) == before.tables.index.count((id, content))
        },
        r is Ok ==> after.tables.groups == before.tables.groups && after.tables.meta
            == before.tables.meta,
        r is Err ==> after.faults > before.faults,
        r is Err && after.saved is None ==> after.tables == before.tables,
{
}

/// Clearing takes every entry, pinned or not, every target and all indexed text, and keeps
/// the groups and what the database records of itself. Where it fails, nothing is cleared.
pub proof fn clear_takes_everything(
    before: Database,
    after: Database,
    r: Result<(), StoreError>,
    id: EntryId,
    mime: Seq<char>,
    content: Seq<char>,
)
    requires
        before.ready(),
        clear_outcome(before, after, r),
    ensures
        r is Ok ==> {
            &&& after.ready()
            &&& !after.tables.entries.contains_key(id)
            &&& !after.tables.targets.contains_key((id, mime))
            &&& after.tables.index.count((id, content)) == 0
            &&& after.tables.groups == before.tables.groups
            &&& after.tables.meta == before.tables.meta
            &&& after.path == before.path && after.key == before.key
        },
        r is Err ==> after.faults > before.faults,
        r is Err && after.saved is None ==> after.tables == before.tables,
{
}

/// Pruning says how many entries it deleted, and prunes by the limits that it was given.
/// Where it fails, nothing is deleted.
pub proof fn prune_says_how_many_went(
    before: Database,
    after: Database,
    max: i64,
    days: Option<i64>,
    r: Result<i64, StoreError>,
)
    requires
        before.ready(),
        before.tables.entries.dom().len() <= i32::MAX,
        prune_outcome(before, after, max, days, r),
    ensures
        r matches Ok(n) ==> {
            &&& after.ready()
            &&& n == before.tables.entries.dom().len() - after.tables.entries.dom().len()
            &&& pruned_now(before.tables, after.tables, max, days)
        },
        after.path == before.path && after.key == before.key,
        r is Err ==> after.faults > before.faults,
        r is Err && after.saved is None ==> after.tables == before.tables,
{
}

} // verus!
