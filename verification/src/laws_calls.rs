//! Laws of calls: what holds of whatever a call of the store, of the policy or of the
//! service gives back, told by what went into it and the rows of the tables.

use vstd::prelude::*;
use vstd::utf8::*;

use crate::content::{
    no_bracket, pattern_of, preview_is_the_first_160_characters, preview_text_of, sanitize_fts,
    strip_html, stripped, stripped_is_clean, typed_word_is_searched_whole,
};
use crate::dto::{all_carried, wire_values, EntryDto, StateDto, SummaryDto, TargetDto};
use crate::errors::{BackendError, StoreError};
use crate::handle::StoreHandle;
use crate::history::{answers_search, captured, is_entry, summaries};
use crate::laws::{group_is_exact, pin_is_exact, pinned_survives_prune};
use crate::laws_capture::{
    captured_text_is_indexed, new_entry_holds_its_targets, new_entry_is_described,
};
use crate::laws_listing::{
    coming_before, found_row_shows_its_entry, is_hit, is_preview_of, is_within,
    listed_row_is_at_its_place, listed_row_shows_its_entry, page_is_as_long_as_asked,
    read_entry_is_as_stored, search_shows_the_hits,
};
use crate::laws_outcome::{
    clear_takes_everything, delete_takes_what_is_named, use_is_counted_once,
    uses_below_the_highest_are_countable,
};
use crate::laws_prune::{
    in_time, is_in_time, older_in_time, prune_by_number_deletes_no_more_than_needed,
    prune_takes_exactly_the_oldest,
};
use crate::manager::{
    accepted_is_within_limit, denied_text_drops_the_capture, filter_compiled,
    handling_stores_what_is_accepted, CapturePolicy, ClipboardManager, ContentRules, Handled,
};
use crate::pattern::{finds_in, Compiled, PatternError};
use crate::schema::version_of;
use crate::service::{
    fails, picked_entry_is_offered_and_counted, queried_row_shows_its_entry,
    refused_push_changes_nothing, searched_row_shows_its_entry, wire_row_shows_its_entry,
    without_text_is_exact, ClipboardManagerService, Effect, ServiceError,
};
use crate::sql::{database, live, Database};
use crate::store::{add_capture_at, prune_at, Store};
use crate::text::{
    decimal_round_trip, same_folded, shortening_keeps_the_beginning, spaced, truncate, whitespace,
    words,
};
use crate::traits::{ClipboardProvider, HistoryStore};
use crate::types::{
    find_plain_text, kind_is_the_first_that_fits, kind_name, kind_needs_a_target, named_kind,
    optional_text, plain_text_is_of_the_first, texts, values, AppId, ClipboardEvent, Entry, EntryId,
    EntrySummary, Event, FullEntry, MimeBlob, PreviewKind, Summary, Target, UnixMillis,
};
use crate::unlock::UnlockRequest;

verus! {

broadcast use vstd::string::group_string_axioms;

// ---- calls of a history store ----

/// Text that a store takes as a new entry can be searched: the index then holds a row of
/// that entry in which the text stands whole.
pub proof fn added_text_is_indexed<S: HistoryStore>(
    s: &mut S,
    targets: Vec<MimeBlob>,
    source: AppId,
    max: u64,
    r: Result<EntryId, StoreError>,
    d: Database,
    i: int,
    k: int,
)
    requires
        call_ensures(S::add_capture, (s, targets, source, max), r),
        old(s).history() == Some(d),
        d.ready(),
        forall|x: i64| #[trigger]
            d.tables.entries.contains_key(x) ==> d.tables.entries[x].use_count < i64::MAX,
        r is Ok,
        !d.tables.entries.contains_key(r->Ok_0),
        0 <= i < targets@.len(),
        targets@[i].bytes@.len() <= max,
        same_folded(targets@[i].mime@, "text/plain"@) || same_folded(
            targets@[i].mime@,
            "text/plain;charset=utf-8"@,
        ),
        valid_utf8(targets@[i].bytes@),
        0 <= k < decode_utf8(targets@[i].bytes@).len(),
        !whitespace(decode_utf8(targets@[i].bytes@)[k]),
    ensures
        final(s).history() is Some,
        exists|a: Seq<char>, b: Seq<char>|
            (final(s).history()->0).tables.index.count(
                (r->Ok_0, #[trigger] (a + decode_utf8(targets@[i].bytes@) + b)),
            ) > 0,
{
    let now = final(s).history()->0;
    uses_below_the_highest_are_countable(d.tables, 0);
    let at = choose|at: UnixMillis| #[trigger]
        captured(d.tables, now.tables, values(targets@), source@.id, max, at, r->Ok_0);
    assert(values(targets@)[i] == targets@[i]@);
    captured_text_is_indexed(
        d.tables,
        now.tables,
        values(targets@),
        source@.id,
        max,
        at,
        r->Ok_0,
        i,
        k,
    );
}

/// What a store takes as a new entry is there under the id that it gives, with its source,
/// one use, and each target that is within the limit, byte for byte.
pub proof fn added_capture_is_stored<S: HistoryStore>(
    s: &mut S,
    targets: Vec<MimeBlob>,
    source: AppId,
    max: u64,
    r: Result<EntryId, StoreError>,
    d: Database,
    i: int,
)
    requires
        call_ensures(S::add_capture, (s, targets, source, max), r),
        old(s).history() == Some(d),
        d.ready(),
        forall|x: i64| #[trigger]
            d.tables.entries.contains_key(x) ==> d.tables.entries[x].use_count < i64::MAX,
        r is Ok,
        !d.tables.entries.contains_key(r->Ok_0),
        0 <= i < targets@.len(),
        targets@[i].bytes@.len() <= max,
        forall|j: int|
            i < j < targets@.len() ==> (#[trigger] targets@[j]).mime@ != targets@[i].mime@,
    ensures
        final(s).history() is Some,
        ({
            let t = (final(s).history()->0).tables;
            &&& t.entries.contains_key(r->Ok_0)
            &&& t.entries[r->Ok_0].use_count == 1
            &&& t.entries[r->Ok_0].pinned == 0
            &&& source.id is None ==> t.entries[r->Ok_0].origin is None
            &&& source.id matches Some(app) ==> t.entries[r->Ok_0].origin == Some(app@)
            &&& t.targets.contains_key((r->Ok_0, targets@[i].mime@))
            &&& t.targets[(r->Ok_0, targets@[i].mime@)] == targets@[i].bytes@
        }),
{
    let now = final(s).history()->0;
    let all = values(targets@);
    uses_below_the_highest_are_countable(d.tables, 0);
    let at = choose|at: UnixMillis| #[trigger]
        captured(d.tables, now.tables, all, source@.id, max, at, r->Ok_0);
    new_entry_is_described(d.tables, now.tables, all, source@.id, max, at, r->Ok_0);
    assert(all[i] == targets@[i]@);
    assert forall|j: int| i < j < all.len() && (#[trigger] all[j]).mime == all[i].mime implies
        all[j].bytes.len() > max by {
        assert(all[j] == targets@[j]@);
        assert(targets@[j].mime@ != targets@[i].mime@);
    }
    new_entry_holds_its_targets(d.tables, now.tables, all, source@.id, max, at, r->Ok_0, i);
}

/// A capture that is added at a time has that time, whatever the clock says.
pub proof fn capture_has_its_time(
    conn: &mut rusqlite::Connection,
    targets: Vec<MimeBlob>,
    source: AppId,
    max: u64,
    now: UnixMillis,
    r: Result<EntryId, StoreError>,
)
    requires
        call_ensures(add_capture_at, (conn, targets, source, max, now), r),
        database(*old(conn)).ready(),
        forall|x: i64| #[trigger]
            database(*old(conn)).tables.entries.contains_key(x) ==> database(
                *old(conn),
            ).tables.entries[x].use_count < i64::MAX,
        r is Ok,
        !database(*old(conn)).tables.entries.contains_key(r->Ok_0),
    ensures
        database(*final(conn)).tables.entries.contains_key(r->Ok_0),
        database(*final(conn)).tables.entries[r->Ok_0].ts == now,
{
    let d = database(*old(conn));
    uses_below_the_highest_are_countable(d.tables, 0);
    new_entry_is_described(
        d.tables,
        database(*final(conn)).tables,
        values(targets@),
        source@.id,
        max,
        now,
        r->Ok_0,
    );
}

/// Each row that a store lists shows its entry as it stands in the tables, and stands where
/// its entry does: behind the offset and the rows above it.
pub proof fn listed_rows_are_as_stored<S: HistoryStore>(
    s: &mut S,
    offset: i64,
    limit: i64,
    group: Option<i64>,
    r: Result<Vec<EntrySummary>, StoreError>,
    d: Database,
    i: int,
)
    requires
        call_ensures(S::query, (s, offset, limit, group), r),
        old(s).history() == Some(d),
        d.ready(),
        r is Ok,
        0 <= i < (r->Ok_0)@.len(),
        offset >= 0,
    ensures
        ({
            let row = (r->Ok_0)@[i];
            &&& d.tables.entries.contains_key(row.id)
            &&& row.ts == d.tables.entries[row.id].ts
            &&& row.pinned == (d.tables.entries[row.id].pinned != 0)
            &&& row.group == d.tables.entries[row.id].group_id
            &&& row.use_count == d.tables.entries[row.id].use_count as u32
            &&& row.preview_kind == named_kind(d.tables.entries[row.id].preview_kind)
            &&& row.size_bytes == d.tables.entries[row.id].size_bytes as u64
            &&& optional_text(row.origin) == d.tables.entries[row.id].origin
            &&& group is Some ==> row.group == group
            &&& coming_before(d.tables, group, row.id).len() == offset + i
        }),
        final(s).history() is Some,
        (final(s).history()->0).tables == d.tables,
{
    let list = summaries((r->Ok_0)@);
    assert(list[i] == (r->Ok_0)@[i]@);
    listed_row_shows_its_entry(d.tables, offset, limit, group, list, i);
    listed_row_is_at_its_place(d.tables, offset, limit, group, list, i);
}

/// A store lists as many rows as were asked for, up to 500, as far as there are so many
/// entries behind the offset.
pub proof fn listed_rows_are_as_many_as_asked<S: HistoryStore>(
    s: &mut S,
    offset: i64,
    limit: i64,
    group: Option<i64>,
    r: Result<Vec<EntrySummary>, StoreError>,
    d: Database,
)
    requires
        call_ensures(S::query, (s, offset, limit, group), r),
        old(s).history() == Some(d),
        d.ready(),
        r is Ok,
        offset >= 0,
        1 <= limit <= 500,
    ensures
        ({
            let n = Set::new(|k: i64| is_within(d.tables, group, k)).len();
            (r->Ok_0)@.len() == if n <= offset {
                0
            } else if n - offset <= limit {
                n - offset
            } else {
                limit as int
            }
        }),
{
    page_is_as_long_as_asked(d.tables, offset, limit, group, summaries((r->Ok_0)@));
}

/// Each row that a search for a letter or a digit answers is a hit, and shows its entry as
/// it stands in the tables; and fewer rows than were asked for are all the hits.
pub proof fn found_rows_are_as_stored<S: HistoryStore>(
    s: &mut S,
    query: &str,
    limit: i64,
    r: Result<Vec<EntrySummary>, StoreError>,
    d: Database,
    k: int,
    i: int,
    id: EntryId,
)
    requires
        call_ensures(S::search, (s, query, limit), r),
        old(s).history() == Some(d),
        d.ready(),
        r is Ok,
        1 <= limit <= 500,
        0 <= k < query@.len(),
        ('0' <= query@[k] && query@[k] <= '9') || ('A' <= query@[k] && query@[k] <= 'Z') || ('a'
            <= query@[k] && query@[k] <= 'z'),
    ensures
        (r->Ok_0)@.len() <= limit,
        0 <= i < (r->Ok_0)@.len() ==> {
            let row = (r->Ok_0)@[i];
            &&& is_hit(d.tables, row.id, pattern_of(query@))
            &&& row.ts == d.tables.entries[row.id].ts
            &&& row.pinned == (d.tables.entries[row.id].pinned != 0)
            &&& row.group == d.tables.entries[row.id].group_id
            &&& row.use_count == d.tables.entries[row.id].use_count as u32
            &&& row.preview_kind == named_kind(d.tables.entries[row.id].preview_kind)
            &&& row.size_bytes == d.tables.entries[row.id].size_bytes as u64
            &&& optional_text(row.origin) == d.tables.entries[row.id].origin
        },
        (r->Ok_0)@.len() < limit && is_hit(d.tables, id, pattern_of(query@)) ==> exists|j: int|
            0 <= j < (r->Ok_0)@.len() && (#[trigger] (r->Ok_0)@[j]).id == id,
{
    let list = summaries((r->Ok_0)@);
    search_shows_the_hits(d.tables, query@, limit, list, k);
    if 0 <= i < list.len() {
        assert(list[i] == (r->Ok_0)@[i]@);
        found_row_shows_its_entry(d.tables, query@, limit, list, i);
    }
    if list.len() < limit && is_hit(d.tables, id, pattern_of(query@)) {
        let j = choose|j: int| 0 <= j < list.len() && (#[trigger] list[j]).id == id;
        assert(list[j] == (r->Ok_0)@[j]@);
    }
}

/// An entry that is there is read, as it stands in the tables and with its targets, and one
/// that is not there is not.
pub proof fn read_entries_are_as_stored<S: HistoryStore>(
    s: &mut S,
    id: EntryId,
    r: Result<Option<Entry>, StoreError>,
    d: Database,
    mime: Seq<char>,
)
    requires
        call_ensures(S::get_entry, (s, id), r),
        old(s).history() == Some(d),
        d.ready(),
    ensures
        r matches Ok(found) ==> (found is Some <==> d.tables.entries.contains_key(id)),
        r matches Ok(Some(e)) ==> {
            &&& e.id == id
            &&& e.ts == d.tables.entries[id].ts
            &&& e.pinned == (d.tables.entries[id].pinned != 0)
            &&& e.group == d.tables.entries[id].group_id
            &&& e.use_count == d.tables.entries[id].use_count as u32
            &&& e.preview_kind == named_kind(d.tables.entries[id].preview_kind)
            &&& e.size_bytes == d.tables.entries[id].size_bytes as u64
            &&& optional_text(e.origin) == d.tables.entries[id].origin
            &&& d.tables.targets.contains_key((id, mime)) ==> values(e.targets@).contains(
                Target { mime, bytes: d.tables.targets[(id, mime)] },
            )
            &&& forall|i: int|
                0 <= i < e.targets@.len() ==> d.tables.targets.contains_key(
                    (id, (#[trigger] e.targets@[i]).mime@),
                ) && d.tables.targets[(id, e.targets@[i].mime@)] == e.targets@[i].bytes@
        },
        r is Err ==> final(s).history() is Some && (final(s).history()->0).faults > d.faults,
{
    if let Ok(Some(e)) = r {
        read_entry_is_as_stored(d.tables, id, e@, mime);
        assert forall|i: int| 0 <= i < e.targets@.len() implies d.tables.targets.contains_key(
            (id, (#[trigger] e.targets@[i]).mime@),
        ) && d.tables.targets[(id, e.targets@[i].mime@)] == e.targets@[i].bytes@ by {
            assert(e@.targets[i] == e.targets@[i]@);
        }
    }
}

/// Entries that are deleted are gone, with their targets and their indexed text, and every
/// other entry stays as it was, with its own.
pub proof fn deleted_entries_are_gone<S: HistoryStore>(
    s: &mut S,
    ids: &[EntryId],
    r: Result<(), StoreError>,
    d: Database,
    id: EntryId,
    mime: Seq<char>,
    content: Seq<char>,
)
    requires
        call_ensures(S::delete, (s, ids), r),
        old(s).history() == Some(d),
        d.ready(),
        r is Ok,
    ensures
        final(s).history() is Some,
        ({
            let t = (final(s).history()->0).tables;
            if ids@.contains(id) {
                &&& !t.entries.contains_key(id)
                &&& !t.targets.contains_key((id, mime))
                &&& t.index.count((id, content)) == 0
            } else {
                &&& t.entries.contains_key(id) == d.tables.entries.contains_key(id)
                &&& d.tables.entries.contains_key(id) ==> t.entries[id] == d.tables.entries[id]
                &&& t.targets.contains_key((id, mime)) == d.tables.targets.contains_key((id, mime))
                &&& d.tables.targets.contains_key((id, mime)) ==> t.targets[(id, mime)]
                    == d.tables.targets[(id, mime)]
                &&& t.index.count((id, content)) == d.tables.index.count((id, content))
            }
        }),
{
    delete_takes_what_is_named(d, final(s).history()->0, ids@, r, id, mime, content);
}

/// A pin, a group and a use change what they are about, in the entry that is named, and
/// nothing else.
pub proof fn changed_entries_are_changed_alone<S: HistoryStore>(
    pinning: &mut S,
    grouping: &mut S,
    using: &mut S,
    id: EntryId,
    pinned: bool,
    group: Option<i64>,
    r: Result<(), StoreError>,
    d: Database,
    other: EntryId,
)
    requires
        call_ensures(S::set_pinned, (pinning, id, pinned), r),
        call_ensures(S::set_group, (grouping, id, group), r),
        call_ensures(S::bump_use_count, (using, id), r),
        old(pinning).history() == Some(d),
        old(grouping).history() == Some(d),
        old(using).history() == Some(d),
        d.ready(),
        d.tables.entries.contains_key(id),
        d.tables.entries[id].use_count < i64::MAX,
        r is Ok,
    ensures
        final(pinning).history() is Some,
        final(grouping).history() is Some,
        final(using).history() is Some,
        ({
            let was = d.tables.entries[id];
            let a = (final(pinning).history()->0).tables;
            let b = (final(grouping).history()->0).tables;
            let c = (final(using).history()->0).tables;
            &&& (a.entries[id].pinned != 0) == pinned
            &&& a.entries[id].ts == was.ts && a.entries[id].group_id == was.group_id
                && a.entries[id].use_count == was.use_count && a.entries[id].origin == was.origin
            &&& b.entries[id].group_id == group
            &&& b.entries[id].ts == was.ts && b.entries[id].pinned == was.pinned
                && b.entries[id].use_count == was.use_count && b.entries[id].origin == was.origin
            &&& c.entries[id].use_count == was.use_count + 1
            &&& c.entries[id].ts == was.ts && c.entries[id].pinned == was.pinned
                && c.entries[id].group_id == was.group_id && c.entries[id].origin == was.origin
            &&& a.entries.dom() == d.tables.entries.dom() && b.entries.dom()
                == d.tables.entries.dom() && c.entries.dom() == d.tables.entries.dom()
            &&& other != id ==> a.entries[other] == d.tables.entries[other] && b.entries[other]
                == d.tables.entries[other] && c.entries[other] == d.tables.entries[other]
            &&& a.targets == d.tables.targets && b.targets == d.tables.targets && c.targets
                == d.tables.targets
            &&& a.index == d.tables.index && b.index == d.tables.index && c.index == d.tables.index
        }),
{
    assert(live(d.tables).contains(id));
    pin_is_exact(d.tables, id, pinned, other);
    group_is_exact(d.tables, id, group, other);
    use_is_counted_once(d.tables, id, other);
    assert((final(using).history()->0).tables.entries.dom() =~= d.tables.entries.dom());
}

/// After clearing there is no entry, no target and no indexed text.
pub proof fn cleared_history_is_empty<S: HistoryStore>(
    s: &mut S,
    r: Result<(), StoreError>,
    d: Database,
    id: EntryId,
    mime: Seq<char>,
    content: Seq<char>,
)
    requires
        call_ensures(S::clear, (s,), r),
        old(s).history() == Some(d),
        d.ready(),
        r is Ok,
    ensures
        final(s).history() is Some,
        !(final(s).history()->0).tables.entries.contains_key(id),
        !(final(s).history()->0).tables.targets.contains_key((id, mime)),
        (final(s).history()->0).tables.index.count((id, content)) == 0,
{
    clear_takes_everything(d, final(s).history()->0, r, id, mime, content);
}

/// What is counted is the entries that are there, and counting changes nothing.
pub proof fn count_is_of_the_entries<S: HistoryStore>(
    s: &mut S,
    r: Result<i64, StoreError>,
    d: Database,
)
    requires
        call_ensures(S::count, (s,), r),
        old(s).history() == Some(d),
        d.ready(),
        d.tables.entries.dom().len() <= i64::MAX,
    ensures
        r matches Ok(n) ==> n == d.tables.entries.dom().len(),
        final(s).history() is Some,
        (final(s).history()->0).tables == d.tables,
{
    assert(live(d.tables) =~= d.tables.entries.dom());
}

/// Pruning by number alone deletes as many entries as there are above the limit, or all
/// unpinned ones where they are fewer, says how many that were, and touches no pinned one.
pub proof fn prune_deletes_no_more_than_it_must<S: HistoryStore>(
    s: &mut S,
    max: i64,
    r: Result<i64, StoreError>,
    d: Database,
    id: EntryId,
)
    requires
        call_ensures(S::prune, (s, max, None), r),
        old(s).history() == Some(d),
        d.ready(),
        d.tables.entries.dom().len() <= i32::MAX,
        max >= 0,
        r is Ok,
    ensures
        final(s).history() is Some,
        ({
            let n = d.tables.entries.dom().len();
            let unpinned = d.tables.entries.dom().filter(
                |id: i64| d.tables.entries[id].pinned == 0,
            ).len();
            let above = if n > max { n - max } else { 0 };
            r->Ok_0 == if unpinned <= above { unpinned as int } else { above }
        }),
        r->Ok_0 + (final(s).history()->0).tables.entries.dom().len()
            == d.tables.entries.dom().len(),
        d.tables.entries.contains_key(id) && d.tables.entries[id].pinned != 0 ==> (
        final(s).history()->0).tables.entries.contains_key(id),
{
    let now = final(s).history()->0;
    prune_by_number_deletes_no_more_than_needed(d.tables, now.tables, max);
    if d.tables.entries.contains_key(id) && d.tables.entries[id].pinned != 0 {
        pinned_survives_prune(d.tables, now.tables, max, None, id);
    }
}

/// Pruning at a cutoff deletes the unpinned entries from before it, whatever the clock says,
/// and spares what is pinned, or not from before it and among the newest.
pub proof fn prune_goes_by_its_cutoff(
    conn: &mut rusqlite::Connection,
    max: i64,
    cutoff: Option<UnixMillis>,
    r: Result<i64, StoreError>,
    id: EntryId,
)
    requires
        call_ensures(prune_at, (conn, max, cutoff), r),
        database(*old(conn)).ready(),
        database(*old(conn)).tables.entries.dom().len() <= i32::MAX,
        r is Ok,
    ensures
        ({
            let t = database(*old(conn)).tables;
            let after = database(*final(conn)).tables;
            &&& after.entries.contains_key(id) <==> is_in_time(t, cutoff, id) && (
            t.entries[id].pinned != 0 || older_in_time(t, cutoff, id).len() >= in_time(
                t,
                cutoff,
            ).len() - max)
            &&& r->Ok_0 == t.entries.dom().len() - after.entries.dom().len()
        }),
{
    prune_takes_exactly_the_oldest(
        database(*old(conn)).tables,
        database(*final(conn)).tables,
        max,
        cutoff,
        id,
    );
}

/// A closed store answers every request with `Locked`.
pub proof fn closed_store_answers_locked<S: HistoryStore>(
    adding: &mut S,
    listing: &mut S,
    searching: &mut S,
    reading: &mut S,
    targets: Vec<MimeBlob>,
    source: AppId,
    max: u64,
    n: i64,
    query: &str,
    added: Result<EntryId, StoreError>,
    listed: Result<Vec<EntrySummary>, StoreError>,
    found: Result<Vec<EntrySummary>, StoreError>,
    read: Result<Option<Entry>, StoreError>,
)
    requires
        call_ensures(S::add_capture, (adding, targets, source, max), added),
        call_ensures(S::query, (listing, n, n, None), listed),
        call_ensures(S::search, (searching, query, n), found),
        call_ensures(S::get_entry, (reading, n), read),
        old(adding).history() is None,
        old(listing).history() is None,
        old(searching).history() is None,
        old(reading).history() is None,
    ensures
        added == Err::<EntryId, StoreError>(StoreError::Locked),
        listed == Err::<Vec<EntrySummary>, StoreError>(StoreError::Locked),
        found == Err::<Vec<EntrySummary>, StoreError>(StoreError::Locked),
        read == Err::<Option<Entry>, StoreError>(StoreError::Locked),
        final(adding).history() is None,
{
}

// ---- calls that open a store ----

/// A store in memory is in order and empty, and one that is opened at a path is at that path,
/// under the passphrase that was given.
pub proof fn opened_store_is_where_it_was_asked_for(
    path: &str,
    passphrase: &str,
    at: Result<Store, StoreError>,
    locked: Result<Store, StoreError>,
    memory: Result<Store, StoreError>,
    id: EntryId,
    mime: Seq<char>,
    content: Seq<char>,
)
    requires
        call_ensures(Store::open, (path, None), at),
        call_ensures(Store::open, (path, Some(passphrase)), locked),
        call_ensures(Store::open_memory, (None,), memory),
    ensures
        at matches Ok(s) ==> s.database().path == Some(path@) && s.database().key is None,
        locked matches Ok(s) ==> s.database().path == Some(path@) && s.database().key == Some(
            passphrase@,
        ),
        memory matches Ok(s) ==> {
            &&& s.database().ready()
            &&& s.database().path is None
            &&& s.database().key is None
            &&& !s.database().tables.entries.contains_key(id)
            &&& !s.database().tables.targets.contains_key((id, mime))
            &&& s.database().tables.index.count((id, content)) == 0
            &&& version_of(s.database().tables) == 1
        },
{
    decimal_round_trip(1);
}

/// Opening a handle again is done at its path, with the passphrase that is given, and where it
/// fails the handle stays as it was. A store in memory cannot be opened again.
pub proof fn reopened_handle_keeps_its_path(
    handle: &mut StoreHandle,
    passphrase: &str,
    r: Result<(), StoreError>,
)
    requires
        call_ensures(StoreHandle::reopen, (handle, passphrase), r),
    ensures
        final(handle).path() == old(handle).path(),
        r is Ok ==> {
            &&& final(handle).history() matches Some(d)
            &&& d.path == old(handle).path()
            &&& d.key == Some(passphrase@)
        },
        r is Err ==> final(handle).history() == old(handle).history(),
        old(handle).path() is None ==> r is Err,
{
}

// ---- calls of the policy ----

/// What is typed as one word is searched for as that word.
pub proof fn typed_word_becomes_its_pattern(query: &str, r: String)
    requires
        call_ensures(sanitize_fts, (query,), r),
        query@.len() > 0,
        forall|i: int|
            0 <= i < query@.len() ==> {
                let c = #[trigger] query@[i];
                ('0' <= c && c <= '9') || ('A' <= c && c <= 'Z') || ('a' <= c && c <= 'z')
            },
    ensures
        r@ == seq!['"'] + query@ + seq!['"', '*'],
{
    typed_word_is_searched_whole(query@);
}

/// A capture is let through unchanged or not at all; not where one of the rules is found in
/// its first plain text, wherever that stands.
pub proof fn filter_lets_through_all_or_nothing(
    policy: &CapturePolicy,
    targets: Vec<MimeBlob>,
    source: &AppId,
    rules: &Vec<Compiled>,
    r: Option<Vec<MimeBlob>>,
    i: int,
    k: int,
)
    requires
        call_ensures(filter_compiled, (policy, targets, source, rules), r),
    ensures
        r matches Some(rest) ==> values(rest@) == values(targets@),
        0 <= i < targets@.len() && (same_folded(targets@[i].mime@, "text/plain"@) || same_folded(
            targets@[i].mime@,
            "text/plain;charset=utf-8"@,
        )) && (forall|j: int|
            0 <= j < i ==> !same_folded((#[trigger] targets@[j]).mime@, "text/plain"@)
                && !same_folded(targets@[j].mime@, "text/plain;charset=utf-8"@)) && valid_utf8(
            targets@[i].bytes@,
        ) && 0 <= k < rules@.len() && finds_in(rules@[k], decode_utf8(targets@[i].bytes@)) ==> r
            is None,
        policy.paused || targets@.len() == 0 ==> r is None,
        0 <= i < targets@.len() && targets@[i].bytes@.len() > policy.max_blob_bytes ==> r is None,
{
    let all = values(targets@);
    accepted_is_within_limit(policy@, all, source@.id, rules@);
    if 0 <= i < targets@.len() {
        assert(all[i] == targets@[i]@);
        if (same_folded(targets@[i].mime@, "text/plain"@) || same_folded(
            targets@[i].mime@,
            "text/plain;charset=utf-8"@,
        )) && (forall|j: int|
            0 <= j < i ==> !same_folded((#[trigger] targets@[j]).mime@, "text/plain"@)
                && !same_folded(targets@[j].mime@, "text/plain;charset=utf-8"@)) && valid_utf8(
            targets@[i].bytes@,
        ) && 0 <= k < rules@.len() && finds_in(rules@[k], decode_utf8(targets@[i].bytes@)) {
            assert forall|j: int| 0 <= j < i implies !same_folded(
                (#[trigger] all[j]).mime,
                "text/plain"@,
            ) && !same_folded(all[j].mime, "text/plain;charset=utf-8"@) by {
                assert(all[j] == targets@[j]@);
                assert(targets@[j].mime@ == targets@[j].mime@);
            }
            denied_text_drops_the_capture(policy@, all, source@.id, rules@, i, k);
        }
    }
}

/// A new manager accepts captures of up to 50 MiB from every application; pausing it,
/// excluding applications and denying content change what they are about, and nothing else.
pub proof fn manager_is_set_part_by_part(
    fresh: ClipboardManager,
    pausing: &mut ClipboardManager,
    excluding: &mut ClipboardManager,
    denying: &mut ClipboardManager,
    paused: bool,
    apps: Vec<String>,
    rules: ContentRules,
    i: int,
)
    requires
        call_ensures(ClipboardManager::new, (), fresh),
        call_ensures(ClipboardManager::set_paused, (pausing, paused), ()),
        call_ensures(ClipboardManager::set_excluded_apps, (excluding, apps), ()),
        call_ensures(ClipboardManager::set_content_rules, (denying, rules), ()),
    ensures
        fresh.rule().max_blob_bytes == 50 * 1024 * 1024,
        !fresh.rule().paused && fresh.rule().excluded_apps.len() == 0 && fresh.denying().len() == 0,
        final(pausing).rule().paused == paused,
        final(pausing).rule().max_blob_bytes == old(pausing).rule().max_blob_bytes,
        final(pausing).rule().excluded_apps == old(pausing).rule().excluded_apps,
        final(pausing).denying() == old(pausing).denying(),
        final(excluding).rule().excluded_apps.len() == apps@.len(),
        0 <= i < apps@.len() ==> final(excluding).rule().excluded_apps[i] == apps@[i]@,
        final(excluding).rule().paused == old(excluding).rule().paused,
        final(excluding).rule().max_blob_bytes == old(excluding).rule().max_blob_bytes,
        final(excluding).denying() == old(excluding).denying(),
        final(denying).denying().len() == rules.deny_regex@.len(),
        0 <= i < rules.deny_regex@.len() ==> final(denying).denying()[i] == rules.deny_regex@[i]@,
        final(denying).rule() == old(denying).rule(),
{
}

/// Handling an event stores what is accepted, and leaves the history alone while capture is
/// paused.
pub proof fn handled_event_is_stored_or_dropped<S: HistoryStore>(
    manager: &ClipboardManager,
    source: AppId,
    targets: Vec<MimeBlob>,
    rules: &Vec<Compiled>,
    store: &mut S,
    r: Handled,
    d: Database,
)
    requires
        call_ensures(
            ClipboardManager::handle_compiled::<S>,
            (
                manager,
                (ClipboardEvent::SelectionChanged { source }),
                Result::<Vec<MimeBlob>, BackendError>::Ok(targets),
                rules,
                store,
            ),
            r,
        ),
        old(store).history() == Some(d),
        d.ready(),
        forall|x: i64| #[trigger]
            d.tables.entries.contains_key(x) ==> d.tables.entries[x].use_count < i64::MAX,
    ensures
        manager.rule().paused ==> r is Dropped && final(store).history() == Some(d),
        r is Dropped ==> final(store).history() == Some(d),
        r matches Handled::Captured(id) ==> {
            &&& final(store).history() matches Some(now)
            &&& exists|at: UnixMillis| #[trigger]
                captured(
                    d.tables,
                    now.tables,
                    values(targets@),
                    source@.id,
                    manager.rule().max_blob_bytes,
                    at,
                    id,
                )
        },
{
    uses_below_the_highest_are_countable(d.tables, 0);
    handling_stores_what_is_accepted(
        manager.rule(),
        Event::SelectionChanged { source: source@ },
        Ok(values(targets@)),
        rules@,
        d,
        final(store).history(),
        r,
    );
}

// ---- calls of the service ----

/// Deleting over the bus signals each id that was named, in order, and no other, and only
/// where it succeeded; a locked service deletes nothing.
pub proof fn bus_delete_signals_each<S: HistoryStore, P: ClipboardProvider, U: UnlockRequest>(
    s: &mut ClipboardManagerService<S, P, U>,
    ids: Vec<EntryId>,
    r: Result<(), ServiceError>,
    i: int,
)
    requires
        call_ensures(ClipboardManagerService::<S, P, U>::delete, (s, ids), r),
    ensures
        old(s).status().locked ==> r is Err && final(s).store() == old(s).store(),
        r is Err ==> final(s).effects() == old(s).effects(),
        r is Ok ==> {
            let n = old(s).effects().len() as int;
            &&& final(s).effects().len() == n + ids@.len()
            &&& final(s).effects().take(n) == old(s).effects()
            &&& 0 <= i < ids@.len() ==> final(s).effects()[n + i] == Effect::EntryRemoved(ids@[i])
        },
        final(s).status() == old(s).status(),
{
    let n = old(s).effects().len() as int;
    if r is Ok {
        assert(final(s).effects().take(n) =~= old(s).effects());
    } else {
        assert(old(s).effects() + Seq::<Effect>::empty() =~= old(s).effects());
    }
}

/// While the service is locked no request reads or changes the history.
pub proof fn locked_service_leaves_the_history_alone<
    S: HistoryStore,
    P: ClipboardProvider,
    U: UnlockRequest,
>(
    listing: &mut ClipboardManagerService<S, P, U>,
    searching: &mut ClipboardManagerService<S, P, U>,
    reading: &mut ClipboardManagerService<S, P, U>,
    clearing: &mut ClipboardManagerService<S, P, U>,
    pinning: &mut ClipboardManagerService<S, P, U>,
    n: i64,
    query: &str,
    pinned: bool,
    listed: Result<Vec<SummaryDto>, ServiceError>,
    found: Result<Vec<SummaryDto>, ServiceError>,
    read: Result<Option<EntryDto>, ServiceError>,
    r: Result<(), ServiceError>,
)
    requires
        call_ensures(ClipboardManagerService::<S, P, U>::query, (listing, n, n, None), listed),
        call_ensures(ClipboardManagerService::<S, P, U>::search, (searching, query, n), found),
        call_ensures(ClipboardManagerService::<S, P, U>::get_entry, (reading, n), read),
        call_ensures(ClipboardManagerService::<S, P, U>::clear, (clearing,), r),
        call_ensures(ClipboardManagerService::<S, P, U>::set_pinned, (pinning, n, pinned), r),
        old(listing).status().locked,
        old(searching).status().locked,
        old(reading).status().locked,
        old(clearing).status().locked,
        old(pinning).status().locked,
    ensures
        listed is Err && final(listing).store() == old(listing).store(),
        found is Err && final(searching).store() == old(searching).store(),
        read is Err && final(reading).store() == old(reading).store(),
        r is Err && final(clearing).store() == old(clearing).store(),
        final(pinning).store() == old(pinning).store(),
        final(clearing).status().locked && final(pinning).status().locked,
{
}

/// Pausing pauses, locking locks, and each is signalled with the state that it makes;
/// neither touches the other, nor the rest of the service.
pub proof fn pausing_and_locking_are_signalled<
    S: HistoryStore,
    P: ClipboardProvider,
    U: UnlockRequest,
>(
    pausing: &mut ClipboardManagerService<S, P, U>,
    locking: &mut ClipboardManagerService<S, P, U>,
    paused: bool,
)
    requires
        call_ensures(ClipboardManagerService::<S, P, U>::pause, (pausing, paused), ()),
        call_ensures(ClipboardManagerService::<S, P, U>::lock, (locking,), ()),
    ensures
        final(pausing).status().paused == paused,
        final(pausing).status().locked == old(pausing).status().locked,
        final(pausing).status().excluded_apps == old(pausing).status().excluded_apps,
        final(pausing).status().deny_regex == old(pausing).status().deny_regex,
        final(pausing).effects() == old(pausing).effects().push(
            Effect::StateChanged { paused, locked: old(pausing).status().locked },
        ),
        final(pausing).store() == old(pausing).store(),
        final(locking).status().locked,
        final(locking).status().paused == old(locking).status().paused,
        final(locking).status().excluded_apps == old(locking).status().excluded_apps,
        final(locking).effects() == old(locking).effects().push(
            Effect::StateChanged { paused: old(locking).status().paused, locked: true },
        ),
        final(locking).store() == old(locking).store(),
{
}

/// An application that is excluded is on the list behind the others, and one that is
/// excluded no longer is off it; the others stay in their order, and so does all else.
pub proof fn excluded_apps_come_and_go<
    S: HistoryStore,
    P: ClipboardProvider,
    U: UnlockRequest,
>(
    adding: &mut ClipboardManagerService<S, P, U>,
    removing: &mut ClipboardManagerService<S, P, U>,
    app: &str,
    other: Seq<char>,
)
    requires
        call_ensures(ClipboardManagerService::<S, P, U>::exclude_app_add, (adding, app), ()),
        call_ensures(ClipboardManagerService::<S, P, U>::exclude_app_remove, (removing, app), ()),
    ensures
        final(adding).status().excluded_apps == old(adding).status().excluded_apps.push(app@),
        final(adding).status().paused == old(adding).status().paused,
        final(adding).status().locked == old(adding).status().locked,
        final(adding).status().deny_regex == old(adding).status().deny_regex,
        !final(removing).status().excluded_apps.contains(app@),
        other != app@ ==> final(removing).status().excluded_apps.contains(other) == old(
            removing,
        ).status().excluded_apps.contains(other),
        final(removing).status().paused == old(removing).status().paused,
        final(removing).status().locked == old(removing).status().locked,
        final(removing).status().deny_regex == old(removing).status().deny_regex,
{
    without_text_is_exact(old(removing).status().excluded_apps, app@, app@);
    without_text_is_exact(old(removing).status().excluded_apps, app@, other);
}

/// The state that is told is the state: paused or not, locked or not, the excluded
/// applications, and how many entries there are, or -1 where that is not to be had.
pub proof fn told_state_is_the_state<S: HistoryStore, P: ClipboardProvider, U: UnlockRequest>(
    s: &mut ClipboardManagerService<S, P, U>,
    r: StateDto,
    d: Database,
    i: int,
)
    requires
        call_ensures(ClipboardManagerService::<S, P, U>::state, (s,), r),
    ensures
        r.paused == old(s).status().paused,
        r.locked == old(s).status().locked,
        r.excluded_apps@.len() == old(s).status().excluded_apps.len(),
        0 <= i < r.excluded_apps@.len() ==> r.excluded_apps@[i]@
            == old(s).status().excluded_apps[i],
        old(s).status().locked ==> r.entry_count == -1,
        !old(s).status().locked && old(s).store().history() == Some(d) && d.ready()
            && d.tables.entries.dom().len() <= i64::MAX && r.entry_count != -1 ==> r.entry_count
            == d.tables.entries.dom().len(),
        final(s).status() == old(s).status(),
        final(s).effects() == old(s).effects(),
{
    assert(texts(r.excluded_apps@).len() == r.excluded_apps@.len());
    if 0 <= i < r.excluded_apps@.len() {
        assert(texts(r.excluded_apps@)[i] == r.excluded_apps@[i]@);
    }
    if d.ready() {
        assert(live(d.tables) =~= d.tables.entries.dom());
    }
}

/// A capture loop that takes over the policy of the service is under that policy.
pub proof fn capture_loop_is_under_the_policy<
    S: HistoryStore,
    P: ClipboardProvider,
    U: UnlockRequest,
>(s: &ClipboardManagerService<S, P, U>, manager: &mut ClipboardManager)
    requires
        call_ensures(ClipboardManagerService::<S, P, U>::apply_policy, (s, manager), ()),
    ensures
        final(manager).rule().paused == s.status().paused,
        final(manager).rule().excluded_apps == s.status().excluded_apps,
        final(manager).rule().max_blob_bytes == old(manager).rule().max_blob_bytes,
        final(manager).denying() == s.status().deny_regex,
{
}

/// A page over the bus holds the rows of the page, each as its entry stands in the tables,
/// and an entry over the bus is the one that is stored.
pub proof fn bus_answers_are_as_stored<S: HistoryStore, P: ClipboardProvider, U: UnlockRequest>(
    listing: &mut ClipboardManagerService<S, P, U>,
    reading: &mut ClipboardManagerService<S, P, U>,
    offset: i64,
    limit: i64,
    group: Option<i64>,
    id: EntryId,
    listed: Result<Vec<SummaryDto>, ServiceError>,
    read: Result<Option<EntryDto>, ServiceError>,
    d: Database,
    i: int,
)
    requires
        call_ensures(
            ClipboardManagerService::<S, P, U>::query,
            (listing, offset, limit, group),
            listed,
        ),
        call_ensures(ClipboardManagerService::<S, P, U>::get_entry, (reading, id), read),
        !old(listing).status().locked,
        !old(reading).status().locked,
        old(listing).store().history() == Some(d),
        old(reading).store().history() == Some(d),
        d.ready(),
    ensures
        listed matches Ok(list) ==> (0 <= i < list@.len() ==> wire_row_shows_its_entry(
            d.tables,
            list@[i],
        )),
        read matches Ok(found) ==> (found is Some <==> d.tables.entries.contains_key(id)),
        read matches Ok(Some(e)) ==> {
            &&& e.id == id
            &&& e.ts == d.tables.entries[id].ts
            &&& e.pinned == (d.tables.entries[id].pinned != 0)
            &&& e.group == d.tables.entries[id].group_id
            &&& e.use_count == d.tables.entries[id].use_count as u32
            &&& e.preview_kind@ == kind_name(named_kind(d.tables.entries[id].preview_kind))
            &&& e.size_bytes == d.tables.entries[id].size_bytes as u64
            &&& optional_text(e.origin) == d.tables.entries[id].origin
            &&& 0 <= i < e.targets@.len() ==> d.tables.targets.contains_key(
                (id, e.targets@[i].mime@),
            ) && d.tables.targets[(id, e.targets@[i].mime@)] == e.targets@[i].bytes@
        },
{
    if let Ok(list) = listed {
        if 0 <= i < list@.len() {
            queried_row_shows_its_entry(d.tables, offset, limit, group, list@, i);
        }
    }
    if let Ok(Some(dto)) = read {
        let e = choose|e: FullEntry| #[trigger] is_entry(d.tables, id, e) && dto.carries(e);
        read_entry_is_as_stored(d.tables, id, e, Seq::empty());
        assert(wire_values(dto.targets@).len() == dto.targets@.len());
        if 0 <= i < dto.targets@.len() {
            assert(e.targets[i] == dto.targets@[i]@);
        }
    }
}

/// What a search over the bus answers for a letter or a digit is hits, each as its entry
/// stands in the tables.
pub proof fn bus_search_answers_hits<S: HistoryStore, P: ClipboardProvider, U: UnlockRequest>(
    s: &mut ClipboardManagerService<S, P, U>,
    query: &str,
    limit: i64,
    r: Result<Vec<SummaryDto>, ServiceError>,
    d: Database,
    k: int,
    i: int,
)
    requires
        call_ensures(ClipboardManagerService::<S, P, U>::search, (s, query, limit), r),
        !old(s).status().locked,
        old(s).store().history() == Some(d),
        d.ready(),
        r is Ok,
        1 <= limit <= 500,
        0 <= k < query@.len(),
        ('0' <= query@[k] && query@[k] <= '9') || ('A' <= query@[k] && query@[k] <= 'Z') || ('a'
            <= query@[k] && query@[k] <= 'z'),
        0 <= i < (r->Ok_0)@.len(),
    ensures
        wire_row_shows_its_entry(d.tables, (r->Ok_0)@[i]),
        is_hit(d.tables, (r->Ok_0)@[i].id, pattern_of(query@)),
        (r->Ok_0)@.len() <= limit,
{
    let list = (r->Ok_0)@;
    searched_row_shows_its_entry(d.tables, query@, limit, list, i);
    let sums = choose|sums: Seq<Summary>|
        answers_search(d.tables, query@, limit, sums) && #[trigger] all_carried(list, sums);
    search_shows_the_hits(d.tables, query@, limit, sums, k);
    assert(list[i].carries(sums[i]));
}

/// An entry that is picked is offered with the targets that are stored for it, once, and a
/// use of it is counted where the pick succeeds; a pick of an entry that is not there offers
/// nothing and says so.
pub proof fn picked_entry_is_what_is_offered<
    S: HistoryStore,
    P: ClipboardProvider,
    U: UnlockRequest,
>(
    s: &mut ClipboardManagerService<S, P, U>,
    id: EntryId,
    auto_paste: bool,
    r: Result<(), ServiceError>,
    d: Database,
)
    requires
        call_ensures(ClipboardManagerService::<S, P, U>::pick, (s, id, auto_paste), r),
        !old(s).status().locked,
        old(s).store().history() == Some(d),
        d.ready(),
        forall|x: i64| #[trigger]
            d.tables.entries.contains_key(x) ==> d.tables.entries[x].use_count < i64::MAX,
    ensures
        final(s).status() == old(s).status(),
        final(s).store().history() is Some,
        r is Ok ==> {
            &&& d.tables.entries.contains_key(id)
            &&& (final(s).store().history()->0).tables.entries[id].use_count
                == d.tables.entries[id].use_count + 1
            &&& (final(s).store().history()->0).tables.targets == d.tables.targets
            &&& exists|e: FullEntry, offered: Result<(), BackendError>|
                is_entry(d.tables, id, e) && final(s).provider().offers() == #[trigger] old(
                    s,
                ).provider().offers().push((e.targets, offered))
        },
        r is Ok && auto_paste && old(s).can_paste() && old(s).provider().caps().auto_paste
            ==> final(s).effects() == old(s).effects().push(Effect::AutoPaste),
        r is Err || !auto_paste ==> final(s).effects() == old(s).effects(),
        !d.tables.entries.contains_key(id) ==> r is Err && final(s).provider()
            == old(s).provider() && (final(s).store().history()->0).tables == d.tables,
{
    let now = final(s).store().history()->0;
    if d.tables.entries.contains_key(id) && r is Ok {
        assert(old(s).offers_entry(*final(s), d, id, auto_paste, r));
        picked_entry_is_offered_and_counted(*old(s), *final(s), d, id, auto_paste, r);
    }
}

/// What is pushed over the bus is captured or refused: refused while the service is locked
/// or paused, for a target of more than 50 MiB and for nothing at all, with nothing signalled
/// then; and signalled under its id where it is captured.
pub proof fn bus_push_is_captured_or_refused<
    S: HistoryStore,
    P: ClipboardProvider,
    U: UnlockRequest,
>(
    s: &mut ClipboardManagerService<S, P, U>,
    targets: Vec<TargetDto>,
    rules: &Vec<Compiled>,
    r: Result<EntryId, ServiceError>,
    d: Database,
    i: int,
)
    requires
        call_ensures(
            ClipboardManagerService::<S, P, U>::add_entry_compiled,
            (s, targets, rules),
            r,
        ),
        old(s).store().history() == Some(d),
        d.ready(),
        forall|x: i64| #[trigger]
            d.tables.entries.contains_key(x) ==> d.tables.entries[x].use_count < i64::MAX,
    ensures
        old(s).status().locked || old(s).status().paused || targets@.len() == 0 || (0 <= i
            < targets@.len() && targets@[i].bytes@.len() > 52_428_800) ==> r is Err
            && final(s).store() == old(s).store(),
        r is Err ==> final(s).effects() == old(s).effects(),
        r matches Ok(id) ==> {
            &&& final(s).effects() == old(s).effects().push(Effect::EntryAdded(id))
            &&& final(s).store().history() matches Some(now)
            &&& exists|at: UnixMillis| #[trigger]
                captured(
                    d.tables,
                    now.tables,
                    wire_values(targets@),
                    None,
                    52_428_800,
                    at,
                    id,
                )
        },
        final(s).status() == old(s).status(),
{
    let all = wire_values(targets@);
    assert(all.len() == targets@.len());
    if 0 <= i < targets@.len() {
        assert(all[i] == targets@[i]@);
    }
    refused_push_changes_nothing(*old(s), *final(s), all, rules@, r, i, 0);
    accepted_is_within_limit(old(s).push_policy(), all, None, rules@);
    uses_below_the_highest_are_countable(d.tables, 0);
}

/// The service is unlocked if and only if it says so, and a request that does not unlock it
/// leaves its lock as it was.
pub proof fn unlock_request_says_whether_it_unlocked<
    S: HistoryStore,
    P: ClipboardProvider,
    U: UnlockRequest,
>(s: &mut ClipboardManagerService<S, P, U>, r: Result<bool, ServiceError>)
    requires
        call_ensures(ClipboardManagerService::<S, P, U>::request_unlock, (s,), r),
    ensures
        r == Ok::<bool, ServiceError>(true) ==> !final(s).status().locked,
        r != Ok::<bool, ServiceError>(true) ==> final(s).status().locked == old(s).status().locked
            && final(s).effects() == old(s).effects(),
        final(s).status().paused == old(s).status().paused,
        final(s).store() == old(s).store(),
        final(s).provider() == old(s).provider(),
{
}

/// A pattern that is a regular expression is denied from then on, behind the others, and
/// one that is not is refused with the reason and changes nothing.
pub proof fn checked_pattern_is_denied_or_refused<
    S: HistoryStore,
    P: ClipboardProvider,
    U: UnlockRequest,
>(
    s: &mut ClipboardManagerService<S, P, U>,
    pattern: &str,
    check: Result<(), PatternError>,
    r: Result<(), ServiceError>,
)
    requires
        call_ensures(
            ClipboardManagerService::<S, P, U>::admit_pattern,
            (s, pattern, check),
            r,
        ),
    ensures
        r is Ok <==> check is Ok,
        r is Ok ==> final(s).status().deny_regex == old(s).status().deny_regex.push(pattern@),
        r is Err ==> final(s).status() == old(s).status(),
        check matches Err(PatternError::Syntax(m)) ==> fails(r, "bad regex: "@ + m@),
        check matches Err(PatternError::TooBig(m)) ==> fails(r, "bad regex: "@ + m@),
        final(s).status().paused == old(s).status().paused,
        final(s).status().locked == old(s).status().locked,
        final(s).status().excluded_apps == old(s).status().excluded_apps,
        final(s).store() == old(s).store(),
{
}

// ---- calls of the text functions ----

/// A text is shortened to its beginning, and left whole where it is short enough.
pub proof fn truncated_text_is_its_beginning(s: &str, n: usize, r: String, i: int)
    requires
        call_ensures(truncate, (s, n), r),
    ensures
        s@.len() <= n ==> r@ == s@,
        s@.len() > n ==> r@.len() == n + 1 && r@[n as int] == '\u{2026}' && (0 <= i < n ==> r@[i]
            == s@[i]),
{
    shortening_keeps_the_beginning(s@, n as nat);
}

/// Text without angle brackets is indexed word for word, and what stands in a tag is not.
pub proof fn stripped_html_is_its_text(html: &str, r: String, i: int)
    requires
        call_ensures(strip_html, (html,), r),
    ensures
        (forall|j: int| 0 <= j < html@.len() ==> #[trigger] html@[j] != '<' && html@[j] != '>')
            ==> r@ == spaced(words(html@)),
        0 <= i < r@.len() ==> r@[i] != '<' && r@[i] != '>',
{
    stripped_is_clean(html@);
    if forall|j: int| 0 <= j < html@.len() ==> #[trigger] html@[j] != '<' && html@[j] != '>' {
        assert forall|j: int| 0 <= j < html@.len() implies no_bracket(#[trigger] html@[j]) by {}
    }
    if 0 <= i < r@.len() {
        assert(no_bracket(stripped(html@)[i]));
    }
}

/// The kind of a capture is told by its targets: a list of files makes it `Files`, an image
/// without one `Image`, and a capture with neither of these nor any text is `Other`.
pub proof fn kind_of_a_capture_is_told_by_its_targets(targets: &[MimeBlob], r: PreviewKind, i: int)
    requires
        call_ensures(PreviewKind::infer, (targets,), r),
    ensures
        0 <= i < targets@.len() && same_folded(targets@[i].mime@, "text/uri-list"@) ==> r is Files,
        0 <= i < targets@.len() && "image/"@.is_prefix_of(targets@[i].mime@) ==> r is Files || r
            is Image,
        0 <= i < targets@.len() && same_folded(targets@[i].mime@, "text/html"@) ==> !(r is Text)
            && !(r is Other),
        0 <= i < targets@.len() && same_folded(targets@[i].mime@, "text/plain"@) ==> !(r is Other),
        targets@.len() == 0 ==> r is Other,
{
    let all = values(targets@);
    if 0 <= i < targets@.len() {
        assert(all[i] == targets@[i]@);
        kind_is_the_first_that_fits(all, i);
    }
    kind_needs_a_target(all);
}

/// The plain text of a capture is that of its first plain-text target, and its preview is
/// the beginning of that text.
pub proof fn text_of_a_capture_is_its_first_plain_text(
    targets: &[MimeBlob],
    text: Option<&str>,
    preview: Option<String>,
    i: int,
)
    requires
        call_ensures(find_plain_text, (targets,), text),
        call_ensures(preview_text_of, (targets,), preview),
        0 <= i < targets@.len(),
        same_folded(targets@[i].mime@, "text/plain"@) || same_folded(
            targets@[i].mime@,
            "text/plain;charset=utf-8"@,
        ),
        forall|j: int|
            0 <= j < i ==> !same_folded((#[trigger] targets@[j]).mime@, "text/plain"@)
                && !same_folded(targets@[j].mime@, "text/plain;charset=utf-8"@),
    ensures
        !valid_utf8(targets@[i].bytes@) ==> text is None && preview is None,
        valid_utf8(targets@[i].bytes@) ==> (text matches Some(s) && s@ == decode_utf8(
            targets@[i].bytes@,
        )),
        is_preview_of(targets@[i].bytes@, optional_text(preview)),
{
    let all = values(targets@);
    assert(all[i] == targets@[i]@);
    assert forall|j: int| 0 <= j < i implies !same_folded((#[trigger] all[j]).mime, "text/plain"@)
        && !same_folded(all[j].mime, "text/plain;charset=utf-8"@) by {
        assert(all[j] == targets@[j]@);
        assert(targets@[j].mime@ == targets@[j].mime@);
    }
    plain_text_is_of_the_first(all, i);
    preview_is_the_first_160_characters(decode_utf8(targets@[i].bytes@));
}

} // verus!
