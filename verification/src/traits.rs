//! The interfaces of the clipboard backends and of the history store. The
//! manager and the service talk to both, and neither knows about the other.

use vstd::prelude::*;

use crate::errors::{BackendError, StoreError};
use crate::history::{
    answers_search, capture_outcome, changed_if_ok, clear_outcome, countable, delete_outcome, flag,
    group_outcome, is_entry, is_page, prune_outcome, refused, summaries, unchanged,
};
use crate::sql::{bumped, live, with_pin, Database};
use crate::types::{
    events, values, AppId, Caps, ClipboardEvent, Entry, EntryId, EntrySummary, Event, MimeBlob,
    Target,
};

verus! {

/// The targets that were read, as values, or why they could not be.
pub open spec fn readable(read: Result<Vec<MimeBlob>, BackendError>) -> Result<
    Seq<Target>,
    BackendError,
> {
    match read {
        Ok(list) => Ok(values(list@)),
        Err(e) => Err(e),
    }
}

/// Whether `read` is what reading the selection `current` gives.
pub open spec fn is_read_of(
    read: Result<Seq<Target>, BackendError>,
    current: Option<Seq<Target>>,
) -> bool {
    match current {
        Some(targets) => read == Ok::<Seq<Target>, BackendError>(targets),
        None => read is Err,
    }
}

/// The interface that every clipboard backend implements. The daemon picks one
/// at startup by the active display server.
pub trait ClipboardProvider: Sized {
    /// The name of the backend.
    closed spec fn label(&self) -> Seq<char> {
        arbitrary()
    }

    /// What the backend can do.
    closed spec fn caps(&self) -> Caps {
        arbitrary()
    }

    /// The targets that were last offered onto the clipboard.
    closed spec fn offered(&self) -> Option<Seq<Target>> {
        arbitrary()
    }

    /// The events that the next call of [`subscribe`](Self::subscribe) takes.
    closed spec fn pending(&self) -> Seq<Event> {
        arbitrary()
    }

    /// What was read of selections so far, in order.
    closed spec fn reads(&self) -> Seq<Result<Seq<Target>, BackendError>> {
        arbitrary()
    }

    /// What was offered so far, in order: the targets, and what became of the
    /// offer.
    closed spec fn offers(&self) -> Seq<(Seq<Target>, Result<(), BackendError>)> {
        arbitrary()
    }

    /// Whether events and selections come from calls in this program alone, and
    /// nothing outside of it changes the backend.
    closed spec fn isolated(&self) -> bool {
        arbitrary()
    }

    /// The targets of the current selection of an isolated backend, if there is
    /// a selection.
    closed spec fn selection(&self) -> Option<Seq<Target>> {
        arbitrary()
    }

    /// Human-readable backend name, such as `x11` or `wlroots`.
    fn name(&self) -> (r: &'static str)
        ensures
            r@ == self.label(),
    ;

    /// What this backend can do. Drives the user interface and the policy.
    fn capabilities(&self) -> (r: Caps)
        ensures
            r == self.caps(),
    ;

    /// Take the clipboard events that have arrived since the last call, in
    /// order. The manager reacts to `SelectionChanged` by reading the targets.
    fn subscribe(&mut self) -> (r: Vec<ClipboardEvent>)
        ensures
            events(r@) == old(self).pending(),
            final(self).reads() == old(self).reads(),
            final(self).offers() == old(self).offers(),
            final(self).label() == old(self).label(),
            final(self).caps() == old(self).caps(),
            final(self).offered() == old(self).offered(),
            final(self).isolated() == old(self).isolated(),
            old(self).isolated() ==> final(self).pending() == Seq::<Event>::empty()
                && final(self).selection() == old(self).selection(),
    ;

    /// Read every offered target of the current selection, in full fidelity.
    fn read_targets(&mut self) -> (r: Result<Vec<MimeBlob>, BackendError>)
        ensures
            final(self).reads() == old(self).reads().push(readable(r)),
            final(self).offers() == old(self).offers(),
            final(self).label() == old(self).label(),
            final(self).caps() == old(self).caps(),
            final(self).offered() == old(self).offered(),
            final(self).isolated() == old(self).isolated(),
            old(self).isolated() ==> final(self).pending() == old(self).pending()
                && final(self).selection() == old(self).selection() && is_read_of(
                readable(r),
                old(self).selection(),
            ),
    ;

    /// Offer an entry back onto the clipboard.
    fn offer(&mut self, entry: &Entry) -> (r: Result<(), BackendError>)
        ensures
            final(self).label() == old(self).label(),
            final(self).caps() == old(self).caps(),
            final(self).reads() == old(self).reads(),
            final(self).offers() == old(self).offers().push((entry@.targets, r)),
            final(self).isolated() == old(self).isolated(),
            r is Ok ==> final(self).offered() == Some(entry@.targets),
    ;

    /// Best-effort identity of the application that owns the current selection.
    /// Unknown on backends that hide the source.
    fn source_hint(&self) -> (r: Result<AppId, BackendError>);
}

/// A history of clipboard captures. Where the contracts speak of the database
/// behind it, they hold for a database that is [ready](Database::ready).
pub trait HistoryStore: Sized {
    /// The database behind the store, or `None` while it is closed.
    closed spec fn history(&self) -> Option<Database> {
        arbitrary()
    }

    /// Add a capture: a repetition of the newest entry counts as one more use
    /// of it, and anything else becomes a new entry. Targets larger than
    /// `max_blob_bytes` are left out.
    fn add_capture(&mut self, targets: Vec<MimeBlob>, source: AppId, max_blob_bytes: u64) -> (r:
        Result<EntryId, StoreError>)
        ensures
            match old(self).history() {
                None => refused(final(self).history(), r),
                Some(before) => final(self).history() is Some && capture_outcome(
                    before,
                    final(self).history()->0,
                    values(targets@),
                    source@.id,
                    max_blob_bytes,
                    r,
                ),
            },
    ;

    /// A page of the history, or of one group of it, newest first.
    fn query(&mut self, offset: i64, limit: i64, group: Option<i64>) -> (r: Result<
        Vec<EntrySummary>,
        StoreError,
    >)
        ensures
            match old(self).history() {
                None => refused(final(self).history(), r),
                Some(d) => final(self).history() is Some && (d.ready() ==> unchanged(
                    d,
                    final(self).history()->0,
                    r is Ok,
                ) && (r matches Ok(list) ==> is_page(
                    d.tables,
                    offset,
                    limit,
                    group,
                    summaries(list@),
                ))),
            },
    ;

    /// The entries that `query` finds, or the newest ones where it holds nothing
    /// to search for.
    fn search(&mut self, query: &str, limit: i64) -> (r: Result<Vec<EntrySummary>, StoreError>)
        ensures
            match old(self).history() {
                None => refused(final(self).history(), r),
                Some(d) => final(self).history() is Some && (d.ready() ==> unchanged(
                    d,
                    final(self).history()->0,
                    r is Ok,
                ) && (r matches Ok(list) ==> answers_search(
                    d.tables,
                    query@,
                    limit,
                    summaries(list@),
                ))),
            },
    ;

    /// The entry `id` with all of its targets, if there is one.
    fn get_entry(&mut self, id: EntryId) -> (r: Result<Option<Entry>, StoreError>)
        ensures
            match old(self).history() {
                None => refused(final(self).history(), r),
                Some(d) => final(self).history() is Some && (d.ready() ==> unchanged(
                    d,
                    final(self).history()->0,
                    r is Ok,
                ) && match r {
                    Ok(Some(e)) => live(d.tables).contains(id) && is_entry(d.tables, id, e@),
                    Ok(None) => !live(d.tables).contains(id),
                    Err(_) => true,
                }),
            },
    ;

    /// Delete the entries `ids`.
    fn delete(&mut self, ids: &[EntryId]) -> (r: Result<(), StoreError>)
        ensures
            match old(self).history() {
                None => refused(final(self).history(), r),
                Some(before) => final(self).history() is Some && delete_outcome(
                    before,
                    final(self).history()->0,
                    ids@,
                    r,
                ),
            },
    ;

    /// Set whether the entry `id` is pinned.
    fn set_pinned(&mut self, id: EntryId, pinned: bool) -> (r: Result<(), StoreError>)
        ensures
            match old(self).history() {
                None => refused(final(self).history(), r),
                Some(before) => final(self).history() is Some && (before.ready() ==> changed_if_ok(
                    before,
                    final(self).history()->0,
                    with_pin(before.tables, id, flag(pinned)),
                    r is Ok,
                )),
            },
    ;

    /// Set the group of the entry `id`.
    fn set_group(&mut self, id: EntryId, group: Option<i64>) -> (r: Result<(), StoreError>)
        ensures
            match old(self).history() {
                None => refused(final(self).history(), r),
                Some(before) => final(self).history() is Some && group_outcome(
                    before,
                    final(self).history()->0,
                    id,
                    group,
                    r,
                ),
            },
    ;

    /// Delete all entries.
    fn clear(&mut self) -> (r: Result<(), StoreError>)
        ensures
            match old(self).history() {
                None => refused(final(self).history(), r),
                Some(before) => final(self).history() is Some && clear_outcome(
                    before,
                    final(self).history()->0,
                    r,
                ),
            },
    ;

    /// Count one more use of the entry `id`.
    fn bump_use_count(&mut self, id: EntryId) -> (r: Result<(), StoreError>)
        ensures
            match old(self).history() {
                None => refused(final(self).history(), r),
                Some(before) => final(self).history() is Some && (before.ready() && countable(
                    before.tables,
                    id,
                ) ==> changed_if_ok(
                    before,
                    final(self).history()->0,
                    bumped(before.tables, id),
                    r is Ok,
                )),
            },
    ;

    /// How many entries there are.
    fn count(&mut self) -> (r: Result<i64, StoreError>)
        ensures
            match old(self).history() {
                None => refused(final(self).history(), r),
                Some(d) => final(self).history() matches Some(now) && (d.ready() && live(
                    d.tables,
                ).len() <= i64::MAX ==> unchanged(d, now, r is Ok) && (r matches Ok(n)
                    ==> n == live(d.tables).len())),
            },
    ;

    /// Delete the unpinned entries that are older than `retention_days`, then
    /// the oldest unpinned ones until at most `max_entries` entries remain, and
    /// say how many were deleted.
    fn prune(&mut self, max_entries: i64, retention_days: Option<i64>) -> (r: Result<
        i64,
        StoreError,
    >)
        ensures
            match old(self).history() {
                None => refused(final(self).history(), r),
                Some(before) => final(self).history() is Some && prune_outcome(
                    before,
                    final(self).history()->0,
                    max_entries,
                    retention_days,
                    r,
                ),
            },
    ;
}

/// What is read of a selection is its targets, as they are, or why it could not be read.
pub proof fn reads_are_of_the_selection(
    read: Result<Vec<MimeBlob>, BackendError>,
    current: Option<Seq<Target>>,
)
    ensures
        read matches Ok(list) ==> readable(read) == Ok::<Seq<Target>, BackendError>(values(list@)),
        read matches Err(e) ==> readable(read) == Err::<Seq<Target>, BackendError>(e),
        is_read_of(readable(read), current) && current is None ==> read is Err,
        is_read_of(readable(read), current) ==> (current matches Some(targets) ==> (read matches Ok(
            list,
        ) && values(list@) == targets)),
{
}

} // verus!
