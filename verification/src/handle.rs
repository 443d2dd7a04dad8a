//! A handle on a store that can be opened again.
//!
//! The daemon holds a handle so that it can start locked, when the encrypted
//! database cannot be read without a passphrase, and open the store once the
//! user supplies one. The passphrase comes over a private channel and never
//! over the session bus.

use vstd::prelude::*;
use vstd::string::*;

use crate::errors::{told_by_database, StoreError};
use crate::sql::{database, Database};
use crate::store::{prepared, Store};
use crate::traits::HistoryStore;
use crate::types::{optional_text, AppId, Entry, EntryId, EntrySummary, MimeBlob};

verus! {

broadcast use vstd::string::group_string_axioms;

/// A store that may be closed. While it is, every method of [`HistoryStore`]
/// answers [`StoreError::Locked`].
pub struct StoreHandle {
    path: Option<String>,
    store: Option<Store>,
}

impl StoreHandle {
    /// The path that the handle can be opened at.
    pub closed spec fn path(&self) -> Option<Seq<char>> {
        optional_text(self.path)
    }

    /// Wrap a store that is already open. With a `path` the handle can be
    /// opened again later.
    pub fn opened(store: Store, path: Option<String>) -> (r: Self)
        ensures
            r.history() == store.history(),
            r.path() == optional_text(path),
    {
        StoreHandle { path, store: Some(store) }
    }

    /// Start closed, to be opened at `path` later.
    pub fn pending(path: String) -> (r: Self)
        ensures
            r.history() is None,
            r.path() == Some(path@),
    {
        StoreHandle { path: Some(path), store: None }
    }

    /// Open the store at the path of the handle with `passphrase`. A passphrase
    /// that does not match gives `Locked`. A handle without a path stands for a
    /// store in memory, which cannot be opened again. On failure the handle
    /// stays as it was.
    pub fn reopen(&mut self, passphrase: &str) -> (r: Result<(), StoreError>)
        ensures
            final(self).path() == old(self).path(),
            r is Ok ==> old(self).path() is Some && final(self).history() is Some && exists|
                conn: rusqlite::Connection,
            | #[trigger]
                database(conn).fresh && database(conn).path == old(self).path() && prepared(
                    database(conn),
                    final(self).history()->0,
                ),
            r is Ok ==> (final(self).history()->0).path == old(self).path() && (
            final(self).history()->0).key == Some(passphrase@),
            r is Err ==> final(self).history() == old(self).history(),
            old(self).path() is None ==> (r matches Err(StoreError::Db(m)) && m@
                == "in-memory store cannot be reopened"@),
            old(self).path() is Some ==> (r matches Err(e) ==> told_by_database(e)),
    {
        let path = match &self.path {
            Some(p) => p.clone(),
            None => return Err(StoreError::Db("in-memory store cannot be reopened".to_owned())),
        };
        let store = Store::open(path.as_str(), Some(passphrase))?;
        self.store = Some(store);
        Ok(())
    }

    /// Whether the store is open.
    pub fn is_open(&self) -> (r: bool)
        ensures
            r == (self.history() is Some),
    {
        self.store.is_some()
    }
}

impl HistoryStore for StoreHandle {
    closed spec fn history(&self) -> Option<Database> {
        match self.store {
            Some(s) => s.history(),
            None => None,
        }
    }

    fn add_capture(&mut self, targets: Vec<MimeBlob>, source: AppId, max_blob_bytes: u64) -> (r:
        Result<EntryId, StoreError>) {
        match &mut self.store {
            Some(s) => s.add_capture(targets, source, max_blob_bytes),
            None => Err(StoreError::Locked),
        }
    }

    fn query(&mut self, offset: i64, limit: i64, group: Option<i64>) -> (r: Result<
        Vec<EntrySummary>,
        StoreError,
    >) {
        match &mut self.store {
            Some(s) => s.query(offset, limit, group),
            None => Err(StoreError::Locked),
        }
    }

    fn search(&mut self, query: &str, limit: i64) -> (r: Result<Vec<EntrySummary>, StoreError>) {
        match &mut self.store {
            Some(s) => s.search(query, limit),
            None => Err(StoreError::Locked),
        }
    }

    fn get_entry(&mut self, id: EntryId) -> (r: Result<Option<Entry>, StoreError>) {
        match &mut self.store {
            Some(s) => s.get_entry(id),
            None => Err(StoreError::Locked),
        }
    }

    fn delete(&mut self, ids: &[EntryId]) -> (r: Result<(), StoreError>) {
        match &mut self.store {
            Some(s) => s.delete(ids),
            None => Err(StoreError::Locked),
        }
    }

    fn set_pinned(&mut self, id: EntryId, pinned: bool) -> (r: Result<(), StoreError>) {
        match &mut self.store {
            Some(s) => s.set_pinned(id, pinned),
            None => Err(StoreError::Locked),
        }
    }

    fn set_group(&mut self, id: EntryId, group: Option<i64>) -> (r: Result<(), StoreError>) {
        match &mut self.store {
            Some(s) => s.set_group(id, group),
            None => Err(StoreError::Locked),
        }
    }

    fn clear(&mut self) -> (r: Result<(), StoreError>) {
        match &mut self.store {
            Some(s) => s.clear(),
            None => Err(StoreError::Locked),
        }
    }

    fn bump_use_count(&mut self, id: EntryId) -> (r: Result<(), StoreError>) {
        match &mut self.store {
            Some(s) => s.bump_use_count(id),
            None => Err(StoreError::Locked),
        }
    }

    fn count(&mut self) -> (r: Result<i64, StoreError>) {
        match &mut self.store {
            Some(s) => s.count(),
            None => Err(StoreError::Locked),
        }
    }

    fn prune(&mut self, max_entries: i64, retention_days: Option<i64>) -> (r: Result<
        i64,
        StoreError,
    >) {
        match &mut self.store {
            Some(s) => s.prune(max_entries, retention_days),
            None => Err(StoreError::Locked),
        }
    }
}

} // verus!
