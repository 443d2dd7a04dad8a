//! The database under the history store: what a SQLite connection holds, the
//! statements that are run on it, and the calls into `rusqlite` that run them.
//!
//! Every statement is given by its text. What it does, or answers, is stated
//! for a database that this module owns: one whose tables [`SCHEMA_V1`] created,
//! whose rows only these statements wrote, and that no other connection writes
//! while this one is open.

use rusqlite::types::{Type, Value};
use rusqlite::{params_from_iter, ToSql};

use vstd::prelude::*;
use vstd::multiset::Multiset;

verus! {

/// An open SQLite connection.
#[verifier::external_type_specification]
#[verifier::external_body]
pub struct ExConnection(rusqlite::Connection);

/// An error that `rusqlite` reports.
#[verifier::external_type_specification]
#[verifier::external_body]
pub struct ExError(rusqlite::Error);

/// A row of `entries`, without its id.
pub struct EntryRow {
    pub ts: i64,
    pub pinned: i64,
    pub group_id: Option<i64>,
    pub origin: Option<Seq<char>>,
    pub use_count: i64,
    pub preview_kind: Seq<char>,
    pub deleted: i64,
    pub size_bytes: i64,
}

/// The rows of the tables.
pub struct Tables {
    /// `entries`, by id.
    pub entries: Map<i64, EntryRow>,
    /// `targets`: the blob of each entry and mime.
    pub targets: Map<(i64, Seq<char>), Seq<u8>>,
    /// `entries_fts`: the entry and the content of each indexed row.
    pub index: Multiset<(i64, Seq<char>)>,
    /// The ids in `groups`.
    pub groups: Set<i64>,
    /// `meta`: the value of each key.
    pub meta: Map<Seq<char>, Seq<char>>,
}

/// Tables without rows.
pub open spec fn no_rows() -> Tables {
    Tables {
        entries: Map::empty(),
        targets: Map::empty(),
        index: Multiset::empty(),
        groups: Set::empty(),
        meta: Map::empty(),
    }
}

/// What is known of the database behind a connection.
pub enum Origin {
    /// Nothing.
    Unknown,
    /// No other connection writes it, and it has no table but, perhaps, `meta`.
    Blank,
    /// [`SCHEMA_V1`] created its tables, only the statements of this module
    /// wrote their rows, and no other connection writes it.
    Own,
}

/// The state of a connection.
pub struct Database {
    pub origin: Origin,
    /// What the tables hold, as this connection sees them.
    pub tables: Tables,
    /// While a transaction is open: what the tables held when it began.
    pub saved: Option<Tables>,
    /// The rowid of the latest row that was inserted.
    pub last_rowid: i64,
    /// Whether nothing has been run on the connection yet.
    pub fresh: bool,
    /// How many calls on the connection have failed: every call below that
    /// gives back an error counts as at least one.
    pub faults: nat,
    /// The passphrase of the latest `PRAGMA key` that was run, if any was.
    pub key: Option<Seq<char>>,
    /// The path that the connection was opened at, if it was opened at one.
    pub path: Option<Seq<char>>,
}

/// What holds of the tables of an owned database at all times: there are
/// finitely many entries, none is marked as deleted, and every target belongs
/// to an entry.
pub open spec fn sound(t: Tables) -> bool {
    &&& t.entries.dom().finite()
    &&& forall|id: i64| #[trigger] t.entries.contains_key(id) ==> t.entries[id].deleted == 0
    &&& forall|k: (i64, Seq<char>)| #[trigger]
        t.targets.contains_key(k) ==> t.entries.contains_key(k.0)
}

impl Database {
    /// The database is owned, its tables are sound and no transaction is open.
    pub open spec fn ready(self) -> bool {
        self.origin is Own && self.saved is None && sound(self.tables)
    }
}

/// The state of the connection `conn`.
pub uninterp spec fn database(conn: rusqlite::Connection) -> Database;

/// A value that is bound to a statement.
pub enum Param {
    Null,
    Integer(i64),
    Text(String),
    Blob(Vec<u8>),
}

/// A value in a row that a statement answers with.
#[derive(Debug, PartialEq, Eq)]
pub enum Cell {
    Null,
    Integer(i64),
    Real,
    Text(String),
    Blob(Vec<u8>),
}

/// A SQLite value. Of a real number only its kind is kept.
pub enum Datum {
    Null,
    Integer(i64),
    Real,
    Text(Seq<char>),
    Blob(Seq<u8>),
}

impl View for Param {
    type V = Datum;

    open spec fn view(&self) -> Datum {
        match *self {
            Param::Null => Datum::Null,
            Param::Integer(n) => Datum::Integer(n),
            Param::Text(s) => Datum::Text(s@),
            Param::Blob(b) => Datum::Blob(b@),
        }
    }
}

impl View for Cell {
    type V = Datum;

    open spec fn view(&self) -> Datum {
        match *self {
            Cell::Null => Datum::Null,
            Cell::Integer(n) => Datum::Integer(n),
            Cell::Real => Datum::Real,
            Cell::Text(s) => Datum::Text(s@),
            Cell::Blob(b) => Datum::Blob(b@),
        }
    }
}

/// The values that are bound to a statement.
pub open spec fn bound(params: Seq<Param>) -> Seq<Datum> {
    params.map_values(|p: Param| p@)
}

/// The values of a row.
pub open spec fn row_data(row: Vec<Cell>) -> Seq<Datum> {
    row@.map_values(|c: Cell| c@)
}

/// The values of the rows.
pub open spec fn rows_data(rows: Seq<Vec<Cell>>) -> Seq<Seq<Datum>> {
    rows.map_values(|row: Vec<Cell>| row_data(row))
}

/// The values of bound texts.
pub open spec fn texts_data(texts: Seq<String>) -> Seq<Seq<char>> {
    texts.map_values(|s: String| s@)
}

/// An optional integer as a SQLite value.
pub open spec fn integer_or_null(n: Option<i64>) -> Datum {
    match n {
        Some(k) => Datum::Integer(k),
        None => Datum::Null,
    }
}

/// An optional text as a SQLite value.
pub open spec fn text_or_null(s: Option<Seq<char>>) -> Datum {
    match s {
        Some(t) => Datum::Text(t),
        None => Datum::Null,
    }
}

// ---- statements that change the tables ----

/// Create `meta`.
pub const CREATE_META: &'static str =
    "CREATE TABLE IF NOT EXISTS meta (key TEXT PRIMARY KEY, value TEXT NOT NULL);";

/// Create the tables of the first schema version.
pub const SCHEMA_V1: &'static str = "
        CREATE TABLE IF NOT EXISTS groups (
            id    INTEGER PRIMARY KEY,
            name  TEXT NOT NULL UNIQUE,
            icon  TEXT,
            pos   INTEGER NOT NULL DEFAULT 0
        );

        CREATE TABLE IF NOT EXISTS entries (
            id           INTEGER PRIMARY KEY,
            ts           INTEGER NOT NULL,
            pinned       INTEGER NOT NULL DEFAULT 0,
            group_id     INTEGER REFERENCES groups(id),
            origin       TEXT,
            use_count    INTEGER NOT NULL DEFAULT 1,
            preview_kind TEXT NOT NULL DEFAULT 'text',
            deleted      INTEGER NOT NULL DEFAULT 0,
            size_bytes   INTEGER NOT NULL DEFAULT 0
        );
        CREATE INDEX IF NOT EXISTS idx_entries_ts ON entries(ts DESC);
        CREATE INDEX IF NOT EXISTS idx_entries_group ON entries(group_id);

        CREATE TABLE IF NOT EXISTS targets (
            entry_id INTEGER NOT NULL REFERENCES entries(id) ON DELETE CASCADE,
            mime     TEXT NOT NULL,
            blob     BLOB NOT NULL,
            PRIMARY KEY (entry_id, mime)
        );

        CREATE VIRTUAL TABLE IF NOT EXISTS entries_fts USING fts5(
            entry_id UNINDEXED,
            content,
            tokenize = 'unicode61 remove_diacritics 2'
        );

        CREATE TABLE IF NOT EXISTS entry_tags (
            entry_id INTEGER NOT NULL REFERENCES entries(id) ON DELETE CASCADE,
            tag      TEXT NOT NULL,
            PRIMARY KEY (entry_id, tag)
        );
        ";

/// Begin a transaction.
pub const BEGIN: &'static str = "BEGIN DEFERRED";

/// Keep what the open transaction did.
pub const COMMIT: &'static str = "COMMIT";

/// Undo what the open transaction did.
pub const ROLLBACK: &'static str = "ROLLBACK";

/// Record the schema version.
pub const SET_VERSION: &'static str =
    "INSERT INTO meta (key, value) VALUES ('schema_version', ?1)
         ON CONFLICT(key) DO UPDATE SET value = excluded.value";

/// Insert an entry: time, origin, preview kind, size.
pub const INSERT_ENTRY: &'static str =
    "INSERT INTO entries (ts, pinned, group_id, origin, use_count, preview_kind, deleted, size_bytes)
         VALUES (?1, 0, NULL, ?2, 1, ?3, 0, ?4)";

/// Store a target of an entry, in place of one with the same mime.
pub const PUT_TARGET: &'static str =
    "INSERT OR REPLACE INTO targets (entry_id, mime, blob) VALUES (?1, ?2, ?3)";

/// Index the text of an entry.
pub const PUT_INDEX: &'static str =
    "INSERT INTO entries_fts (rowid, entry_id, content) VALUES (NULL, ?1, ?2)";

/// Count one more use of an entry.
pub const BUMP_USE: &'static str = "UPDATE entries SET use_count = use_count + 1 WHERE id = ?1";

/// Set whether an entry is pinned.
pub const SET_PINNED: &'static str =
    "UPDATE entries SET pinned = ?1 WHERE id = ?2 AND deleted = 0";

/// Set the group of an entry.
pub const SET_GROUP: &'static str =
    "UPDATE entries SET group_id = ?1 WHERE id = ?2 AND deleted = 0";

/// Forget the indexed text of an entry.
pub const DROP_INDEX: &'static str = "DELETE FROM entries_fts WHERE entry_id = ?1";

/// Delete the targets of an entry.
pub const DROP_TARGETS: &'static str = "DELETE FROM targets WHERE entry_id = ?1";

/// Delete an entry.
pub const DROP_ENTRY: &'static str = "DELETE FROM entries WHERE id = ?1";

/// Delete the unpinned entries from before a time.
pub const EXPIRE: &'static str = "DELETE FROM entries WHERE pinned = 0 AND ts < ?1";

/// Forget all indexed text.
pub const CLEAR_INDEX: &'static str = "DELETE FROM entries_fts";

/// Delete all targets.
pub const CLEAR_TARGETS: &'static str = "DELETE FROM targets";

/// Delete all entries.
pub const CLEAR_ENTRIES: &'static str = "DELETE FROM entries";

// ---- statements that read the tables ----

/// The schema version, as text.
pub const GET_VERSION: &'static str = "SELECT value FROM meta WHERE key = 'schema_version'";

/// How many keys `meta` holds.
pub const COUNT_META: &'static str = "SELECT count(*) FROM meta";

/// The id of the newest entry.
pub const LATEST: &'static str =
    "SELECT id FROM entries WHERE deleted = 0 ORDER BY ts DESC, id DESC LIMIT 1";

/// The targets of an entry.
pub const TARGETS_OF: &'static str = "SELECT mime, blob FROM targets WHERE entry_id = ?1";

/// The metadata of one entry.
pub const GET_ENTRY: &'static str =
    "SELECT id, ts, pinned, group_id, origin, use_count, preview_kind, size_bytes
             FROM entries WHERE id = ?1 AND deleted = 0";

/// A page of the history, newest first, with plain text for the preview.
pub const LIST_ALL: &'static str =
    "SELECT e.id, e.ts, e.pinned, e.group_id, e.origin, e.use_count, e.preview_kind, e.size_bytes,
                 (SELECT t.blob FROM targets t WHERE t.entry_id = e.id
                     AND (t.mime='text/plain' OR t.mime='text/plain;charset=utf-8')
                   ORDER BY t.mime LIMIT 1)
                 FROM entries e
                 WHERE e.deleted = 0
                 ORDER BY e.ts DESC, e.id DESC LIMIT ?1 OFFSET ?2";

/// A page of one group, newest first, with plain text for the preview.
pub const LIST_GROUP: &'static str =
    "SELECT e.id, e.ts, e.pinned, e.group_id, e.origin, e.use_count, e.preview_kind, e.size_bytes,
                 (SELECT t.blob FROM targets t WHERE t.entry_id = e.id
                     AND (t.mime='text/plain' OR t.mime='text/plain;charset=utf-8')
                   ORDER BY t.mime LIMIT 1)
                 FROM entries e
                 WHERE e.deleted = 0 AND e.group_id = ?1
                 ORDER BY e.ts DESC, e.id DESC LIMIT ?2 OFFSET ?3";

/// The entries whose indexed text matches a pattern, best match first.
pub const SEARCH: &'static str =
    "SELECT e.id, e.ts, e.pinned, e.group_id, e.origin, e.use_count, e.preview_kind, e.size_bytes,
                 (SELECT t.blob FROM targets t WHERE t.entry_id = e.id
                     AND (t.mime='text/plain' OR t.mime='text/plain;charset=utf-8')
                   ORDER BY t.mime LIMIT 1)
                 FROM (SELECT entry_id, min(rank) AS relevance FROM entries_fts
                       WHERE entries_fts MATCH ?1 GROUP BY entry_id) f
                 JOIN entries e ON e.id = f.entry_id AND e.deleted = 0
                 ORDER BY f.relevance ASC, e.ts DESC LIMIT ?2";

/// How many entries there are.
pub const COUNT: &'static str = "SELECT count(*) FROM entries WHERE deleted = 0";

/// The oldest unpinned entries.
pub const OLDEST: &'static str =
    "SELECT id FROM entries WHERE deleted = 0 AND pinned = 0
                     ORDER BY ts ASC, id ASC LIMIT ?1";

// ---- what the statements do ----

/// The connection is still to the database that it was opened at, with the same
/// key.
pub open spec fn same_place(before: Database, after: Database) -> bool {
    after.path == before.path && after.key == before.key
}

/// Nothing failed, and only the tables changed, to `tables`.
pub open spec fn changed_to(before: Database, after: Database, tables: Tables) -> bool {
    &&& after.origin == before.origin
    &&& after.saved == before.saved
    &&& after.tables == tables
    &&& after.faults == before.faults
    &&& same_place(before, after)
}

/// No row changed.
pub open spec fn same_rows(before: Database, after: Database) -> bool {
    &&& after.origin == before.origin
    &&& after.saved == before.saved
    &&& after.tables == before.tables
    &&& after.faults >= before.faults
}

/// A statement failed: it left no trace, or the database undid the whole open
/// transaction.
pub open spec fn left_no_trace(before: Database, after: Database) -> bool {
    &&& after.faults > before.faults
    &&& same_place(before, after)
    &&& after.origin == before.origin
    &&& (after.saved == before.saved && after.tables == before.tables) || (before.saved is Some
        && after.saved is None && after.tables == before.saved->0)
}

/// What reading does: nothing if it succeeds, and else no more than a failure.
pub open spec fn only_read(before: Database, after: Database, ok: bool) -> bool {
    if ok {
        changed_to(before, after, before.tables)
    } else {
        left_no_trace(before, after)
    }
}

/// The targets that belong to the entries in `keep`.
pub open spec fn targets_within(
    targets: Map<(i64, Seq<char>), Seq<u8>>,
    keep: Set<i64>,
) -> Map<(i64, Seq<char>), Seq<u8>> {
    targets.restrict(targets.dom().filter(|k: (i64, Seq<char>)| keep.contains(k.0)))
}

/// The tables with only the entries in `keep`. The targets of the others go
/// with them; their indexed text stays.
pub open spec fn keep_entries(t: Tables, keep: Set<i64>) -> Tables {
    Tables {
        entries: t.entries.restrict(keep),
        targets: targets_within(t.targets, keep),
        ..t
    }
}

/// The ids of the entries that [`EXPIRE`] leaves.
pub open spec fn unexpired(t: Tables, cutoff: i64) -> Set<i64> {
    t.entries.dom().filter(|id: i64| !(t.entries[id].pinned == 0 && t.entries[id].ts < cutoff))
}

/// What [`INSERT_ENTRY`] makes a row of.
pub open spec fn new_row(
    ts: i64,
    origin: Option<Seq<char>>,
    kind: Seq<char>,
    size: i64,
) -> EntryRow {
    EntryRow {
        ts,
        pinned: 0,
        group_id: None,
        origin,
        use_count: 1,
        preview_kind: kind,
        deleted: 0,
        size_bytes: size,
    }
}

/// The tables with one more use of the entry `id`, if it is there.
pub open spec fn bumped(t: Tables, id: i64) -> Tables {
    if t.entries.contains_key(id) {
        let row = t.entries[id];
        Tables {
            entries: t.entries.insert(
                id,
                EntryRow { use_count: (row.use_count + 1) as i64, ..row },
            ),
            ..t
        }
    } else {
        t
    }
}

/// The tables with the pin of the entry `id` set to `pinned`, if the entry is
/// there.
pub open spec fn with_pin(t: Tables, id: i64, pinned: i64) -> Tables {
    if live(t).contains(id) {
        Tables {
            entries: t.entries.insert(id, EntryRow { pinned, ..t.entries[id] }),
            ..t
        }
    } else {
        t
    }
}

/// The tables with the group of the entry `id` set to `group`, if the entry is
/// there.
pub open spec fn with_group(t: Tables, id: i64, group: Option<i64>) -> Tables {
    if live(t).contains(id) {
        Tables {
            entries: t.entries.insert(id, EntryRow { group_id: group, ..t.entries[id] }),
            ..t
        }
    } else {
        t
    }
}

/// The tables without the indexed text of the entry `id`.
pub open spec fn without_index(t: Tables, id: i64) -> Tables {
    Tables { index: t.index.filter(|row: (i64, Seq<char>)| row.0 != id), ..t }
}

/// Whether `sql` is one of the statements that change rows.
pub open spec fn is_statement(sql: Seq<char>) -> bool {
    ||| sql == SET_VERSION@
    ||| sql == INSERT_ENTRY@
    ||| sql == PUT_TARGET@
    ||| sql == PUT_INDEX@
    ||| sql == BUMP_USE@
    ||| sql == SET_PINNED@
    ||| sql == SET_GROUP@
    ||| sql == DROP_INDEX@
    ||| sql == DROP_TARGETS@
    ||| sql == DROP_ENTRY@
    ||| sql == EXPIRE@
    ||| sql == CLEAR_INDEX@
    ||| sql == CLEAR_TARGETS@
    ||| sql == CLEAR_ENTRIES@
}

/// Whether `sql` is one of the batches of statements that take no values.
pub open spec fn is_batch(sql: Seq<char>) -> bool {
    ||| sql == CREATE_META@
    ||| sql == SCHEMA_V1@
    ||| sql == BEGIN@
    ||| sql == COMMIT@
    ||| sql == ROLLBACK@
}

/// Whether `id` is the id that a new entry gets: 1 where there is none yet, and
/// else the highest id plus one. Where the ids have run out, it is one that is
/// not taken.
pub open spec fn fresh_id(t: Tables, id: i64) -> bool {
    &&& !t.entries.contains_key(id)
    &&& t.entries.dom() == Set::<i64>::empty() ==> id == 1
    &&& t.entries.dom() != Set::<i64>::empty() && !t.entries.contains_key(i64::MAX) ==> {
        &&& t.entries.contains_key((id - 1) as i64)
        &&& forall|k: i64| #[trigger] t.entries.contains_key(k) ==> k < id
    }
}

/// What running `sql` with the values `p` bound to it did, where it succeeded
/// and said that it changed `n` rows.
pub open spec fn executed(
    sql: Seq<char>,
    p: Seq<Datum>,
    before: Database,
    after: Database,
    n: usize,
) -> bool {
    let t = before.tables;
    &&& sql == INSERT_ENTRY@ && p.len() == 4 && p[0] is Integer && (p[1] is Text || p[1] is Null)
        && p[2] is Text && p[3] is Integer ==> {
        let id = after.last_rowid;
        let origin = if p[1] is Text { Some(p[1]->Text_0) } else { None };
        &&& fresh_id(t, id)
        &&& changed_to(
            before,
            after,
            Tables {
                entries: t.entries.insert(
                    id,
                    new_row(p[0]->Integer_0, origin, p[2]->Text_0, p[3]->Integer_0),
                ),
                ..t
            },
        )
    }
    &&& sql == PUT_TARGET@ && p.len() == 3 && p[0] is Integer && p[1] is Text && p[2] is Blob ==> {
        &&& t.entries.contains_key(p[0]->Integer_0)
        &&& changed_to(
            before,
            after,
            Tables {
                targets: t.targets.insert((p[0]->Integer_0, p[1]->Text_0), p[2]->Blob_0),
                ..t
            },
        )
    }
    &&& sql == PUT_INDEX@ && p.len() == 2 && p[0] is Integer && p[1] is Text ==> changed_to(
        before,
        after,
        Tables { index: t.index.insert((p[0]->Integer_0, p[1]->Text_0)), ..t },
    )
    &&& sql == BUMP_USE@ && p.len() == 1 && p[0] is Integer && (t.entries.contains_key(
        p[0]->Integer_0,
    ) ==> t.entries[p[0]->Integer_0].use_count < i64::MAX) ==> changed_to(
        before,
        after,
        bumped(t, p[0]->Integer_0),
    )
    &&& sql == SET_PINNED@ && p.len() == 2 && p[0] is Integer && p[1] is Integer ==> changed_to(
        before,
        after,
        with_pin(t, p[1]->Integer_0, p[0]->Integer_0),
    )
    &&& sql == SET_GROUP@ && p.len() == 2 && p[0] is Integer && p[1] is Integer ==> {
        &&& live(t).contains(p[1]->Integer_0) ==> t.groups.contains(p[0]->Integer_0)
        &&& changed_to(before, after, with_group(t, p[1]->Integer_0, Some(p[0]->Integer_0)))
    }
    &&& sql == SET_GROUP@ && p.len() == 2 && p[0] is Null && p[1] is Integer ==> changed_to(
        before,
        after,
        with_group(t, p[1]->Integer_0, None),
    )
    &&& sql == DROP_INDEX@ && p.len() == 1 && p[0] is Integer ==> changed_to(
        before,
        after,
        without_index(t, p[0]->Integer_0),
    )
    &&& sql == DROP_TARGETS@ && p.len() == 1 && p[0] is Integer ==> changed_to(
        before,
        after,
        Tables {
            targets: targets_within(t.targets, Set::full().remove(p[0]->Integer_0)),
            ..t
        },
    )
    &&& sql == DROP_ENTRY@ && p.len() == 1 && p[0] is Integer ==> changed_to(
        before,
        after,
        keep_entries(t, t.entries.dom().remove(p[0]->Integer_0)),
    )
    &&& sql == EXPIRE@ && p.len() == 1 && p[0] is Integer ==> {
        let keep = unexpired(t, p[0]->Integer_0);
        let gone = t.entries.dom().difference(keep);
        &&& changed_to(before, after, keep_entries(t, keep))
        &&& gone.len() <= i32::MAX ==> n == gone.len()
    }
    &&& sql == CLEAR_INDEX@ && p.len() == 0 ==> changed_to(
        before,
        after,
        Tables { index: Multiset::empty(), ..t },
    )
    &&& sql == CLEAR_TARGETS@ && p.len() == 0 ==> changed_to(
        before,
        after,
        Tables { targets: Map::empty(), ..t },
    )
    &&& sql == CLEAR_ENTRIES@ && p.len() == 0 ==> changed_to(
        before,
        after,
        keep_entries(t, Set::empty()),
    )
    &&& sql == SET_VERSION@ && p.len() == 1 && p[0] is Text ==> changed_to(
        before,
        after,
        Tables { meta: t.meta.insert("schema_version"@, p[0]->Text_0), ..t },
    )
}

// ---- what the statements answer ----

/// The ids of the entries that are not marked as deleted.
pub open spec fn live(t: Tables) -> Set<i64> {
    t.entries.dom().filter(|id: i64| t.entries[id].deleted == 0)
}

/// Whether the entry `a` comes before `b` in the history: it is newer, or as
/// new with the higher id.
pub open spec fn newer(t: Tables, a: i64, b: i64) -> bool {
    t.entries[a].ts > t.entries[b].ts || (t.entries[a].ts == t.entries[b].ts && a > b)
}

/// Whether `id` is the newest entry.
pub open spec fn is_latest(t: Tables, id: i64) -> bool {
    &&& live(t).contains(id)
    &&& forall|other: i64| #[trigger]
        live(t).contains(other) ==> other == id || newer(t, id, other)
}

/// The type of the target whose text previews the entry `id`, if it has one of
/// the two types of plain text.
pub open spec fn preview_mime(t: Tables, id: i64) -> Option<Seq<char>> {
    if t.targets.contains_key((id, "text/plain"@)) {
        Some("text/plain"@)
    } else if t.targets.contains_key((id, "text/plain;charset=utf-8"@)) {
        Some("text/plain;charset=utf-8"@)
    } else {
        None
    }
}

/// Whether `all` lists the history, or one group of it: each entry once, newest
/// first.
pub open spec fn is_listing(t: Tables, group: Option<i64>, all: Seq<i64>) -> bool {
    &&& all.no_duplicates()
    &&& forall|id: i64| #[trigger]
        all.contains(id) <==> live(t).contains(id) && (group is Some ==> t.entries[id].group_id
            == group)
    &&& forall|i: int, j: int|
        0 <= i < j < all.len() ==> newer(t, #[trigger] all[i], #[trigger] all[j])
}

/// At most `limit` elements of `all`, from position `offset` on.
pub open spec fn page<A>(all: Seq<A>, offset: int, limit: int) -> Seq<A> {
    let from = if offset <= all.len() { offset } else { all.len() as int };
    let to = if from + limit <= all.len() { from + limit } else { all.len() as int };
    all.subrange(from, to)
}

/// The values that [`GET_ENTRY`] answers for the entry `id`.
pub open spec fn entry_cells(t: Tables, id: i64) -> Seq<Datum> {
    let row = t.entries[id];
    seq![
        Datum::Integer(id),
        Datum::Integer(row.ts),
        Datum::Integer(row.pinned),
        integer_or_null(row.group_id),
        text_or_null(row.origin),
        Datum::Integer(row.use_count),
        Datum::Text(row.preview_kind),
        Datum::Integer(row.size_bytes),
    ]
}

/// The values that a listing answers for the entry `id`.
pub open spec fn list_cells(t: Tables, id: i64) -> Seq<Datum> {
    entry_cells(t, id).push(
        match preview_mime(t, id) {
            Some(mime) => Datum::Blob(t.targets[(id, mime)]),
            None => Datum::Null,
        },
    )
}

/// Whether `rows` is the page of the history, or of one group of it.
pub open spec fn lists_page(
    t: Tables,
    group: Option<i64>,
    offset: int,
    limit: int,
    rows: Seq<Seq<Datum>>,
) -> bool {
    exists|all: Seq<i64>| #[trigger] is_listing(t, group, all) && shows(t, page(all, offset, limit), rows)
}

/// Whether `rows` are the values that a listing answers for the entries `part`.
pub open spec fn shows(t: Tables, part: Seq<i64>, rows: Seq<Seq<Datum>>) -> bool {
    &&& rows.len() == part.len()
    &&& forall|i: int| 0 <= i < rows.len() ==> #[trigger] rows[i] == list_cells(t, part[i])
}

/// Whether the full-text index finds `content` by `pattern`.
pub uninterp spec fn fts_match(content: Seq<char>, pattern: Seq<char>) -> bool;

/// Whether `matching` holds of a text that was indexed for the entry `id`.
pub open spec fn indexed(t: Tables, id: i64, matching: spec_fn(Seq<char>) -> bool) -> bool {
    exists|content: Seq<char>| #[trigger] t.index.count((id, content)) > 0 && matching(content)
}

/// Whether `all` are the hits of a search, in some order: each entry once for
/// which a text that is `matching` was indexed.
pub open spec fn are_hits(
    t: Tables,
    matching: spec_fn(Seq<char>) -> bool,
    all: Seq<i64>,
) -> bool {
    &&& all.no_duplicates()
    &&& forall|id: i64| #[trigger]
        all.contains(id) <==> live(t).contains(id) && indexed(t, id, matching)
}

/// Whether `rows` answers a search: the rows for the first `limit` hits, in some
/// order of the hits.
pub open spec fn finds(
    t: Tables,
    matching: spec_fn(Seq<char>) -> bool,
    limit: int,
    rows: Seq<Seq<Datum>>,
) -> bool {
    exists|all: Seq<i64>| #[trigger]
        are_hits(t, matching, all) && shows(t, page(all, 0, limit), rows)
}

/// Whether `rows` are the targets of the entry `id`, each once.
pub open spec fn lists_targets(t: Tables, id: i64, rows: Seq<Seq<Datum>>) -> bool {
    &&& rows.no_duplicates()
    &&& forall|i: int|
        0 <= i < rows.len() ==> {
            let row = #[trigger] rows[i];
            &&& row.len() == 2
            &&& row[0] is Text
            &&& row[1] is Blob
            &&& t.targets.contains_key((id, row[0]->Text_0))
            &&& t.targets[(id, row[0]->Text_0)] == row[1]->Blob_0
        }
    &&& forall|mime: Seq<char>| #[trigger]
        t.targets.contains_key((id, mime)) ==> rows.contains(
            seq![Datum::Text(mime), Datum::Blob(t.targets[(id, mime)])],
        )
}

/// Whether `all` are the unpinned entries, oldest first.
pub open spec fn oldest_first(t: Tables, all: Seq<i64>) -> bool {
    &&& all.no_duplicates()
    &&& forall|id: i64| #[trigger]
        all.contains(id) <==> live(t).contains(id) && t.entries[id].pinned == 0
    &&& forall|i: int, j: int|
        0 <= i < j < all.len() ==> newer(t, #[trigger] all[j], #[trigger] all[i])
}

/// Whether `rows` are the `limit` oldest unpinned entries, or all of them where
/// there are fewer.
pub open spec fn lists_oldest(t: Tables, limit: int, rows: Seq<Seq<Datum>>) -> bool {
    exists|all: Seq<i64>| #[trigger]
        oldest_first(t, all) && shows_ids(page(all, 0, limit), rows)
}

/// Whether `rows` hold the ids `part`, one each.
pub open spec fn shows_ids(part: Seq<i64>, rows: Seq<Seq<Datum>>) -> bool {
    &&& rows.len() == part.len()
    &&& forall|i: int| 0 <= i < rows.len() ==> #[trigger] rows[i] == seq![Datum::Integer(part[i])]
}

/// Whether `sql` is one of the statements that read rows.
pub open spec fn is_question(sql: Seq<char>) -> bool {
    ||| sql == GET_VERSION@
    ||| sql == COUNT_META@
    ||| sql == LATEST@
    ||| sql == TARGETS_OF@
    ||| sql == GET_ENTRY@
    ||| sql == LIST_ALL@
    ||| sql == LIST_GROUP@
    ||| sql == SEARCH@
    ||| sql == COUNT@
    ||| sql == OLDEST@
}

/// What `sql`, other than [`SEARCH`], answers on the tables `t`, with first the
/// texts and then the integers bound to it.
pub open spec fn answered(
    sql: Seq<char>,
    texts: Seq<Seq<char>>,
    ints: Seq<i64>,
    t: Tables,
    rows: Seq<Seq<Datum>>,
) -> bool {
    &&& sql == GET_VERSION@ && texts.len() == 0 && ints.len() == 0 ==> {
        if t.meta.contains_key("schema_version"@) {
            rows == seq![seq![Datum::Text(t.meta["schema_version"@])]]
        } else {
            rows.len() == 0
        }
    }
    &&& sql == COUNT_META@ && texts.len() == 0 && ints.len() == 0 ==> {
        &&& rows.len() == 1
        &&& rows[0].len() == 1
        &&& rows[0][0] is Integer
        &&& t.meta.dom().len() <= i64::MAX ==> rows[0][0]->Integer_0 == t.meta.dom().len()
    }
    &&& sql == LATEST@ && texts.len() == 0 && ints.len() == 0 ==> {
        if live(t).is_empty() {
            rows.len() == 0
        } else {
            &&& rows.len() == 1
            &&& rows[0].len() == 1
            &&& rows[0][0] is Integer
            &&& is_latest(t, rows[0][0]->Integer_0)
        }
    }
    &&& sql == TARGETS_OF@ && texts.len() == 0 && ints.len() == 1 ==> lists_targets(
        t,
        ints[0],
        rows,
    )
    &&& sql == GET_ENTRY@ && texts.len() == 0 && ints.len() == 1 ==> {
        if live(t).contains(ints[0]) {
            rows == seq![entry_cells(t, ints[0])]
        } else {
            rows.len() == 0
        }
    }
    &&& sql == LIST_ALL@ && texts.len() == 0 && ints.len() == 2 && ints[0] >= 0 && ints[1] >= 0
        ==> lists_page(t, None, ints[1] as int, ints[0] as int, rows)
    &&& sql == LIST_GROUP@ && texts.len() == 0 && ints.len() == 3 && ints[1] >= 0 && ints[2] >= 0
        ==> lists_page(t, Some(ints[0]), ints[2] as int, ints[1] as int, rows)
    &&& sql == COUNT@ && texts.len() == 0 && ints.len() == 0 && live(t).len() <= i64::MAX
        ==> rows == seq![seq![Datum::Integer(live(t).len() as i64)]]
    &&& sql == OLDEST@ && texts.len() == 0 && ints.len() == 1 && ints[0] >= 0 ==> lists_oldest(
        t,
        ints[0] as int,
        rows,
    )
}

// ---- calls into rusqlite ----

/// The message of `e`.
pub uninterp spec fn error_text(e: rusqlite::Error) -> Seq<char>;

/// The `Display` text of a `rusqlite::Error`, under the name [`error_text`].
#[verifier::external_body]
pub(crate) fn error_message(e: &rusqlite::Error) -> (r: String)
    ensures
        r@ == error_text(*e),
{
    e.to_string()
}

/// `Connection::open_in_memory`: a new database that is private to the
/// connection, without tables and with no transaction open.
#[verifier::external_body]
pub(crate) fn open_in_memory() -> (r: Result<rusqlite::Connection, rusqlite::Error>)
    ensures
        r matches Ok(conn) ==> database(conn).origin is Blank && database(conn).tables == no_rows()
            && database(conn).saved is None && database(conn).fresh && database(conn).key is None
            && database(conn).path is None,
{
    rusqlite::Connection::open_in_memory()
}

/// `Connection::open`: a connection to the database file at `path`, which is
/// created where there is none. What the file holds, and who else writes it,
/// is not known; the new connection has no transaction open. A connection stays
/// with the path that it was opened at.
#[verifier::external_body]
pub(crate) fn open_file(path: &str) -> (r: Result<rusqlite::Connection, rusqlite::Error>)
    ensures
        r matches Ok(conn) ==> database(conn).saved is None && database(conn).fresh && database(
            conn,
        ).key is None && database(conn).path == Some(path@),
{
    rusqlite::Connection::open(path)
}

/// `Connection::pragma_update`, which runs `PRAGMA name = 'value'`. The pragma
/// `key`, on a connection that nothing has been run on, says how the database is
/// encrypted; write-ahead logging and its synchronization, outside of a
/// transaction, say how it is written. Whether or not they succeed, none of
/// these changes a row. That the pragma `key` was run says that SQLCipher was
/// handed the passphrase, and no more: whether the passphrase fits shows when the
/// database is read.
#[verifier::external_body]
pub(crate) fn pragma_update(conn: &mut rusqlite::Connection, name: &str, value: &str) -> (r: Result<
    (),
    rusqlite::Error,
>)
    ensures
        !(database(*old(conn)).origin is Unknown) && database(*old(conn)).saved is None && ((name@
            == "key"@ && database(*old(conn)).fresh) || (name@ == "journal_mode"@ && value@
            == "WAL"@) || (name@ == "synchronous"@ && value@ == "NORMAL"@)) ==> same_rows(
            database(*old(conn)),
            database(*final(conn)),
        ),
        r is Ok && name@ == "key"@ ==> database(*final(conn)).key == Some(value@),
        name@ == "journal_mode"@ || name@ == "synchronous"@ ==> database(*final(conn)).key
            == database(*old(conn)).key,
        r is Err ==> database(*final(conn)).faults > database(*old(conn)).faults,
        database(*final(conn)).path == database(*old(conn)).path,
{
    conn.pragma_update(None, name, value)
}

/// `Connection::execute_batch`, which runs statements that take no values.
/// [`CREATE_META`] leaves a blank database blank; [`SCHEMA_V1`] makes a blank
/// database an owned one with empty tables; the transaction statements keep or
/// bring back what [`BEGIN`] saw, and one that fails leaves no trace or ends in
/// the undoing of the transaction. An error counts as a failed call. None of them
/// sets a key.
#[verifier::external_body]
pub(crate) fn execute_batch(conn: &mut rusqlite::Connection, sql: &str) -> (r: Result<
    (),
    rusqlite::Error,
>)
    ensures
        r is Err ==> database(*final(conn)).faults > database(*old(conn)).faults,
        is_batch(sql@) ==> database(*final(conn)).key == database(*old(conn)).key,
        database(*final(conn)).path == database(*old(conn)).path,
        r is Ok && sql@ == CREATE_META@ && !(database(*old(conn)).origin is Unknown) ==> changed_to(
            database(*old(conn)),
            database(*final(conn)),
            database(*old(conn)).tables,
        ),
        r is Ok && sql@ == SCHEMA_V1@ && database(*old(conn)).origin is Blank ==> database(
            *final(conn),
        ).origin is Own && database(*final(conn)).saved == database(*old(conn)).saved && database(
            *final(conn),
        ).tables == (Tables { meta: database(*old(conn)).tables.meta, ..no_rows() }) && database(
            *final(conn),
        ).faults == database(*old(conn)).faults,
        r is Ok && sql@ == SCHEMA_V1@ && database(*old(conn)).origin is Own ==> changed_to(
            database(*old(conn)),
            database(*final(conn)),
            database(*old(conn)).tables,
        ),
        database(*old(conn)).origin is Own && sql@ == BEGIN@ ==> match r {
            Ok(_) => database(*old(conn)).saved is None && database(*final(conn)).origin is Own
                && database(*final(conn)).tables == database(*old(conn)).tables && database(
                *final(conn),
            ).saved == Some(database(*old(conn)).tables) && database(*final(conn)).faults
                == database(*old(conn)).faults,
            Err(_) => left_no_trace(database(*old(conn)), database(*final(conn))),
        },
        database(*old(conn)).origin is Own && sql@ == COMMIT@ ==> match r {
            Ok(_) => database(*final(conn)).origin is Own && database(*final(conn)).tables
                == database(*old(conn)).tables && database(*final(conn)).saved is None && database(
                *final(conn),
            ).faults == database(*old(conn)).faults,
            Err(_) => left_no_trace(database(*old(conn)), database(*final(conn))),
        },
        database(*old(conn)).origin is Own && sql@ == ROLLBACK@ ==> match r {
            Ok(_) => database(*old(conn)).saved is Some && database(*final(conn)).origin is Own
                && database(*final(conn)).tables == database(*old(conn)).saved->0 && database(
                *final(conn),
            ).saved is None && database(*final(conn)).faults == database(*old(conn)).faults,
            Err(_) => left_no_trace(database(*old(conn)), database(*final(conn))),
        },
{
    conn.execute_batch(sql)
}

/// `Connection::execute`, which runs one statement with `params` bound to it
/// and says how many rows it changed. On an owned database a statement of this
/// module does what [`executed`] says, and one that fails leaves no trace or
/// ends in the undoing of the transaction; on a blank database that holds of
/// [`SET_VERSION`]. None of them sets a key.
#[verifier::external_body]
pub(crate) fn execute(conn: &mut rusqlite::Connection, sql: &str, params: Vec<Param>) -> (r: Result<
    usize,
    rusqlite::Error,
>)
    ensures
        database(*old(conn)).origin is Own || (database(*old(conn)).origin is Blank && sql@
            == SET_VERSION@) ==> match r {
            Ok(n) => executed(
                sql@,
                bound(params@),
                database(*old(conn)),
                database(*final(conn)),
                n,
            ),
            Err(_) => is_statement(sql@) ==> left_no_trace(
                database(*old(conn)),
                database(*final(conn)),
            ),
        },
        is_statement(sql@) ==> database(*final(conn)).key == database(*old(conn)).key,
        database(*final(conn)).path == database(*old(conn)).path,
{
    let values = params.into_iter().map(
        |p|
            match p {
                Param::Null => Value::Null,
                Param::Integer(n) => Value::Integer(n),
                Param::Text(s) => Value::Text(s),
                Param::Blob(b) => Value::Blob(b),
            },
    );
    conn.execute(sql, params_from_iter(values))
}

/// `Connection::prepare` and `Statement::query_map`: the rows that a statement
/// answers with, first the texts and then the integers bound to it. On an owned
/// database a question of this module changes nothing and answers what
/// [`answered`] says, and one that fails leaves no trace or ends in the undoing
/// of the transaction; on a blank database that holds of [`GET_VERSION`]. For a
/// pattern that begins with a quoted string, [`SEARCH`] answers with the rows of
/// the entries whose indexed text [`fts_match`] finds. The relevance by which it
/// orders them is a floating-point number, and that order is left open. No
/// question sets a key.
#[verifier::external_body]
pub(crate) fn query(
    conn: &mut rusqlite::Connection,
    sql: &str,
    texts: &Vec<String>,
    ints: &Vec<i64>,
) -> (r: Result<Vec<Vec<Cell>>, rusqlite::Error>)
    ensures
        (database(*old(conn)).origin is Own && is_question(sql@)) || (database(*old(conn)).origin
            is Blank && sql@ == GET_VERSION@) ==> match r {
            Ok(rows) => changed_to(
                database(*old(conn)),
                database(*final(conn)),
                database(*old(conn)).tables,
            ) && answered(
                sql@,
                texts_data(texts@),
                ints@,
                database(*old(conn)).tables,
                rows_data(rows@),
            ),
            Err(_) => left_no_trace(database(*old(conn)), database(*final(conn))),
        },
        database(*old(conn)).origin is Own && sql@ == SEARCH@ && texts@.len() == 1
            && texts@[0]@.len() > 0 && texts@[0]@[0] == '"' && ints@.len() == 1 && ints@[0] >= 0
            ==> (r matches Ok(rows) ==> finds(
            database(*old(conn)).tables,
            |content: Seq<char>| fts_match(content, texts@[0]@),
            ints@[0] as int,
            rows_data(rows@),
        )),
        is_question(sql@) ==> database(*final(conn)).key == database(*old(conn)).key,
        database(*final(conn)).path == database(*old(conn)).path,
{
    let mut stmt = conn.prepare(sql)?;
    let width = stmt.column_count();
    let first = texts.iter().map(|s| s as &dyn ToSql);
    let values = first.chain(ints.iter().map(|n| n as &dyn ToSql));
    let rows = stmt.query_map(params_from_iter(values), |row| {
        (0..width).map(|i| Ok(match row.get_ref(i)?.data_type() {
            Type::Null => Cell::Null,
            Type::Integer => Cell::Integer(row.get(i)?),
            Type::Real => Cell::Real,
            Type::Text => Cell::Text(row.get(i)?),
            Type::Blob => Cell::Blob(row.get(i)?),
        })).collect()
    })?;
    rows.collect()
}

/// `Connection::last_insert_rowid`.
#[verifier::external_body]
pub(crate) fn last_insert_rowid(conn: &rusqlite::Connection) -> (r: i64)
    ensures
        r == database(*conn).last_rowid,
{
    conn.last_insert_rowid()
}

} // verus!
