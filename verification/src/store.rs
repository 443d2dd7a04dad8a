//! The persistent history store: SQLite with a full-text index, encrypted at
//! rest with SQLCipher. The key derivation is SQLCipher's own, with its salt
//! for each database.

use vstd::prelude::*;
use vstd::set_lib::*;
use vstd::string::*;

use crate::clock::unix_millis;
use crate::content::{decode_or_empty, pattern_begins_quoted, sanitize_fts, strip_html};
use crate::errors::{db_err, told_by_database, StoreError};
use crate::history::{
    answers_search, are_hits_of, captured, clamped, cleared, countable, cutoff_of, distinct_mimes,
    excess, expired, failed, flag, has_mime, index_line, index_text, is_entry, is_page, kept,
    latest_countable, lemma_expired, lemma_kept_step, lemma_oldest_first_exists,
    lemma_oldest_first_len, lemma_surplus, lemma_without_len, lemma_without_none, pruned,
    pruned_now, put_all, recorded, repeats, same_targets, stored_size, summaries, summarizes,
    summary_of, surplus, targets_listed, without_all,
};
use crate::laws::{capture_keeps_sound, changes_keep_sound, prune_keeps_sound};
use crate::rows::{
    integer_at, row_to_meta, rows_to_summaries, rows_to_targets, single_integer, summary_of_cells,
    target_of_cells,
};
use crate::schema::{migrate, migrated, with_version, CURRENT_VERSION};
use crate::sql::{
    answered, are_hits, bound, bumped, changed_to, database, entry_cells, execute, execute_batch,
    executed, fresh_id, fts_match, integer_or_null, is_latest, is_listing, is_question,
    is_statement, keep_entries, last_insert_rowid, left_no_trace, list_cells, lists_oldest,
    lists_page, lists_targets, live, new_row, no_rows, oldest_first, only_read, open_file,
    open_in_memory, page, pragma_update, query, row_data, rows_data, same_place, same_rows, shows,
    shows_ids, sound, targets_within, text_or_null, texts_data, unexpired, with_group, with_pin,
    without_index, Cell, Database, Datum, Param, Tables, BEGIN, BUMP_USE, CLEAR_ENTRIES,
    CLEAR_INDEX, CLEAR_TARGETS, COMMIT, COUNT, COUNT_META, DROP_ENTRY, DROP_INDEX, DROP_TARGETS,
    EXPIRE, GET_ENTRY, INSERT_ENTRY, LATEST, LIST_ALL, LIST_GROUP, OLDEST, PUT_INDEX, PUT_TARGET,
    ROLLBACK, SEARCH, SET_GROUP, SET_PINNED, TARGETS_OF,
};
use crate::text::{eq_ignore_ascii_case, is_blank};
use crate::traits::HistoryStore;
use crate::types::{
    holds_target, is_plain_mime, kind_name, position_of, values, AppId, Entry, EntryId,
    EntrySummary, MimeBlob, PreviewKind, Summary, Target, UnixMillis,
};

verus! {

broadcast use vstd::string::group_string_axioms;

/// Configuration for opening a store.
#[derive(Debug, Clone)]
pub struct StoreConfig {
    pub max_blob_bytes: u64,
}

impl Default for StoreConfig {
    /// Targets of up to 50 MiB.
    fn default() -> (r: Self)
        ensures
            r.max_blob_bytes == 50 * 1024 * 1024,
    {
        StoreConfig { max_blob_bytes: 52_428_800 }
    }
}

/// The history store, on one connection.
pub struct Store {
    conn: rusqlite::Connection,
}

impl Store {
    /// The state of the store's database.
    pub closed spec fn database(&self) -> Database {
        database(self.conn)
    }

    /// Open (and migrate) a store at `path`. With a passphrase the database is
    /// opened as an encrypted one: an existing database must match it, and a
    /// new one takes it as its key. A passphrase that does not match is
    /// reported as `Locked`. What the file holds is not known here; what follows
    /// from it, and when opening it fails, [`prepare`] states.
    pub fn open(path: &str, passphrase: Option<&str>) -> (r: Result<Self, StoreError>)
        ensures
            r matches Ok(s) ==> exists|conn: rusqlite::Connection|
                #[trigger] database(conn).fresh && database(conn).path == Some(path@) && prepared(
                    database(conn),
                    s.database(),
                ),
            r matches Ok(s) ==> s.database().path == Some(path@) && s.database().key == key_of(
                passphrase,
            ),
            r matches Err(e) ==> told_by_database(e),
    {
        match open_file(path) {
            Ok(conn) => Store::over(conn, passphrase),
            Err(e) => Err(db_err(e)),
        }
    }

    /// Make a store of a connection that was just opened. A blank database gets
    /// empty tables, and one that such a store made keeps what it holds.
    pub fn over(conn: rusqlite::Connection, passphrase: Option<&str>) -> (r: Result<
        Self,
        StoreError,
    >)
        ensures
            database(conn).fresh ==> (r matches Ok(s) ==> prepared(database(conn), s.database())),
            r matches Ok(s) ==> s.database().key == match key_of(passphrase) {
                Some(p) => Some(p),
                None => database(conn).key,
            },
            r matches Ok(s) ==> s.database().path == database(conn).path,
            r matches Err(e) ==> told_by_database(e),
    {
        let mut conn = conn;
        prepare(&mut conn, passphrase)?;
        Ok(Store { conn })
    }

    /// Open an empty store in memory.
    pub fn open_memory(passphrase: Option<&str>) -> (r: Result<Self, StoreError>)
        ensures
            r matches Ok(s) ==> s.database().ready() && s.database().tables == with_version(
                no_rows(),
                CURRENT_VERSION as int,
            ),
            r matches Ok(s) ==> s.database().path is None && s.database().key == key_of(passphrase),
            r matches Err(e) ==> told_by_database(e),
    {
        let mut conn = match open_in_memory() {
            Ok(conn) => conn,
            Err(e) => return Err(db_err(e)),
        };
        set_key(&mut conn, passphrase)?;
        migrate(&mut conn)?;
        Ok(Store { conn })
    }
}

/// Whether `after` is what a store makes of the database `before`: one without
/// rows gets the current version, and one that such a store made keeps its rows,
/// and is migrated.
pub open spec fn prepared(before: Database, after: Database) -> bool {
    &&& before.origin is Blank && before.saved is None && before.tables == no_rows() ==> {
        &&& after.ready()
        &&& after.tables == with_version(no_rows(), CURRENT_VERSION as int)
    }
    &&& before.ready() ==> {
        &&& after.ready()
        &&& after.tables == migrated(before.tables)
    }
}

/// Make a connection that was just opened ready for a store: say how the database
/// is encrypted, migrate it, and read it once. A blank database gets empty tables,
/// and one that a store made keeps what it holds. Of either, this fails only if
/// the database reports an error.
pub fn prepare(conn: &mut rusqlite::Connection, passphrase: Option<&str>) -> (r: Result<
    (),
    StoreError,
>)
    ensures
        database(*old(conn)).fresh && r is Ok ==> prepared(
            database(*old(conn)),
            database(*final(conn)),
        ),
        database(*old(conn)).fresh && ((database(*old(conn)).origin is Blank && database(
            *old(conn),
        ).saved is None && database(*old(conn)).tables == no_rows()) || database(
            *old(conn),
        ).ready()) && r is Err ==> database(*final(conn)).faults > database(*old(conn)).faults,
        r is Ok ==> database(*final(conn)).key == match key_of(passphrase) {
            Some(p) => Some(p),
            None => database(*old(conn)).key,
        },
        database(*final(conn)).path == database(*old(conn)).path,
        r matches Err(e) ==> told_by_database(e),
{
    set_key(conn, passphrase)?;
    // Tune for a local application that is the only writer.
    let _ = pragma_update(conn, "journal_mode", "WAL");
    let _ = pragma_update(conn, "synchronous", "NORMAL");
    migrate(conn)?;
    // Read once: this finds a wrong passphrase at the latest.
    let rows = rows_of(conn, COUNT_META, Vec::new())?;
    assert(rows_data(rows@).len() == rows@.len());
    single_integer(&rows, "count(*)")?;
    Ok(())
}

/// The key that a passphrase stands for.
pub open spec fn key_of(passphrase: Option<&str>) -> Option<Seq<char>> {
    match passphrase {
        Some(p) => Some(p@),
        None => None,
    }
}

/// Say how the database is encrypted: with the passphrase as its key, or not at
/// all.
fn set_key(conn: &mut rusqlite::Connection, passphrase: Option<&str>) -> (r: Result<
    (),
    StoreError,
>)
    ensures
        !(database(*old(conn)).origin is Unknown) && database(*old(conn)).saved is None && database(
            *old(conn),
        ).fresh ==> same_rows(database(*old(conn)), database(*final(conn))),
        match key_of(passphrase) {
            Some(p) => if r is Ok {
                database(*final(conn)).key == Some(p)
            } else {
                database(*final(conn)).faults > database(*old(conn)).faults
            },
            None => r is Ok && *final(conn) == *old(conn),
        },
        database(*final(conn)).path == database(*old(conn)).path,
        r matches Err(e) ==> told_by_database(e),
{
    if let Some(key) = passphrase {
        match pragma_update(conn, "key", key) {
            Ok(_) => {},
            Err(e) => return Err(db_err(e)),
        }
    }
    Ok(())
}

// ---- statements and transactions ----

/// Whether a statement that failed inside a transaction left no trace, or ended
/// in the undoing of the transaction.
pub open spec fn broke(before: Database, after: Database) -> bool {
    &&& after.faults > before.faults
    &&& same_place(before, after)
    &&& after.origin == before.origin
    &&& after.saved == before.saved || (before.saved is Some && after.saved is None && after.tables
        == before.saved->0)
}

fn run(conn: &mut rusqlite::Connection, sql: &str, params: Vec<Param>) -> (r: Result<
    usize,
    StoreError,
>)
    ensures
        database(*old(conn)).origin is Own ==> match r {
            Ok(n) => executed(
                sql@,
                bound(params@),
                database(*old(conn)),
                database(*final(conn)),
                n,
            ),
            Err(_) => is_statement(sql@) ==> left_no_trace(
                database(*old(conn)),
                database(*final(conn)),
            ),
        },
        r matches Err(e) ==> told_by_database(e),
{
    match execute(conn, sql, params) {
        Ok(n) => Ok(n),
        Err(e) => Err(db_err(e)),
    }
}

fn rows_of(conn: &mut rusqlite::Connection, sql: &str, ints: Vec<i64>) -> (r: Result<
    Vec<Vec<Cell>>,
    StoreError,
>)
    ensures
        database(*old(conn)).origin is Own && is_question(sql@) ==> only_read(
            database(*old(conn)),
            database(*final(conn)),
            r is Ok,
        ) && (r matches Ok(rows) ==> answered(
            sql@,
            Seq::empty(),
            ints@,
            database(*old(conn)).tables,
            rows_data(rows@),
        )),
        is_question(sql@) ==> database(*final(conn)).key == database(*old(conn)).key,
        database(*final(conn)).path == database(*old(conn)).path,
        r matches Err(e) ==> told_by_database(e),
{
    let texts: Vec<String> = Vec::new();
    assert(texts_data(texts@) =~= Seq::<Seq<char>>::empty());
    match query(conn, sql, &texts, &ints) {
        Ok(rows) => Ok(rows),
        Err(e) => Err(db_err(e)),
    }
}

fn begin(conn: &mut rusqlite::Connection) -> (r: Result<(), StoreError>)
    ensures
        database(*old(conn)).ready() ==> match r {
            Ok(_) => database(*final(conn)).origin is Own && database(*final(conn)).tables
                == database(*old(conn)).tables && database(*final(conn)).saved == Some(
                database(*old(conn)).tables,
            ) && database(*final(conn)).faults == database(*old(conn)).faults
                && same_place(database(*old(conn)), database(*final(conn))),
            Err(_) => failed(database(*old(conn)), database(*final(conn))),
        },
        r matches Err(e) ==> told_by_database(e),
{
    match execute_batch(conn, BEGIN) {
        Ok(_) => Ok(()),
        Err(e) => Err(db_err(e)),
    }
}

/// End the open transaction: keep what it did if the work came out well, else
/// undo it.
fn finish<T>(conn: &mut rusqlite::Connection, work: Result<T, StoreError>) -> (r: Result<
    T,
    StoreError,
>)
    requires
        work matches Err(e) ==> told_by_database(e),
    ensures
        forall|before: Database| #[trigger]
            before.ready() && database(*old(conn)).origin is Own && (work is Ok ==> database(
                *old(conn),
            ).saved == Some(before.tables) && database(*old(conn)).faults >= before.faults
                && same_place(before, database(*old(conn)))) && (work is Err ==> failed(
                before,
                database(*old(conn)),
            )) ==> match r {
                Ok(_) => database(*final(conn)).origin is Own && database(*final(conn)).saved
                    is None && database(*final(conn)).tables == database(*old(conn)).tables
                    && database(*final(conn)).faults == database(*old(conn)).faults && same_place(
                    database(*old(conn)),
                    database(*final(conn)),
                ),
                Err(_) => failed(before, database(*final(conn))),
            },
        r matches Ok(v) ==> work == Ok::<T, StoreError>(v),
        r matches Err(e) ==> told_by_database(e),
{
    match work {
        Ok(v) => match execute_batch(conn, COMMIT) {
            Ok(_) => Ok(v),
            Err(e) => {
                let _ = execute_batch(conn, ROLLBACK);
                Err(db_err(e))
            },
        },
        Err(e) => {
            let _ = execute_batch(conn, ROLLBACK);
            Err(e)
        },
    }
}

// ---- reading targets ----

fn stored_targets(conn: &mut rusqlite::Connection, id: EntryId) -> (r: Result<
    Vec<MimeBlob>,
    StoreError,
>)
    ensures
        database(*old(conn)).origin is Own ==> only_read(
            database(*old(conn)),
            database(*final(conn)),
            r is Ok,
        ),
        database(*old(conn)).origin is Own ==> (r matches Ok(list) ==> targets_listed(
            database(*old(conn)).tables,
            id,
            values(list@),
        )),
        r matches Err(e) ==> told_by_database(e),
{
    let mut ints: Vec<i64> = Vec::new();
    ints.push(id);
    assert(ints@ =~= seq![id]);
    let rows = rows_of(conn, TARGETS_OF, ints)?;
    proof {
        let data = rows_data(rows@);
        if database(*old(conn)).origin is Own {
            assert forall|i: int| 0 <= i < data.len() implies target_of_cells(
                #[trigger] data[i],
            ) is Some by {
                assert(data.contains(data[i]));
            }
        }
    }
    let list = rows_to_targets(&rows)?;
    proof {
        if database(*old(conn)).origin is Own {
            lemma_targets_listed(database(*old(conn)).tables, id, rows_data(rows@), values(list@));
        }
    }
    Ok(list)
}

proof fn lemma_targets_listed(t: Tables, id: EntryId, rows: Seq<Seq<Datum>>, list: Seq<Target>)
    requires
        lists_targets(t, id, rows),
        list.len() == rows.len(),
        forall|j: int|
            0 <= j < rows.len() ==> target_of_cells(#[trigger] rows[j]) == Some(list[j]),
    ensures
        targets_listed(t, id, list),
{
    assert forall|j: int| 0 <= j < rows.len() implies (#[trigger] rows[j])[0] == Datum::Text(
        list[j].mime,
    ) && rows[j][1] == Datum::Blob(list[j].bytes) by {
        assert(target_of_cells(rows[j]) == Some(list[j]));
    }
    assert forall|i: int, j: int| 0 <= i < list.len() && 0 <= j < list.len() && i
        != j implies list[i] != list[j] by {
        if list[i] == list[j] {
            assert(rows[i] =~= rows[j]);
        }
    }
    assert forall|x: Target| #[trigger] list.contains(x) <==> t.targets.contains_key((id, x.mime))
        && t.targets[(id, x.mime)] == x.bytes by {
        if list.contains(x) {
            let j = list.index_of(x);
            assert(rows[j][0] == Datum::Text(list[j].mime));
        }
        if t.targets.contains_key((id, x.mime)) && t.targets[(id, x.mime)] == x.bytes {
            let row = seq![Datum::Text(x.mime), Datum::Blob(x.bytes)];
            assert(rows.contains(row));
            let j = rows.index_of(row);
            assert(rows[j] == row);
            assert(row[0] == Datum::Text(x.mime) && row[1] == Datum::Blob(x.bytes));
            assert(list[j] == x);
        }
    }
}

/// Whether `stored` and `targets` are the same targets: none of `targets` has
/// the mime of another, each is stored, and nothing else is.
pub fn holds_exactly(stored: &Vec<MimeBlob>, targets: &Vec<MimeBlob>) -> (r: bool)
    ensures
        r == (distinct_mimes(values(targets@)) && (forall|i: int|
            0 <= i < targets@.len() ==> values(stored@).contains(#[trigger] values(targets@)[i]))
            && (forall|j: int|
            0 <= j < stored@.len() ==> has_mime(
                values(targets@),
                (#[trigger] values(stored@)[j]).mime,
            ))),
{
    let ghost want = values(targets@);
    let ghost have = values(stored@);
    let mut i: usize = 0;
    while i < targets.len()
        invariant
            i <= targets.len(),
            want == values(targets@),
            have == values(stored@),
            forall|a: int, b: int|
                0 <= a < b < i ==> (#[trigger] want[a]).mime != (#[trigger] want[b]).mime,
            forall|a: int| 0 <= a < i ==> have.contains(#[trigger] want[a]),
        decreases targets.len() - i,
    {
        assert(want[i as int] == targets@[i as int]@);
        if !holds_target(stored, &targets[i]) {
            return false;
        }
        match position_of(targets, targets[i].mime.as_str()) {
            Some(at) => {
                if at != i {
                    assert(at > i ==> want[i as int].mime == targets@[i as int].mime@);
                    assert(want[at as int].mime == want[i as int].mime);
                    return false;
                }
            },
            None => {
                return false;
            },
        }
        i += 1;
    }
    let mut j: usize = 0;
    while j < stored.len()
        invariant
            j <= stored.len(),
            want == values(targets@),
            have == values(stored@),
            forall|a: int| 0 <= a < j ==> has_mime(want, (#[trigger] have[a]).mime),
        decreases stored.len() - j,
    {
        assert(have[j as int] == stored@[j as int]@);
        match position_of(targets, stored[j].mime.as_str()) {
            Some(at) => {
                assert(want[at as int].mime == have[j as int].mime);
            },
            None => {
                assert(!has_mime(want, have[j as int].mime));
                return false;
            },
        }
        j += 1;
    }
    true
}

/// Whether the entry `id` holds exactly `targets`.
fn entries_identical(conn: &mut rusqlite::Connection, id: EntryId, targets: &Vec<MimeBlob>) -> (r:
    Result<bool, StoreError>)
    ensures
        database(*old(conn)).origin is Own ==> only_read(
            database(*old(conn)),
            database(*final(conn)),
            r is Ok,
        ),
        database(*old(conn)).origin is Own ==> (r matches Ok(same) ==> same == same_targets(
            database(*old(conn)).tables,
            id,
            values(targets@),
        )),
        r matches Err(e) ==> told_by_database(e),
{
    let stored = stored_targets(conn, id)?;
    let same = holds_exactly(&stored, targets);
    proof {
        let t = database(*old(conn)).tables;
        let have = values(stored@);
        let want = values(targets@);
        if database(*old(conn)).origin is Own {
            if same {
                assert forall|mime: Seq<char>| #[trigger]
                    t.targets.contains_key((id, mime)) implies has_mime(want, mime) by {
                    let x = Target { mime, bytes: t.targets[(id, mime)] };
                    assert(have.contains(x));
                    assert(have[have.index_of(x)].mime == mime);
                }
            }
            if same_targets(t, id, want) {
                assert forall|i: int| 0 <= i < want.len() implies have.contains(
                    #[trigger] want[i],
                ) by {
                    assert(t.targets.contains_key((id, want[i].mime)));
                }
                assert forall|j: int| 0 <= j < have.len() implies has_mime(
                    want,
                    (#[trigger] have[j]).mime,
                ) by {
                    assert(have.contains(have[j]));
                    assert(t.targets.contains_key((id, have[j].mime)));
                }
            }
        }
    }
    Ok(same)
}

/// The newest entry, if there is any.
fn latest_entry_id(conn: &mut rusqlite::Connection) -> (r: Result<Option<EntryId>, StoreError>)
    ensures
        database(*old(conn)).origin is Own ==> only_read(
            database(*old(conn)),
            database(*final(conn)),
            r is Ok,
        ),
        database(*old(conn)).origin is Own ==> match r {
            Ok(Some(id)) => is_latest(database(*old(conn)).tables, id),
            Ok(None) => live(database(*old(conn)).tables).is_empty(),
            Err(_) => true,
        },
        r matches Err(e) ==> told_by_database(e),
{
    let rows = rows_of(conn, LATEST, Vec::new())?;
    assert(rows_data(rows@).len() == rows@.len());
    if rows.len() == 0 {
        return Ok(None);
    }
    assert(rows_data(rows@)[0] == row_data(rows@[0]));
    let id = integer_at(&rows[0], 0, "id")?;
    Ok(Some(id))
}

// ---- adding a capture ----

fn put_entry(
    conn: &mut rusqlite::Connection,
    now: UnixMillis,
    source: &AppId,
    kind: PreviewKind,
    size: i64,
) -> (r: Result<EntryId, StoreError>)
    ensures
        database(*old(conn)).origin is Own ==> match r {
            Ok(id) => fresh_id(database(*old(conn)).tables, id) && changed_to(
                database(*old(conn)),
                database(*final(conn)),
                Tables {
                    entries: database(*old(conn)).tables.entries.insert(
                        id,
                        new_row(now, source@.id, kind_name(kind), size),
                    ),
                    ..database(*old(conn)).tables
                },
            ),
            Err(_) => broke(database(*old(conn)), database(*final(conn))),
        },
        r matches Err(e) ==> told_by_database(e),
{
    let origin = match &source.id {
        Some(s) => Param::Text(s.clone()),
        None => Param::Null,
    };
    let mut params: Vec<Param> = Vec::new();
    params.push(Param::Integer(now));
    params.push(origin);
    params.push(Param::Text(kind.as_str().to_owned()));
    params.push(Param::Integer(size));
    let ghost p = bound(params@);
    assert(p[0] == params@[0]@ && p[1] == params@[1]@ && p[2] == params@[2]@ && p[3]
        == params@[3]@);
    run(conn, INSERT_ENTRY, params)?;
    Ok(last_insert_rowid(conn))
}

fn put_target(conn: &mut rusqlite::Connection, id: EntryId, target: &MimeBlob) -> (r: Result<
    (),
    StoreError,
>)
    ensures
        database(*old(conn)).origin is Own ==> match r {
            Ok(_) => changed_to(
                database(*old(conn)),
                database(*final(conn)),
                Tables {
                    targets: database(*old(conn)).tables.targets.insert(
                        (id, target@.mime),
                        target@.bytes,
                    ),
                    ..database(*old(conn)).tables
                },
            ),
            Err(_) => broke(database(*old(conn)), database(*final(conn))),
        },
        r matches Err(e) ==> told_by_database(e),
{
    let copy = target.clone();
    let mut params: Vec<Param> = Vec::new();
    params.push(Param::Integer(id));
    params.push(Param::Text(copy.mime));
    params.push(Param::Blob(copy.bytes));
    let ghost p = bound(params@);
    assert(p[0] == params@[0]@ && p[1] == params@[1]@ && p[2] == params@[2]@);
    assert(copy@.mime == target@.mime && copy@.bytes == target@.bytes);
    run(conn, PUT_TARGET, params)?;
    Ok(())
}

fn put_index(conn: &mut rusqlite::Connection, id: EntryId, text: String) -> (r: Result<
    (),
    StoreError,
>)
    ensures
        database(*old(conn)).origin is Own ==> match r {
            Ok(_) => changed_to(
                database(*old(conn)),
                database(*final(conn)),
                Tables {
                    index: database(*old(conn)).tables.index.insert((id, text@)),
                    ..database(*old(conn)).tables
                },
            ),
            Err(_) => broke(database(*old(conn)), database(*final(conn))),
        },
        r matches Err(e) ==> told_by_database(e),
{
    let mut params: Vec<Param> = Vec::new();
    params.push(Param::Integer(id));
    params.push(Param::Text(text));
    let ghost p = bound(params@);
    assert(p[0] == params@[0]@ && p[1] == params@[1]@);
    run(conn, PUT_INDEX, params)?;
    Ok(())
}

/// Append what `target` adds to the indexed text.
fn append_line(text: &mut String, target: &MimeBlob)
    ensures
        final(text)@ == old(text)@ + index_line(target@),
{
    if is_plain_mime(target.mime.as_str()) {
        text.append(decode_or_empty(target.bytes.as_slice()));
        text.push('\n');
        assert(text@ =~= old(text)@ + index_line(target@));
    } else if eq_ignore_ascii_case(target.mime.as_str(), "text/html") {
        let stripped = strip_html(decode_or_empty(target.bytes.as_slice()));
        text.append(stripped.as_str());
        text.push('\n');
        assert(text@ =~= old(text)@ + index_line(target@));
    } else {
        assert(text@ =~= old(text)@ + index_line(target@));
    }
}

/// Store the targets of the entry `id` that are no larger than `max` bytes, and
/// give the text to index for them.
fn put_targets(
    conn: &mut rusqlite::Connection,
    id: EntryId,
    targets: &Vec<MimeBlob>,
    max: u64,
) -> (r: Result<String, StoreError>)
    ensures
        database(*old(conn)).origin is Own ==> match r {
            Ok(text) => changed_to(
                database(*old(conn)),
                database(*final(conn)),
                Tables {
                    targets: put_all(
                        database(*old(conn)).tables.targets,
                        id,
                        kept(values(targets@), max),
                    ),
                    ..database(*old(conn)).tables
                },
            ),
            Err(_) => broke(database(*old(conn)), database(*final(conn))),
        },
        r matches Ok(text) ==> text@ == index_text(kept(values(targets@), max)),
        r matches Err(e) ==> told_by_database(e),
{
    let ghost start = database(*conn);
    let ghost all = values(targets@);
    let mut text = String::new();
    proof {
        lemma_kept_step(all, max, 0);
    }
    let mut i: usize = 0;
    while i < targets.len()
        invariant
            i <= targets.len(),
            all == values(targets@),
            start == database(*old(conn)),
            text@ == index_text(kept(all.take(i as int), max)),
            start.origin is Own ==> changed_to(
                start,
                database(*conn),
                Tables {
                    targets: put_all(start.tables.targets, id, kept(all.take(i as int), max)),
                    ..start.tables
                },
            ),
        decreases targets.len() - i,
    {
        proof {
            lemma_kept_step(all, max, i as int);
            assert(all[i as int] == targets@[i as int]@);
        }
        if targets[i].bytes.len() as u64 <= max {
            put_target(conn, id, &targets[i])?;
            append_line(&mut text, &targets[i]);
        }
        i += 1;
    }
    assert(all.take(all.len() as int) == all);
    Ok(text)
}

/// The size that is stored for an entry with these targets.
fn size_to_store(targets: &Vec<MimeBlob>) -> (r: i64)
    ensures
        r == stored_size(values(targets@)),
{
    let ghost all = values(targets@);
    let mut size: i64 = 0;
    let mut i: usize = 0;
    while i < targets.len()
        invariant
            i <= targets.len(),
            all == values(targets@),
            size == stored_size(all.take(i as int)),
        decreases targets.len() - i,
    {
        assert(all.take(i + 1).drop_last() == all.take(i as int));
        assert(all.take(i + 1).last() == targets@[i as int]@);
        size = size.wrapping_add(#[verifier::truncate] (targets[i].bytes.len() as i64));
        i += 1;
    }
    assert(all.take(all.len() as int) == all);
    size
}

/// Add `targets` as a new entry.
fn record(
    conn: &mut rusqlite::Connection,
    targets: &Vec<MimeBlob>,
    source: &AppId,
    max: u64,
    now: UnixMillis,
) -> (r: Result<EntryId, StoreError>)
    ensures
        database(*old(conn)).origin is Own ==> match r {
            Ok(id) => fresh_id(database(*old(conn)).tables, id) && changed_to(
                database(*old(conn)),
                database(*final(conn)),
                recorded(
                    database(*old(conn)).tables,
                    id,
                    values(targets@),
                    source@.id,
                    max,
                    now,
                ),
            ),
            Err(_) => broke(database(*old(conn)), database(*final(conn))),
        },
        r matches Err(e) ==> told_by_database(e),
{
    let kind = PreviewKind::infer(targets.as_slice());
    let size = size_to_store(targets);
    let id = put_entry(conn, now, source, kind, size)?;
    let text = put_targets(conn, id, targets, max)?;
    if !is_blank(text.as_str()) {
        put_index(conn, id, text)?;
    }
    Ok(id)
}

fn bump(conn: &mut rusqlite::Connection, id: EntryId) -> (r: Result<(), StoreError>)
    ensures
        database(*old(conn)).origin is Own && countable(database(*old(conn)).tables, id)
            ==> match r {
            Ok(_) => changed_to(
                database(*old(conn)),
                database(*final(conn)),
                bumped(database(*old(conn)).tables, id),
            ),
            Err(_) => left_no_trace(database(*old(conn)), database(*final(conn))),
        },
        r matches Err(e) ==> told_by_database(e),
{
    let mut params: Vec<Param> = Vec::new();
    params.push(Param::Integer(id));
    let ghost p = bound(params@);
    assert(p[0] == params@[0]@);
    run(conn, BUMP_USE, params)?;
    Ok(())
}

/// Count one more use of the newest entry where `targets` repeat it, else add
/// them as a new entry.
fn bump_or_record(
    conn: &mut rusqlite::Connection,
    targets: &Vec<MimeBlob>,
    source: &AppId,
    max: u64,
    now: UnixMillis,
) -> (r: Result<EntryId, StoreError>)
    ensures
        database(*old(conn)).origin is Own && latest_countable(database(*old(conn)).tables)
            ==> match r {
            Ok(id) => database(*final(conn)).origin is Own && database(*final(conn)).saved
                == database(*old(conn)).saved && captured(
                database(*old(conn)).tables,
                database(*final(conn)).tables,
                values(targets@),
                source@.id,
                max,
                now,
                id,
            ) && database(*final(conn)).faults == database(*old(conn)).faults
                && same_place(database(*old(conn)), database(*final(conn))),
            Err(_) => broke(database(*old(conn)), database(*final(conn))),
        },
        r matches Err(e) ==> told_by_database(e),
{
    let ghost t = database(*conn).tables;
    let ghost want = values(targets@);
    let latest = latest_entry_id(conn)?;
    if let Some(last) = latest {
        if entries_identical(conn, last, targets)? {
            assert(database(*old(conn)).origin is Own ==> repeats(t, last, want));
            bump(conn, last)?;
            return Ok(last);
        }
        proof {
            if database(*old(conn)).origin is Own {
                assert forall|other: EntryId| !repeats(t, other, want) by {
                    if is_latest(t, other) {
                        assert(live(t).contains(other) && live(t).contains(last));
                        assert(other == last);
                    }
                }
            }
        }
    } else {
        assert(database(*old(conn)).origin is Own ==> forall|other: EntryId| !repeats(t, other, want))
            by {
            if database(*old(conn)).origin is Own {
                assert forall|other: EntryId| !repeats(t, other, want) by {
                    assert(!live(t).contains(other));
                }
            }
        }
    }
    record(conn, targets, source, max, now)
}

/// Add a capture at the time `now`.
pub fn add_capture_at(
    conn: &mut rusqlite::Connection,
    targets: Vec<MimeBlob>,
    source: AppId,
    max_blob_bytes: u64,
    now: UnixMillis,
) -> (r: Result<EntryId, StoreError>)
    ensures
        database(*old(conn)).ready() && latest_countable(database(*old(conn)).tables) ==> match r {
            Ok(id) => database(*final(conn)).origin is Own && database(*final(conn)).saved is None
                && same_place(database(*old(conn)), database(*final(conn))) && captured(
                database(*old(conn)).tables,
                database(*final(conn)).tables,
                values(targets@),
                source@.id,
                max_blob_bytes,
                now,
                id,
            ),
            Err(_) => failed(database(*old(conn)), database(*final(conn))),
        },
        r matches Err(e) ==> told_by_database(e),
{
    begin(conn)?;
    let work = bump_or_record(conn, &targets, &source, max_blob_bytes, now);
    finish(conn, work)
}

/// Add a capture: a repetition of the newest entry counts as one more use of
/// it, and anything else becomes a new entry.
pub fn add_capture_sync(
    conn: &mut rusqlite::Connection,
    targets: Vec<MimeBlob>,
    source: AppId,
    max_blob_bytes: u64,
) -> (r: Result<EntryId, StoreError>)
    ensures
        database(*old(conn)).ready() && latest_countable(database(*old(conn)).tables) ==> match r {
            Ok(id) => database(*final(conn)).origin is Own && database(*final(conn)).saved is None
                && same_place(database(*old(conn)), database(*final(conn))) && exists|now: UnixMillis| #[trigger]
                captured(
                    database(*old(conn)).tables,
                    database(*final(conn)).tables,
                    values(targets@),
                    source@.id,
                    max_blob_bytes,
                    now,
                    id,
                ),
            Err(_) => failed(database(*old(conn)), database(*final(conn))),
        },
        r matches Err(e) ==> told_by_database(e),
{
    let now = unix_millis();
    add_capture_at(conn, targets, source, max_blob_bytes, now)
}

// ---- reading entries ----

proof fn lemma_summary_of_cells(t: Tables, id: EntryId)
    ensures
        summary_of_cells(list_cells(t, id)) == Some(summary_of(t, id)),
{
    let cells = list_cells(t, id);
    assert(cells.len() == 9);
    let e = t.entries[id];
    assert(cells[3] == integer_or_null(e.group_id));
    assert(cells[4] == text_or_null(e.origin));
}

proof fn lemma_listing_decodes(t: Tables, part: Seq<EntryId>, rows: Seq<Seq<Datum>>)
    requires
        shows(t, part, rows),
    ensures
        forall|i: int|
            0 <= i < rows.len() ==> summary_of_cells(#[trigger] rows[i]) == Some(
                summary_of(t, part[i]),
            ),
{
    assert forall|i: int| 0 <= i < rows.len() implies summary_of_cells(#[trigger] rows[i]) == Some(
        summary_of(t, part[i]),
    ) by {
        lemma_summary_of_cells(t, part[i]);
    }
}

proof fn lemma_listing_summed_up(
    t: Tables,
    part: Seq<EntryId>,
    rows: Seq<Seq<Datum>>,
    list: Seq<Summary>,
)
    requires
        shows(t, part, rows),
        list.len() == rows.len(),
        forall|i: int|
            0 <= i < rows.len() ==> summary_of_cells(#[trigger] rows[i]) == Some(list[i]),
    ensures
        summarizes(t, part, list),
{
    lemma_listing_decodes(t, part, rows);
    assert forall|i: int| 0 <= i < list.len() implies #[trigger] list[i] == summary_of(
        t,
        part[i],
    ) by {
        assert(summary_of_cells(rows[i]) == Some(list[i]));
    }
}

/// How many rows a request for `limit` rows gets at most: between 1 and 500.
fn clamp_limit(limit: i64) -> (r: i64)
    ensures
        r == clamped(limit),
{
    if limit < 1 {
        1
    } else if limit > 500 {
        500
    } else {
        limit
    }
}

/// A page of the history, or of one group of it, newest first.
pub fn query_sync(
    conn: &mut rusqlite::Connection,
    offset: i64,
    limit: i64,
    group: Option<i64>,
) -> (r: Result<Vec<EntrySummary>, StoreError>)
    ensures
        database(*old(conn)).origin is Own ==> only_read(
            database(*old(conn)),
            database(*final(conn)),
            r is Ok,
        ),
        database(*old(conn)).origin is Own ==> (r matches Ok(list) ==> is_page(
            database(*old(conn)).tables,
            offset,
            limit,
            group,
            summaries(list@),
        )),
        r matches Err(e) ==> told_by_database(e),
{
    let limit_rows = clamp_limit(limit);
    let skip: i64 = if offset < 0 {
        0
    } else {
        offset
    };
    let mut ints: Vec<i64> = Vec::new();
    let rows = match group {
        Some(g) => {
            ints.push(g);
            ints.push(limit_rows);
            ints.push(skip);
            rows_of(conn, LIST_GROUP, ints)?
        },
        None => {
            ints.push(limit_rows);
            ints.push(skip);
            rows_of(conn, LIST_ALL, ints)?
        },
    };
    let ghost t = database(*old(conn)).tables;
    let ghost all = choose|all: Seq<EntryId>| #[trigger]
        is_listing(t, group, all) && shows(
            t,
            page(all, skip as int, limit_rows as int),
            rows_data(rows@),
        );
    let ghost part = page(all, skip as int, limit_rows as int);
    proof {
        if database(*old(conn)).origin is Own {
            assert(lists_page(t, group, skip as int, limit_rows as int, rows_data(rows@)));
            lemma_listing_decodes(t, part, rows_data(rows@));
        }
    }
    let list = rows_to_summaries(&rows)?;
    proof {
        if database(*old(conn)).origin is Own {
            lemma_listing_summed_up(t, part, rows_data(rows@), summaries(list@));
            assert(is_listing(t, group, all));
        }
    }
    Ok(list)
}

/// Search the history. A query without a letter or digit lists the newest
/// entries.
pub fn search_sync(conn: &mut rusqlite::Connection, query_text: &str, limit: i64) -> (r: Result<
    Vec<EntrySummary>,
    StoreError,
>)
    ensures
        database(*old(conn)).origin is Own ==> only_read(
            database(*old(conn)),
            database(*final(conn)),
            r is Ok,
        ),
        database(*old(conn)).origin is Own ==> (r matches Ok(list) ==> answers_search(
            database(*old(conn)).tables,
            query_text@,
            limit,
            summaries(list@),
        )),
        r matches Err(e) ==> told_by_database(e),
{
    let limit_rows = clamp_limit(limit);
    let pattern = sanitize_fts(query_text);
    proof {
        pattern_begins_quoted(query_text@);
    }
    if is_blank(pattern.as_str()) {
        return query_sync(conn, 0, limit_rows, None);
    }
    let mut texts: Vec<String> = Vec::new();
    texts.push(pattern);
    let mut ints: Vec<i64> = Vec::new();
    ints.push(limit_rows);
    let rows = match query(conn, SEARCH, &texts, &ints) {
        Ok(rows) => rows,
        Err(e) => return Err(db_err(e)),
    };
    let ghost t = database(*old(conn)).tables;
    let ghost all = choose|all: Seq<EntryId>| #[trigger]
        are_hits_of(t, pattern@, all) && shows(
            t,
            page(all, 0, limit_rows as int),
            rows_data(rows@),
        );
    let ghost part = page(all, 0, limit_rows as int);
    proof {
        if database(*old(conn)).origin is Own {
            let matching = |content: Seq<char>| fts_match(content, pattern@);
            let found = choose|found: Seq<EntryId>| #[trigger]
                are_hits(t, matching, found) && shows(
                    t,
                    page(found, 0, limit_rows as int),
                    rows_data(rows@),
                );
            assert(are_hits_of(t, pattern@, found));
            lemma_listing_decodes(t, part, rows_data(rows@));
        }
    }
    let list = rows_to_summaries(&rows)?;
    proof {
        if database(*old(conn)).origin is Own {
            lemma_listing_summed_up(t, part, rows_data(rows@), summaries(list@));
            assert(are_hits_of(t, pattern@, all));
        }
    }
    Ok(list)
}

/// The entry `id` with all of its targets, if there is one.
pub fn get_entry_sync(conn: &mut rusqlite::Connection, id: EntryId) -> (r: Result<
    Option<Entry>,
    StoreError,
>)
    ensures
        database(*old(conn)).origin is Own ==> only_read(
            database(*old(conn)),
            database(*final(conn)),
            r is Ok,
        ),
        database(*old(conn)).origin is Own ==> match r {
            Ok(Some(e)) => live(database(*old(conn)).tables).contains(id) && is_entry(
                database(*old(conn)).tables,
                id,
                e@,
            ),
            Ok(None) => !live(database(*old(conn)).tables).contains(id),
            Err(_) => true,
        },
        r matches Err(e) ==> told_by_database(e),
{
    let mut ints: Vec<i64> = Vec::new();
    ints.push(id);
    let rows = rows_of(conn, GET_ENTRY, ints)?;
    assert(rows_data(rows@).len() == rows@.len());
    if rows.len() == 0 {
        return Ok(None);
    }
    let ghost t = database(*old(conn)).tables;
    assert(rows_data(rows@)[0] == row_data(rows@[0]));
    proof {
        if database(*old(conn)).origin is Own {
            let e = t.entries[id];
            assert(row_data(rows@[0]) == entry_cells(t, id));
            assert(entry_cells(t, id)[3] == integer_or_null(e.group_id));
            assert(entry_cells(t, id)[4] == text_or_null(e.origin));
        }
    }
    let meta = row_to_meta(&rows[0])?;
    let targets = stored_targets(conn, meta.id)?;
    Ok(Some(Entry { targets, ..meta }))
}

/// How many entries there are.
pub fn count_sync(conn: &mut rusqlite::Connection) -> (r: Result<i64, StoreError>)
    ensures
        database(*old(conn)).origin is Own && live(database(*old(conn)).tables).len() <= i64::MAX
            ==> only_read(database(*old(conn)), database(*final(conn)), r is Ok) && (r matches Ok(n)
            ==> n == live(database(*old(conn)).tables).len()),
        r matches Err(e) ==> told_by_database(e),
{
    let rows = rows_of(conn, COUNT, Vec::new())?;
    assert(rows_data(rows@).len() == rows@.len());
    single_integer(&rows, "count(*)")
}

// ---- changing entries ----

/// Count one more use of the entry `id`.
pub fn bump_use_count_sync(conn: &mut rusqlite::Connection, id: EntryId) -> (r: Result<
    (),
    StoreError,
>)
    ensures
        database(*old(conn)).ready() && countable(database(*old(conn)).tables, id) ==> match r {
            Ok(_) => changed_to(
                database(*old(conn)),
                database(*final(conn)),
                bumped(database(*old(conn)).tables, id),
            ),
            Err(_) => left_no_trace(database(*old(conn)), database(*final(conn))),
        },
        r matches Err(e) ==> told_by_database(e),
{
    bump(conn, id)
}

/// Set whether the entry `id` is pinned.
pub fn set_pinned_sync(conn: &mut rusqlite::Connection, id: EntryId, pinned: bool) -> (r: Result<
    (),
    StoreError,
>)
    ensures
        database(*old(conn)).ready() ==> match r {
            Ok(_) => changed_to(
                database(*old(conn)),
                database(*final(conn)),
                with_pin(database(*old(conn)).tables, id, flag(pinned)),
            ),
            Err(_) => left_no_trace(database(*old(conn)), database(*final(conn))),
        },
        r matches Err(e) ==> told_by_database(e),
{
    let value: i64 = if pinned {
        1
    } else {
        0
    };
    let mut params: Vec<Param> = Vec::new();
    params.push(Param::Integer(value));
    params.push(Param::Integer(id));
    let ghost p = bound(params@);
    assert(p[0] == params@[0]@ && p[1] == params@[1]@);
    run(conn, SET_PINNED, params)?;
    Ok(())
}

/// Set the group of the entry `id`. A group that does not exist is refused for
/// an entry that does.
pub fn set_group_sync(conn: &mut rusqlite::Connection, id: EntryId, group: Option<i64>) -> (r:
    Result<(), StoreError>)
    ensures
        database(*old(conn)).ready() ==> match r {
            Ok(_) => changed_to(
                database(*old(conn)),
                database(*final(conn)),
                with_group(database(*old(conn)).tables, id, group),
            ),
            Err(_) => left_no_trace(database(*old(conn)), database(*final(conn))),
        },
        database(*old(conn)).ready() && r is Ok && live(database(*old(conn)).tables).contains(id)
            ==> (group matches Some(g) ==> database(*old(conn)).tables.groups.contains(g)),
        r matches Err(e) ==> told_by_database(e),
{
    let value = match group {
        Some(g) => Param::Integer(g),
        None => Param::Null,
    };
    let mut params: Vec<Param> = Vec::new();
    params.push(value);
    params.push(Param::Integer(id));
    let ghost p = bound(params@);
    assert(p[0] == params@[0]@ && p[1] == params@[1]@);
    run(conn, SET_GROUP, params)?;
    Ok(())
}

fn drop_all_entries(conn: &mut rusqlite::Connection) -> (r: Result<(), StoreError>)
    ensures
        database(*old(conn)).origin is Own ==> match r {
            Ok(_) => changed_to(
                database(*old(conn)),
                database(*final(conn)),
                cleared(database(*old(conn)).tables),
            ),
            Err(_) => broke(database(*old(conn)), database(*final(conn))),
        },
        r matches Err(e) ==> told_by_database(e),
{
    let ghost t = database(*conn).tables;
    run(conn, CLEAR_INDEX, Vec::new())?;
    run(conn, CLEAR_TARGETS, Vec::new())?;
    run(conn, CLEAR_ENTRIES, Vec::new())?;
    assert(t.entries.restrict(Set::empty()) =~= Map::empty());
    assert(targets_within(Map::empty(), Set::empty()) =~= Map::empty());
    Ok(())
}

/// Delete all entries.
pub fn clear_sync(conn: &mut rusqlite::Connection) -> (r: Result<(), StoreError>)
    ensures
        database(*old(conn)).ready() ==> match r {
            Ok(_) => changed_to(
                database(*old(conn)),
                database(*final(conn)),
                cleared(database(*old(conn)).tables),
            ),
            Err(_) => failed(database(*old(conn)), database(*final(conn))),
        },
        r matches Err(e) ==> told_by_database(e),
{
    begin(conn)?;
    let work = drop_all_entries(conn);
    finish(conn, work)
}

fn drop_entry(conn: &mut rusqlite::Connection, id: EntryId) -> (r: Result<(), StoreError>)
    ensures
        database(*old(conn)).origin is Own ==> match r {
            Ok(_) => changed_to(
                database(*old(conn)),
                database(*final(conn)),
                dropped(database(*old(conn)).tables, id),
            ),
            Err(_) => broke(database(*old(conn)), database(*final(conn))),
        },
        r matches Err(e) ==> told_by_database(e),
{
    let ghost t = database(*conn).tables;
    let mut first: Vec<Param> = Vec::new();
    first.push(Param::Integer(id));
    assert(bound(first@)[0] == first@[0]@);
    run(conn, DROP_INDEX, first)?;
    let mut second: Vec<Param> = Vec::new();
    second.push(Param::Integer(id));
    assert(bound(second@)[0] == second@[0]@);
    run(conn, DROP_TARGETS, second)?;
    let mut third: Vec<Param> = Vec::new();
    third.push(Param::Integer(id));
    assert(bound(third@)[0] == third@[0]@);
    run(conn, DROP_ENTRY, third)?;
    Ok(())
}

/// What the three statements that delete the entry `id` make of the tables.
spec fn dropped(t: Tables, id: EntryId) -> Tables {
    let rest = Tables {
        targets: targets_within(t.targets, Set::full().remove(id)),
        ..without_index(t, id)
    };
    keep_entries(rest, t.entries.dom().remove(id))
}

proof fn lemma_dropped(t: Tables, ids: Seq<EntryId>, id: EntryId)
    requires
        sound(t),
    ensures
        dropped(without_all(t, ids), id) == without_all(t, ids.push(id)),
{
    let before = without_all(t, ids);
    let after = without_all(t, ids.push(id));
    let got = dropped(before, id);
    assert forall|x: EntryId| #[trigger]
        ids.push(id).contains(x) <==> (ids.contains(x) || x == id) by {
        if ids.contains(x) {
            assert(ids.push(id)[ids.index_of(x)] == x);
        }
        assert(ids.push(id)[ids.len() as int] == id);
        if ids.push(id).contains(x) && x != id {
            let k = ids.push(id).index_of(x);
            assert(ids[k] == x);
        }
    }
    assert(got.entries.dom() =~= after.entries.dom());
    assert(got.entries =~= after.entries);
    assert(got.targets =~= after.targets);
    assert forall|row: (i64, Seq<char>)| got.index.count(row) == after.index.count(row) by {
        assert(ids.push(id).contains(row.0) <==> (ids.contains(row.0) || row.0 == id));
    }
    assert(got.index =~= after.index);
}

/// Delete the entries `ids`, their targets and their indexed text.
fn drop_entries(conn: &mut rusqlite::Connection, ids: &[EntryId]) -> (r: Result<(), StoreError>)
    ensures
        database(*old(conn)).origin is Own && sound(database(*old(conn)).tables) ==> match r {
            Ok(_) => changed_to(
                database(*old(conn)),
                database(*final(conn)),
                without_all(database(*old(conn)).tables, ids@),
            ),
            Err(_) => broke(database(*old(conn)), database(*final(conn))),
        },
        r matches Err(e) ==> told_by_database(e),
{
    let ghost start = database(*conn);
    proof {
        let t = start.tables;
        assert(without_all(t, ids@.take(0)).entries =~= t.entries);
        assert(without_all(t, ids@.take(0)).targets =~= t.targets);
        assert(without_all(t, ids@.take(0)).index =~= t.index);
    }
    let mut i: usize = 0;
    while i < ids.len()
        invariant
            i <= ids.len(),
            start == database(*old(conn)),
            start.origin is Own && sound(start.tables) ==> changed_to(
                start,
                database(*conn),
                without_all(start.tables, ids@.take(i as int)),
            ),
        decreases ids.len() - i,
    {
        proof {
            if sound(start.tables) {
                lemma_dropped(start.tables, ids@.take(i as int), ids@[i as int]);
                assert(ids@.take(i as int).push(ids@[i as int]) == ids@.take(i + 1));
            }
        }
        drop_entry(conn, ids[i])?;
        i += 1;
    }
    assert(ids@.take(ids@.len() as int) == ids@);
    Ok(())
}

/// Delete the entries `ids`. With no ids there is nothing to do, whatever the
/// state of the database.
pub fn delete_sync(conn: &mut rusqlite::Connection, ids: &[EntryId]) -> (r: Result<(), StoreError>)
    ensures
        database(*old(conn)).ready() && ids@.len() > 0 ==> match r {
            Ok(_) => changed_to(
                database(*old(conn)),
                database(*final(conn)),
                without_all(database(*old(conn)).tables, ids@),
            ),
            Err(_) => failed(database(*old(conn)), database(*final(conn))),
        },
        ids@.len() == 0 ==> r is Ok && *final(conn) == *old(conn),
        r matches Err(e) ==> told_by_database(e),
{
    if ids.len() == 0 {
        return Ok(());
    }
    begin(conn)?;
    let work = drop_entries(conn, ids);
    finish(conn, work)
}

// ---- pruning ----

/// Delete the unpinned entries from before `cutoff`, and say how many there
/// were.
fn expire(conn: &mut rusqlite::Connection, cutoff: UnixMillis) -> (r: Result<usize, StoreError>)
    ensures
        database(*old(conn)).origin is Own && sound(database(*old(conn)).tables) ==> match r {
            Ok(n) => changed_to(
                database(*old(conn)),
                database(*final(conn)),
                expired(database(*old(conn)).tables, Some(cutoff)),
            ) && (database(*old(conn)).tables.entries.dom().len() <= i32::MAX ==> n + database(
                *final(conn),
            ).tables.entries.dom().len() == database(*old(conn)).tables.entries.dom().len()),
            Err(_) => broke(database(*old(conn)), database(*final(conn))),
        },
        r matches Err(e) ==> told_by_database(e),
{
    let ghost t = database(*conn).tables;
    let mut params: Vec<Param> = Vec::new();
    params.push(Param::Integer(cutoff));
    assert(bound(params@)[0] == params@[0]@);
    let n = run(conn, EXPIRE, params)?;
    proof {
        if sound(t) {
            let all = t.entries.dom();
            let keep = unexpired(t, cutoff);
            let gone = all.difference(keep);
            assert(keep + gone =~= all);
            lemma_set_disjoint_lens(keep, gone);
            assert(t.entries.restrict(keep).dom() =~= keep);
        }
    }
    Ok(n)
}

/// The `limit` oldest unpinned entries, or all of them where there are fewer.
fn oldest(conn: &mut rusqlite::Connection, limit: i64) -> (r: Result<Vec<EntryId>, StoreError>)
    requires
        limit >= 0,
    ensures
        database(*old(conn)).origin is Own ==> only_read(
            database(*old(conn)),
            database(*final(conn)),
            r is Ok,
        ),
        database(*old(conn)).origin is Own ==> (r matches Ok(ids) ==> exists|all: Seq<EntryId>|
            #[trigger] oldest_first(database(*old(conn)).tables, all) && ids@ == page(
                all,
                0,
                limit as int,
            )),
        r matches Err(e) ==> told_by_database(e),
{
    let mut ints: Vec<i64> = Vec::new();
    ints.push(limit);
    let rows = rows_of(conn, OLDEST, ints)?;
    let ghost data = rows_data(rows@);
    let mut ids: Vec<EntryId> = Vec::new();
    let mut i: usize = 0;
    while i < rows.len()
        invariant
            i <= rows.len(),
            data == rows_data(rows@),
            database(*old(conn)).origin is Own ==> only_read(
                database(*old(conn)),
                database(*conn),
                true,
            ),
            ids@.len() == i,
            forall|j: int|
                0 <= j < i ==> (#[trigger] data[j]).len() >= 1 && data[j][0] == Datum::Integer(
                    ids@[j],
                ),
            database(*old(conn)).origin is Own ==> lists_oldest(
                database(*old(conn)).tables,
                limit as int,
                data,
            ),
        decreases rows.len() - i,
    {
        assert(data[i as int] == row_data(rows@[i as int]));
        let id = integer_at(&rows[i], 0, "id")?;
        ids.push(id);
        i += 1;
    }
    proof {
        let t = database(*old(conn)).tables;
        if database(*old(conn)).origin is Own {
            assert(lists_oldest(t, limit as int, data));
            let all = choose|all: Seq<EntryId>| #[trigger]
                oldest_first(t, all) && shows_ids(page(all, 0, limit as int), data);
            assert forall|j: int| 0 <= j < ids@.len() implies ids@[j] == page(
                all,
                0,
                limit as int,
            )[j] by {
                assert(data[j] == seq![Datum::Integer(page(all, 0, limit as int)[j])]);
            }
            assert(ids@ =~= page(all, 0, limit as int));
        }
    }
    Ok(ids)
}

/// Delete the oldest unpinned entries so that at most `max` entries remain, as
/// far as there are so many, and say how many were deleted.
fn drop_surplus(conn: &mut rusqlite::Connection, max: i64) -> (r: Result<usize, StoreError>)
    ensures
        database(*old(conn)).origin is Own && sound(database(*old(conn)).tables) && database(
            *old(conn),
        ).tables.entries.dom().len() <= i64::MAX ==> match r {
            Ok(n) => database(*final(conn)).origin is Own && database(*final(conn)).saved
                == database(*old(conn)).saved && pruned(
                database(*old(conn)).tables,
                database(*final(conn)).tables,
                max,
                None,
            ) && n + database(*final(conn)).tables.entries.dom().len() == database(
                *old(conn),
            ).tables.entries.dom().len() && database(*final(conn)).faults == database(
                *old(conn),
            ).faults && same_place(database(*old(conn)), database(*final(conn))),
            Err(_) => broke(database(*old(conn)), database(*final(conn))),
        },
        r matches Err(e) ==> told_by_database(e),
{
    let ghost start = database(*conn);
    let ghost t = start.tables;
    let ghost known = start.origin is Own && sound(t) && t.entries.dom().len() <= i64::MAX;
    assert(known ==> live(t) =~= t.entries.dom());
    let total = count_sync(conn)?;
    if total <= max {
        proof {
            if known {
                lemma_without_none(t);
                lemma_oldest_first_exists(t);
                let all = choose|all: Seq<EntryId>| oldest_first(t, all);
                assert(page(all, 0, excess(t, max)) =~= Seq::empty());
                assert(surplus(expired(t, None), max, Seq::<EntryId>::empty()));
            }
        }
        return Ok(0);
    }
    let over: i64 = match total.checked_sub(max) {
        Some(n) => n,
        None => i64::MAX,
    };
    let ids = oldest(conn, over)?;
    proof {
        if known {
            let all = choose|all: Seq<EntryId>| #[trigger]
                oldest_first(t, all) && ids@ == page(all, 0, over as int);
            lemma_oldest_first_len(t, all);
            assert(page(all, 0, over as int) =~= page(all, 0, excess(t, max)));
            assert(surplus(expired(t, None), max, ids@));
            lemma_surplus(t, max, ids@);
            lemma_without_len(t, ids@);
        }
    }
    drop_entries(conn, ids.as_slice())?;
    Ok(ids.len())
}

fn prune_in(conn: &mut rusqlite::Connection, max: i64, cutoff: Option<UnixMillis>) -> (r: Result<
    i64,
    StoreError,
>)
    ensures
        database(*old(conn)).origin is Own && sound(database(*old(conn)).tables) && database(
            *old(conn),
        ).tables.entries.dom().len() <= i64::MAX ==> match r {
            Ok(n) => database(*final(conn)).origin is Own && database(*final(conn)).saved
                == database(*old(conn)).saved && pruned(
                database(*old(conn)).tables,
                database(*final(conn)).tables,
                max,
                cutoff,
            ) && (database(*old(conn)).tables.entries.dom().len() <= i32::MAX ==> n + database(
                *final(conn),
            ).tables.entries.dom().len() == database(*old(conn)).tables.entries.dom().len())
                && database(*final(conn)).faults == database(*old(conn)).faults
                && same_place(database(*old(conn)), database(*final(conn))),
            Err(_) => broke(database(*old(conn)), database(*final(conn))),
        },
        r matches Err(e) ==> told_by_database(e),
{
    let ghost t = database(*conn).tables;
    let mut removed: i64 = 0;
    if let Some(c) = cutoff {
        let n = expire(conn, c)?;
        removed = #[verifier::truncate] (n as i64);
    }
    let ghost rest = expired(t, cutoff);
    proof {
        if sound(t) {
            lemma_expired(t, cutoff);
        }
    }
    let n = drop_surplus(conn, max)?;
    let removed = removed.wrapping_add(#[verifier::truncate] (n as i64));
    proof {
        let after = database(*conn).tables;
        if database(*old(conn)).origin is Own && sound(t) && t.entries.dom().len() <= i64::MAX {
            let ids = choose|ids: Seq<EntryId>| #[trigger]
                surplus(expired(rest, None), max, ids) && after == without_all(
                    expired(rest, None),
                    ids,
                );
            assert(surplus(expired(t, cutoff), max, ids));
        }
    }
    Ok(removed)
}

/// Prune the history: delete the unpinned entries from before `cutoff`, then
/// the oldest unpinned ones until at most `max_entries` entries remain. Pinned
/// entries stay. Says how many entries were deleted.
pub fn prune_at(
    conn: &mut rusqlite::Connection,
    max_entries: i64,
    cutoff: Option<UnixMillis>,
) -> (r: Result<i64, StoreError>)
    ensures
        database(*old(conn)).ready() && database(*old(conn)).tables.entries.dom().len() <= i64::MAX
            ==> match r {
            Ok(n) => database(*final(conn)).origin is Own && database(*final(conn)).saved is None
                && same_place(database(*old(conn)), database(*final(conn))) && pruned(
                database(*old(conn)).tables,
                database(*final(conn)).tables,
                max_entries,
                cutoff,
            ) && (database(*old(conn)).tables.entries.dom().len() <= i32::MAX ==> n + database(
                *final(conn),
            ).tables.entries.dom().len() == database(*old(conn)).tables.entries.dom().len()),
            Err(_) => failed(database(*old(conn)), database(*final(conn))),
        },
        r matches Err(e) ==> told_by_database(e),
{
    begin(conn)?;
    let work = prune_in(conn, max_entries, cutoff);
    finish(conn, work)
}

/// The time before which entries are older than `days` days at the time `now`.
pub fn retention_cutoff(now: UnixMillis, days: i64) -> (r: UnixMillis)
    ensures
        r == cutoff_of(now, days),
        i64::MIN <= days * 86_400_000 <= i64::MAX && i64::MIN <= now - days * 86_400_000
            <= i64::MAX ==> r == now - days * 86_400_000,
{
    now.wrapping_sub(days.wrapping_mul(86_400_000))
}

/// Prune the history: delete the unpinned entries that are older than
/// `retention_days`, then the oldest unpinned ones until at most `max_entries`
/// entries remain. Pinned entries stay. Says how many entries were deleted.
pub fn prune_sync(
    conn: &mut rusqlite::Connection,
    max_entries: i64,
    retention_days: Option<i64>,
) -> (r: Result<i64, StoreError>)
    ensures
        database(*old(conn)).ready() && database(*old(conn)).tables.entries.dom().len() <= i64::MAX
            ==> match r {
            Ok(n) => database(*final(conn)).origin is Own && database(*final(conn)).saved is None
                && same_place(database(*old(conn)), database(*final(conn))) && pruned_now(
                database(*old(conn)).tables,
                database(*final(conn)).tables,
                max_entries,
                retention_days,
            ) && (database(*old(conn)).tables.entries.dom().len() <= i32::MAX ==> n + database(
                *final(conn),
            ).tables.entries.dom().len() == database(*old(conn)).tables.entries.dom().len()),
            Err(_) => failed(database(*old(conn)), database(*final(conn))),
        },
        r matches Err(e) ==> told_by_database(e),
{
    let cutoff = match retention_days {
        Some(days) => Some(retention_cutoff(unix_millis(), days)),
        None => None,
    };
    prune_at(conn, max_entries, cutoff)
}

// ---- the store ----

impl HistoryStore for Store {
    open spec fn history(&self) -> Option<Database> {
        Some(self.database())
    }

    fn add_capture(&mut self, targets: Vec<MimeBlob>, source: AppId, max_blob_bytes: u64) -> (r:
        Result<EntryId, StoreError>) {
        let ghost before = self.database();
        let ghost want = values(targets@);
        let ghost origin = source@.id;
        let r = add_capture_sync(&mut self.conn, targets, source, max_blob_bytes);
        proof {
            let after = self.database();
            if before.ready() && latest_countable(before.tables) {
                if let Ok(id) = r {
                    let now = choose|now: UnixMillis| #[trigger]
                        captured(
                            before.tables,
                            after.tables,
                            want,
                            origin,
                            max_blob_bytes,
                            now,
                            id,
                        );
                    capture_keeps_sound(
                        before.tables,
                        after.tables,
                        want,
                        origin,
                        max_blob_bytes,
                        now,
                        id,
                    );
                }
            }
        }
        r
    }

    fn query(&mut self, offset: i64, limit: i64, group: Option<i64>) -> (r: Result<
        Vec<EntrySummary>,
        StoreError,
    >) {
        query_sync(&mut self.conn, offset, limit, group)
    }

    fn search(&mut self, query: &str, limit: i64) -> (r: Result<Vec<EntrySummary>, StoreError>) {
        search_sync(&mut self.conn, query, limit)
    }

    fn get_entry(&mut self, id: EntryId) -> (r: Result<Option<Entry>, StoreError>) {
        get_entry_sync(&mut self.conn, id)
    }

    fn delete(&mut self, ids: &[EntryId]) -> (r: Result<(), StoreError>) {
        let ghost t = self.database().tables;
        let r = delete_sync(&mut self.conn, ids);
        proof {
            if sound(t) {
                changes_keep_sound(t, 0, false, None, ids@);
            }
            if ids@.len() == 0 {
                lemma_without_none(t);
                assert(ids@ =~= Seq::empty());
            }
        }
        r
    }

    fn set_pinned(&mut self, id: EntryId, pinned: bool) -> (r: Result<(), StoreError>) {
        proof {
            if sound(self.database().tables) {
                changes_keep_sound(self.database().tables, id, pinned, None, Seq::empty());
            }
        }
        set_pinned_sync(&mut self.conn, id, pinned)
    }

    fn set_group(&mut self, id: EntryId, group: Option<i64>) -> (r: Result<(), StoreError>) {
        proof {
            if sound(self.database().tables) {
                changes_keep_sound(self.database().tables, id, false, group, Seq::empty());
            }
        }
        set_group_sync(&mut self.conn, id, group)
    }

    fn clear(&mut self) -> (r: Result<(), StoreError>) {
        proof {
            if sound(self.database().tables) {
                changes_keep_sound(self.database().tables, 0, false, None, Seq::empty());
            }
        }
        clear_sync(&mut self.conn)
    }

    fn bump_use_count(&mut self, id: EntryId) -> (r: Result<(), StoreError>) {
        proof {
            if sound(self.database().tables) {
                changes_keep_sound(self.database().tables, id, false, None, Seq::empty());
            }
        }
        bump_use_count_sync(&mut self.conn, id)
    }

    fn count(&mut self) -> (r: Result<i64, StoreError>) {
        count_sync(&mut self.conn)
    }

    fn prune(&mut self, max_entries: i64, retention_days: Option<i64>) -> (r: Result<
        i64,
        StoreError,
    >) {
        let ghost before = self.database();
        let r = prune_sync(&mut self.conn, max_entries, retention_days);
        proof {
            let after = self.database();
            if before.ready() && before.tables.entries.dom().len() <= i64::MAX && r is Ok {
                let cutoff = match retention_days {
                    Some(days) => Some(
                        cutoff_of(
                            choose|now: UnixMillis|
                                pruned(
                                    before.tables,
                                    after.tables,
                                    max_entries,
                                    Some(#[trigger] cutoff_of(now, days)),
                                ),
                            days,
                        ),
                    ),
                    None => None,
                };
                prune_keeps_sound(before.tables, after.tables, max_entries, cutoff);
            }
        }
        r
    }
}

/// The key of a database is the passphrase, as it is, and there is none without one.
pub proof fn key_is_the_passphrase(passphrase: Option<&str>)
    ensures
        passphrase matches Some(p) ==> key_of(passphrase) == Some(p@),
        passphrase is None ==> key_of(passphrase) is None,
{
}

} // verus!
