//! Reading typed values out of the rows that the database answers with.

use vstd::prelude::*;
use vstd::string::*;
use vstd::utf8::*;

use crate::content::{preview_of, PREVIEW_CHARS};
use crate::errors::{classified, classify, told_by_database, StoreError, NO_ROWS};
use crate::history::summaries;
use crate::sql::{entry_cells, list_cells, row_data, rows_data, Cell, Datum, Tables};
use crate::text::{decode, digits, truncate, u64_text};
use crate::types::{
    named_kind, optional_text, values, Entry, EntrySummary, FullEntry, MimeBlob, PreviewKind,
    Summary, Target,
};

verus! {

broadcast use vstd::string::group_string_axioms;

/// The name of the type of a SQLite value.
pub open spec fn kind_of_datum(d: Datum) -> Seq<char> {
    match d {
        Datum::Null => "Null"@,
        Datum::Integer(_) => "Integer"@,
        Datum::Real => "Real"@,
        Datum::Text(_) => "Text"@,
        Datum::Blob(_) => "Blob"@,
    }
}

/// The message for a value of the wrong type, or for a column that is not
/// there.
pub open spec fn column_message(row: Seq<Datum>, i: int, name: Seq<char>) -> Seq<char> {
    if i < row.len() {
        "Invalid column type "@ + kind_of_datum(row[i]) + " at index: "@ + digits(i as nat)
            + ", name: "@ + name
    } else {
        "Invalid column index: "@ + digits(i as nat)
    }
}

/// Whether `e` is the error for column `i` of `row`.
pub open spec fn column_error(row: Seq<Datum>, i: int, name: Seq<char>, e: StoreError) -> bool {
    classified(column_message(row, i, name), e)
}

fn wrong_column(row: &Vec<Cell>, i: usize, name: &str) -> (r: StoreError)
    ensures
        column_error(row_data(*row), i as int, name@, r),
{
    let at = u64_text(i as u64);
    if i < row.len() {
        let kind = match &row[i] {
            Cell::Null => "Null",
            Cell::Integer(_) => "Integer",
            Cell::Real => "Real",
            Cell::Text(_) => "Text",
            Cell::Blob(_) => "Blob",
        };
        assert(row_data(*row)[i as int] == row@[i as int]@);
        let message = "Invalid column type ".to_owned().concat(kind).concat(" at index: ").concat(
            at.as_str(),
        ).concat(", name: ").concat(name);
        classify(message)
    } else {
        classify("Invalid column index: ".to_owned().concat(at.as_str()))
    }
}

/// The integer in column `i`, which is called `name`.
pub(crate) fn integer_at(row: &Vec<Cell>, i: usize, name: &str) -> (r: Result<i64, StoreError>)
    ensures
        match r {
            Ok(n) => i < row.len() && row_data(*row)[i as int] == Datum::Integer(n),
            Err(e) => !(i < row.len() && row_data(*row)[i as int] is Integer) && column_error(
                row_data(*row),
                i as int,
                name@,
                e,
            ),
        },
{
    if i < row.len() {
        assert(row_data(*row)[i as int] == row@[i as int]@);
        if let Cell::Integer(n) = &row[i] {
            return Ok(*n);
        }
    }
    Err(wrong_column(row, i, name))
}

/// The integer in column `i`, or `None` where the column is null.
pub(crate) fn optional_integer_at(row: &Vec<Cell>, i: usize, name: &str) -> (r: Result<
    Option<i64>,
    StoreError,
>)
    ensures
        match r {
            Ok(Some(n)) => i < row.len() && row_data(*row)[i as int] == Datum::Integer(n),
            Ok(None) => i < row.len() && row_data(*row)[i as int] is Null,
            Err(e) => !(i < row.len() && (row_data(*row)[i as int] is Integer || row_data(
                *row,
            )[i as int] is Null)) && column_error(row_data(*row), i as int, name@, e),
        },
{
    if i < row.len() {
        assert(row_data(*row)[i as int] == row@[i as int]@);
        if let Cell::Null = &row[i] {
            return Ok(None);
        }
        if let Cell::Integer(n) = &row[i] {
            return Ok(Some(*n));
        }
    }
    Err(wrong_column(row, i, name))
}

/// The text in column `i`.
pub(crate) fn text_at(row: &Vec<Cell>, i: usize, name: &str) -> (r: Result<String, StoreError>)
    ensures
        match r {
            Ok(s) => i < row.len() && row_data(*row)[i as int] == Datum::Text(s@),
            Err(e) => !(i < row.len() && row_data(*row)[i as int] is Text) && column_error(
                row_data(*row),
                i as int,
                name@,
                e,
            ),
        },
{
    if i < row.len() {
        assert(row_data(*row)[i as int] == row@[i as int]@);
        if let Cell::Text(s) = &row[i] {
            return Ok(s.clone());
        }
    }
    Err(wrong_column(row, i, name))
}

/// The text in column `i`, or `None` where the column is null.
pub(crate) fn optional_text_at(row: &Vec<Cell>, i: usize, name: &str) -> (r: Result<
    Option<String>,
    StoreError,
>)
    ensures
        match r {
            Ok(s) => i < row.len() && match optional_text(s) {
                Some(t) => row_data(*row)[i as int] == Datum::Text(t),
                None => row_data(*row)[i as int] is Null,
            },
            Err(e) => !(i < row.len() && (row_data(*row)[i as int] is Text || row_data(
                *row,
            )[i as int] is Null)) && column_error(row_data(*row), i as int, name@, e),
        },
{
    if i < row.len() {
        assert(row_data(*row)[i as int] == row@[i as int]@);
        if let Cell::Null = &row[i] {
            return Ok(None);
        }
        if let Cell::Text(s) = &row[i] {
            return Ok(Some(s.clone()));
        }
    }
    Err(wrong_column(row, i, name))
}

/// The blob in column `i`.
pub(crate) fn blob_at(row: &Vec<Cell>, i: usize, name: &str) -> (r: Result<Vec<u8>, StoreError>)
    ensures
        match r {
            Ok(b) => i < row.len() && row_data(*row)[i as int] == Datum::Blob(b@),
            Err(e) => !(i < row.len() && row_data(*row)[i as int] is Blob) && column_error(
                row_data(*row),
                i as int,
                name@,
                e,
            ),
        },
{
    if i < row.len() {
        assert(row_data(*row)[i as int] == row@[i as int]@);
        if let Cell::Blob(b) = &row[i] {
            let bytes = b.clone();
            assert(bytes@ =~= b@);
            return Ok(bytes);
        }
    }
    Err(wrong_column(row, i, name))
}

/// The blob in column `i`, or `None` where the column is null.
pub(crate) fn optional_blob_at(row: &Vec<Cell>, i: usize, name: &str) -> (r: Result<
    Option<Vec<u8>>,
    StoreError,
>)
    ensures
        match r {
            Ok(Some(b)) => i < row.len() && row_data(*row)[i as int] == Datum::Blob(b@),
            Ok(None) => i < row.len() && row_data(*row)[i as int] is Null,
            Err(e) => !(i < row.len() && (row_data(*row)[i as int] is Blob || row_data(
                *row,
            )[i as int] is Null)) && column_error(row_data(*row), i as int, name@, e),
        },
{
    if i < row.len() {
        assert(row_data(*row)[i as int] == row@[i as int]@);
        if let Cell::Null = &row[i] {
            return Ok(None);
        }
        if let Cell::Blob(b) = &row[i] {
            let bytes = b.clone();
            assert(bytes@ =~= b@);
            return Ok(Some(bytes));
        }
    }
    Err(wrong_column(row, i, name))
}

// ---- rows as values ----

/// The integer that is all that a statement answers with.
pub fn single_integer(rows: &Vec<Vec<Cell>>, name: &str) -> (r: Result<i64, StoreError>)
    ensures
        match r {
            Ok(n) => rows@.len() > 0 && rows_data(rows@)[0].len() > 0 && rows_data(rows@)[0][0]
                == Datum::Integer(n),
            Err(e) => told_by_database(e) && !(rows@.len() > 0 && rows_data(rows@)[0].len() > 0
                && rows_data(rows@)[0][0] is Integer),
        },
{
    if rows.len() == 0 {
        return Err(classify(NO_ROWS.to_owned()));
    }
    assert(rows_data(rows@)[0] == row_data(rows@[0]));
    integer_at(&rows[0], 0, name)
}

/// The target in a row of cells, if its columns have the types that they should
/// have.
pub open spec fn target_of_cells(row: Seq<Datum>) -> Option<Target> {
    if row.len() > 1 && row[0] is Text && row[1] is Blob {
        Some(Target { mime: row[0]->Text_0, bytes: row[1]->Blob_0 })
    } else {
        None
    }
}

/// The targets in rows of cells.
pub fn rows_to_targets(rows: &Vec<Vec<Cell>>) -> (r: Result<Vec<MimeBlob>, StoreError>)
    ensures
        match r {
            Ok(list) => list@.len() == rows@.len() && forall|i: int|
                0 <= i < rows@.len() ==> target_of_cells(#[trigger] rows_data(rows@)[i]) == Some(
                    values(list@)[i],
                ),
            Err(e) => told_by_database(e) && exists|i: int|
                0 <= i < rows@.len() && target_of_cells(#[trigger] rows_data(rows@)[i]) is None,
        },
{
    let mut list: Vec<MimeBlob> = Vec::new();
    let mut i: usize = 0;
    while i < rows.len()
        invariant
            i <= rows.len(),
            list@.len() == i,
            forall|j: int|
                0 <= j < i ==> target_of_cells(#[trigger] rows_data(rows@)[j]) == Some(
                    values(list@)[j],
                ),
        decreases rows.len() - i,
    {
        assert(rows_data(rows@)[i as int] == row_data(rows@[i as int]));
        let mime = text_at(&rows[i], 0, "mime")?;
        let bytes = blob_at(&rows[i], 1, "blob")?;
        let ghost before = values(list@);
        list.push(MimeBlob { mime, bytes });
        assert(values(list@) == before.push(list@[i as int]@));
        i += 1;
    }
    Ok(list)
}

/// The entry that a row of cells stands for, without its targets, if its columns
/// have the types that they should have.
pub open spec fn meta_of_cells(row: Seq<Datum>) -> Option<FullEntry> {
    if row.len() > 7 && row[0] is Integer && row[1] is Integer && row[2] is Integer && (row[3]
        is Integer || row[3] is Null) && (row[4] is Text || row[4] is Null) && row[5] is Integer
        && row[6] is Text && row[7] is Integer {
        Some(
            FullEntry {
                id: row[0]->Integer_0,
                ts: row[1]->Integer_0,
                pinned: row[2]->Integer_0 != 0,
                group: if row[3] is Integer {
                    Some(row[3]->Integer_0)
                } else {
                    None
                },
                origin: if row[4] is Text {
                    Some(row[4]->Text_0)
                } else {
                    None
                },
                use_count: row[5]->Integer_0 as u32,
                preview_kind: named_kind(row[6]->Text_0),
                size_bytes: row[7]->Integer_0 as u64,
                targets: Seq::empty(),
            },
        )
    } else {
        None
    }
}

/// The entry that a row of cells stands for, without its targets.
pub fn row_to_meta(row: &Vec<Cell>) -> (r: Result<Entry, StoreError>)
    ensures
        match r {
            Ok(e) => meta_of_cells(row_data(*row)) == Some(e@),
            Err(e) => meta_of_cells(row_data(*row)) is None && told_by_database(e),
        },
{
    let kind = text_at(row, 6, "preview_kind")?;
    let id = integer_at(row, 0, "id")?;
    let ts = integer_at(row, 1, "ts")?;
    let pinned = integer_at(row, 2, "pinned")?;
    let group = optional_integer_at(row, 3, "group_id")?;
    let origin = optional_text_at(row, 4, "origin")?;
    let use_count = integer_at(row, 5, "use_count")?;
    let size_bytes = integer_at(row, 7, "size_bytes")?;
    let entry = Entry {
        id,
        ts,
        pinned: pinned != 0,
        group,
        origin,
        use_count: #[verifier::truncate] (use_count as u32),
        preview_kind: PreviewKind::parse(kind.as_str()),
        size_bytes: #[verifier::truncate] (size_bytes as u64),
        targets: Vec::new(),
    };
    assert(values(entry.targets@) =~= Seq::<Target>::empty());
    Ok(entry)
}

/// The summary that a row of cells stands for, if its columns have the types
/// that they should have.
pub open spec fn summary_of_cells(row: Seq<Datum>) -> Option<Summary> {
    if row.len() > 8 && row[0] is Integer && row[1] is Integer && row[2] is Integer && (row[3]
        is Integer || row[3] is Null) && (row[4] is Text || row[4] is Null) && row[5] is Integer
        && row[6] is Text && row[7] is Integer && (row[8] is Blob || row[8] is Null) {
        Some(
            Summary {
                id: row[0]->Integer_0,
                ts: row[1]->Integer_0,
                pinned: row[2]->Integer_0 != 0,
                group: if row[3] is Integer {
                    Some(row[3]->Integer_0)
                } else {
                    None
                },
                origin: if row[4] is Text {
                    Some(row[4]->Text_0)
                } else {
                    None
                },
                use_count: row[5]->Integer_0 as u32,
                preview_kind: named_kind(row[6]->Text_0),
                size_bytes: row[7]->Integer_0 as u64,
                preview_text: if row[8] is Blob && valid_utf8(row[8]->Blob_0) {
                    preview_of(Some(decode_utf8(row[8]->Blob_0)))
                } else {
                    None
                },
            },
        )
    } else {
        None
    }
}

/// The summary that a row of a listing stands for.
pub fn row_to_summary(row: &Vec<Cell>) -> (r: Result<EntrySummary, StoreError>)
    ensures
        match r {
            Ok(s) => summary_of_cells(row_data(*row)) == Some(s@),
            Err(e) => summary_of_cells(row_data(*row)) is None && told_by_database(e),
        },
{
    let origin = optional_text_at(row, 4, "origin")?;
    let kind = text_at(row, 6, "preview_kind")?;
    let blob = optional_blob_at(row, 8, "blob")?;
    let preview_text = match &blob {
        Some(bytes) => match decode(bytes.as_slice()) {
            Some(s) => Some(truncate(s, PREVIEW_CHARS)),
            None => None,
        },
        None => None,
    };
    let id = integer_at(row, 0, "id")?;
    let ts = integer_at(row, 1, "ts")?;
    let pinned = integer_at(row, 2, "pinned")?;
    let group = optional_integer_at(row, 3, "group_id")?;
    let use_count = integer_at(row, 5, "use_count")?;
    let size_bytes = integer_at(row, 7, "size_bytes")?;
    let summary = EntrySummary {
        id,
        ts,
        pinned: pinned != 0,
        group,
        origin,
        use_count: #[verifier::truncate] (use_count as u32),
        preview_kind: PreviewKind::parse(kind.as_str()),
        size_bytes: #[verifier::truncate] (size_bytes as u64),
        preview_text,
    };
    Ok(summary)
}

/// The summaries that the rows of a listing stand for.
pub fn rows_to_summaries(rows: &Vec<Vec<Cell>>) -> (r: Result<Vec<EntrySummary>, StoreError>)
    ensures
        match r {
            Ok(list) => list@.len() == rows@.len() && forall|i: int|
                0 <= i < rows@.len() ==> summary_of_cells(#[trigger] rows_data(rows@)[i]) == Some(
                    summaries(list@)[i],
                ),
            Err(e) => told_by_database(e) && exists|i: int|
                0 <= i < rows@.len() && summary_of_cells(#[trigger] rows_data(rows@)[i]) is None,
        },
{
    let mut list: Vec<EntrySummary> = Vec::new();
    let mut i: usize = 0;
    while i < rows.len()
        invariant
            i <= rows.len(),
            list@.len() == i,
            forall|j: int|
                0 <= j < i ==> summary_of_cells(#[trigger] rows_data(rows@)[j]) == Some(
                    summaries(list@)[j],
                ),
        decreases rows.len() - i,
    {
        assert(rows_data(rows@)[i as int] == row_data(rows@[i as int]));
        let s = row_to_summary(&rows[i])?;
        let ghost before = summaries(list@);
        list.push(s);
        assert(summaries(list@) == before.push(s@));
        i += 1;
    }
    Ok(list)
}

// ---- laws of rows ----

/// A column that is not as it should be is told of with what it holds, where it stands and
/// what it is called, and one that is missing with its place.
pub proof fn bad_column_is_told_of(row: Seq<Datum>, i: int, name: Seq<char>)
    requires
        0 <= i,
    ensures
        i >= row.len() ==> column_message(row, i, name) == "Invalid column index: "@ + digits(
            i as nat,
        ),
        i < row.len() && row[i] is Null ==> column_message(row, i, name)
            == "Invalid column type "@ + "Null"@ + " at index: "@ + digits(i as nat) + ", name: "@
            + name,
        i < row.len() && row[i] is Integer ==> column_message(row, i, name)
            == "Invalid column type "@ + "Integer"@ + " at index: "@ + digits(i as nat)
            + ", name: "@ + name,
        i < row.len() && row[i] is Real ==> column_message(row, i, name)
            == "Invalid column type "@ + "Real"@ + " at index: "@ + digits(i as nat) + ", name: "@
            + name,
        i < row.len() && row[i] is Text ==> column_message(row, i, name)
            == "Invalid column type "@ + "Text"@ + " at index: "@ + digits(i as nat) + ", name: "@
            + name,
        i < row.len() && row[i] is Blob ==> column_message(row, i, name)
            == "Invalid column type "@ + "Blob"@ + " at index: "@ + digits(i as nat) + ", name: "@
            + name,
{
}

/// What a row of a listing stands for has each field from its column.
pub proof fn row_is_read_column_by_column(t: Tables, id: i64)
    ensures
        summary_of_cells(list_cells(t, id)) matches Some(s) && {
            &&& s.id == id
            &&& s.ts == t.entries[id].ts
            &&& s.pinned == (t.entries[id].pinned != 0)
            &&& s.group == t.entries[id].group_id
            &&& s.origin == t.entries[id].origin
            &&& s.use_count == t.entries[id].use_count as u32
            &&& s.preview_kind == named_kind(t.entries[id].preview_kind)
            &&& s.size_bytes == t.entries[id].size_bytes as u64
        },
        meta_of_cells(entry_cells(t, id)) matches Some(e) && {
            &&& e.id == id
            &&& e.ts == t.entries[id].ts
            &&& e.pinned == (t.entries[id].pinned != 0)
            &&& e.group == t.entries[id].group_id
            &&& e.origin == t.entries[id].origin
            &&& e.use_count == t.entries[id].use_count as u32
            &&& e.preview_kind == named_kind(t.entries[id].preview_kind)
            &&& e.size_bytes == t.entries[id].size_bytes as u64
            &&& e.targets.len() == 0
        },
{
}

/// The target in a row is its first column, with the bytes of its second.
pub proof fn target_is_read_column_by_column(mime: Seq<char>, bytes: Seq<u8>)
    ensures
        target_of_cells(seq![Datum::Text(mime), Datum::Blob(bytes)]) == Some(
            Target { mime, bytes },
        ),
{
}

} // verus!
