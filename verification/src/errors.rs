//! The errors of the clipboard backends and of the history store.

use vstd::prelude::*;
use vstd::string::*;

use crate::rows::column_message;
use crate::sql::{error_message, error_text, Datum};
use crate::text::{
    ascii_only, contains, folded, found_at, has_text, lower, same_folded, to_lowercase,
    unicode_lower,
};

verus! {

broadcast use vstd::string::group_string_axioms;

/// The message for a statement that should answer with a row, and does not.
pub const NO_ROWS: &'static str = "Query returned no rows";

/// An error of a clipboard backend.
#[derive(Debug, Clone, PartialEq, Eq)]
pub enum BackendError {
    /// An operating-system error, with its message.
    Io(String),
    /// The backend, or what was asked of it, is not there.
    Unavailable(String),
    /// The display server answered with an error.
    Protocol(String),
}

/// The message of a backend error.
pub open spec fn backend_message(e: BackendError) -> Seq<char> {
    match e {
        BackendError::Io(m) => "backend io error: "@ + m@,
        BackendError::Unavailable(m) => "backend unavailable: "@ + m@,
        BackendError::Protocol(m) => "backend protocol error: "@ + m@,
    }
}

impl BackendError {
    /// The message of the error.
    pub fn message(&self) -> (r: String)
        ensures
            r@ == backend_message(*self),
    {
        match self {
            BackendError::Io(m) => "backend io error: ".to_owned().concat(m.as_str()),
            BackendError::Unavailable(m) => "backend unavailable: ".to_owned().concat(m.as_str()),
            BackendError::Protocol(m) => "backend protocol error: ".to_owned().concat(m.as_str()),
        }
    }
}

/// An error of the history store.
#[derive(Debug, Clone, PartialEq, Eq)]
pub enum StoreError {
    /// The database reported an error, with this message.
    Db(String),
    /// The database is encrypted and has not been unlocked.
    Locked,
}

/// The message of a store error.
pub open spec fn store_message(e: StoreError) -> Seq<char> {
    match e {
        StoreError::Db(m) => "database error: "@ + m@,
        StoreError::Locked => "database is locked; unlock required"@,
    }
}

impl StoreError {
    /// The message of the error.
    pub fn message(&self) -> (r: String)
        ensures
            r@ == store_message(*self),
    {
        match self {
            StoreError::Db(m) => "database error: ".to_owned().concat(m.as_str()),
            StoreError::Locked => "database is locked; unlock required".to_owned(),
        }
    }
}

/// Whether a database message, in small letters, says that the file could not
/// be decrypted: SQLCipher reports a wrong key as "file is not a database".
pub open spec fn tells_of_decryption(low: Seq<char>) -> bool {
    has_text(low, "not a database"@) || has_text(low, "file is not a database"@) || has_text(
        low,
        "decrypt"@,
    )
}

/// Whether a database message says that the file could not be decrypted.
pub open spec fn says_undecryptable(message: Seq<char>) -> bool {
    tells_of_decryption(lower(message))
}

/// The store error that stands for a database message.
pub open spec fn classified(message: Seq<char>, e: StoreError) -> bool {
    match e {
        StoreError::Locked => says_undecryptable(message),
        StoreError::Db(m) => !says_undecryptable(message) && m@ == message,
    }
}

/// Whether `message` is one that the database gave, or one about a row of it that
/// is not as it should be.
pub open spec fn from_database(message: Seq<char>) -> bool {
    ||| exists|e: rusqlite::Error| message == #[trigger] error_text(e)
    ||| exists|row: Seq<Datum>, i: int, name: Seq<char>|
        message == #[trigger] column_message(row, i, name)
    ||| message == NO_ROWS@
}

/// Whether `e` stands for a message of the database.
pub open spec fn told_by_database(e: StoreError) -> bool {
    exists|message: Seq<char>| from_database(message) && #[trigger] classified(message, e)
}

/// The errors of the store tell a database that cannot be decrypted from other
/// errors: it is reported as `Locked`, and never as `Db`.
pub proof fn undecryptable_is_locked(e: StoreError)
    requires
        told_by_database(e),
    ensures
        e matches StoreError::Db(m) ==> !says_undecryptable(m@),
{
}

/// Whether a database message, in small letters, says that the file could not
/// be decrypted.
pub fn mentions_decryption(low: &str) -> (r: bool)
    ensures
        r == tells_of_decryption(low@),
{
    contains(low, "not a database") || contains(low, "file is not a database") || contains(
        low,
        "decrypt",
    )
}

/// Whether a database message says that the file could not be decrypted.
pub fn is_decrypt_error(message: &str) -> (r: bool)
    ensures
        r == says_undecryptable(message@),
{
    let low = to_lowercase(message);
    mentions_decryption(low.as_str())
}

/// The store error for a database message: `Locked` where the file could not be
/// decrypted, else `Db` with the message.
pub fn classify(message: String) -> (r: StoreError)
    ensures
        classified(message@, r),
{
    if is_decrypt_error(message.as_str()) {
        StoreError::Locked
    } else {
        StoreError::Db(message)
    }
}

/// The store error for a database error.
pub(crate) fn db_err(e: rusqlite::Error) -> (r: StoreError)
    ensures
        classified(error_text(e), r),
        told_by_database(r),
{
    classify(error_message(&e))
}

// ---- laws of errors ----

/// Every message says which part failed, and repeats what it was told.
pub proof fn messages_say_what_failed(b: BackendError, e: StoreError)
    ensures
        b matches BackendError::Io(m) ==> backend_message(b) == "backend io error: "@ + m@,
        b matches BackendError::Unavailable(m) ==> backend_message(b) == "backend unavailable: "@
            + m@,
        b matches BackendError::Protocol(m) ==> backend_message(b) == "backend protocol error: "@
            + m@,
        e matches StoreError::Db(m) ==> store_message(e) == "database error: "@ + m@,
        e is Locked ==> store_message(e) == "database is locked; unlock required"@,
{
}

/// Whether `part` stands in `message` in any ASCII case.
pub open spec fn mentions(message: Seq<char>, part: Seq<char>) -> bool {
    exists|at: int|
        0 <= at && at + part.len() <= message.len() && #[trigger] same_folded(
            message.subrange(at, at + part.len()),
            part,
        )
}

proof fn lemma_folded_text(message: Seq<char>, part: Seq<char>)
    requires
        folded(part) == part,
    ensures
        has_text(folded(message), part) <==> mentions(message, part),
{
    let low = folded(message);
    assert(low.len() == message.len());
    assert forall|at: int| 0 <= at && at + part.len() <= message.len() implies #[trigger] folded(
        message.subrange(at, at + part.len()),
    ) == low.subrange(at, at + part.len()) by {
        assert(folded(message.subrange(at, at + part.len())) =~= low.subrange(
            at,
            at + part.len(),
        ));
    }
    if has_text(low, part) {
        let at = choose|at: int| found_at(low, part, at);
        assert(same_folded(message.subrange(at, at + part.len()), part));
    }
    if mentions(message, part) {
        let at = choose|at: int|
            0 <= at && at + part.len() <= message.len() && #[trigger] same_folded(
                message.subrange(at, at + part.len()),
                part,
            );
        assert(found_at(low, part, at));
    }
}

/// A message in ASCII is taken for that of a file that cannot be decrypted if and only
/// if it speaks of `not a database` or of `decrypt`, in any case; and any other message
/// is passed on word for word.
pub proof fn wrong_passphrase_is_told_by_its_words(message: Seq<char>, e: StoreError)
    requires
        ascii_only(message),
        classified(message, e),
    ensures
        e is Locked <==> mentions(message, "not a database"@) || mentions(message, "decrypt"@),
        e matches StoreError::Db(m) ==> m@ == message,
{
    reveal_strlit("not a database");
    reveal_strlit("file is not a database");
    reveal_strlit("decrypt");
    let short = "not a database"@;
    let long = "file is not a database"@;
    assert(folded(short) =~= short);
    assert(folded("decrypt"@) =~= "decrypt"@);
    lemma_folded_text(message, short);
    lemma_folded_text(message, "decrypt"@);
    let low = folded(message);
    if has_text(low, long) {
        let at = choose|at: int| found_at(low, long, at);
        assert(long.subrange(8, 22) =~= short);
        assert(low.subrange(at + 8, at + 22) =~= low.subrange(at, at + 22).subrange(8, 22));
        assert(found_at(low, short, at + 8));
    }
}

/// A message is classified by what it says in small letters, in any script.
pub proof fn message_is_classified_in_small_letters(message: Seq<char>, e: StoreError)
    requires
        !ascii_only(message),
        classified(message, e),
    ensures
        e is Locked <==> has_text(unicode_lower(message), "not a database"@) || has_text(
            unicode_lower(message),
            "decrypt"@,
        ),
        e matches StoreError::Db(m) ==> m@ == message,
{
    reveal_strlit("not a database");
    reveal_strlit("file is not a database");
    let short = "not a database"@;
    let long = "file is not a database"@;
    let low = unicode_lower(message);
    if has_text(low, long) {
        let at = choose|at: int| found_at(low, long, at);
        assert(long.subrange(8, 22) =~= short);
        assert(low.subrange(at + 8, at + 22) =~= low.subrange(at, at + 22).subrange(8, 22));
        assert(found_at(low, short, at + 8));
    }
}

/// A statement that should answer with a row, and does not, is told of as such.
pub proof fn missing_row_is_told_of()
    ensures
        from_database("Query returned no rows"@),
{
}

} // verus!
