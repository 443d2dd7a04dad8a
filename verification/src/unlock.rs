//! Unlocking an encrypted history. The passphrase never crosses the session
//! bus: a dialog hands it over a private channel, and the store is opened in
//! this process.

use vstd::prelude::*;
use vstd::string::*;

use crate::errors::{messages_say_what_failed, store_message, BackendError, StoreError};
use crate::handle::StoreHandle;
use crate::text::{chars_of, decode_lossy, digits, lossy_text, string_of, u64_text};
use crate::traits::HistoryStore;

verus! {

broadcast use vstd::string::group_string_axioms;

/// Outcome of an unlock attempt.
#[derive(Debug, Clone, Copy, PartialEq, Eq, Structural)]
pub enum UnlockOutcome {
    Unlocked,
    Cancelled,
    Rejected,
}

/// Outcome of an unlock attempt, or the message of what stood in its way.
pub type UnlockResult = Result<UnlockOutcome, String>;

/// Implemented by the unlock mechanism of the daemon, and injected into the
/// service.
pub trait UnlockRequest: Sized {
    /// Whether a handler that is asked can answer `r`, and is `after` then.
    closed spec fn answers(before: Self, after: Self, r: UnlockResult) -> bool {
        arbitrary()
    }

    /// Ask the user for a passphrase, and open the store with it.
    fn request(&mut self) -> (r: UnlockResult)
        ensures
            Self::answers(*old(self), *final(self), r),
    ;
}

/// The handler for when no unlock mechanism is wired, as when encryption is
/// off. It says so, and does not unlock.
pub struct NoUnlock;

impl UnlockRequest for NoUnlock {
    open spec fn answers(before: Self, after: Self, r: UnlockResult) -> bool {
        r matches Err(m) && m@ == "no unlock mechanism configured (encryption off or unavailable)"@
    }

    fn request(&mut self) -> (r: UnlockResult) {
        Err("no unlock mechanism configured (encryption off or unavailable)".to_owned())
    }
}

/// `s` without the line ends at its end.
pub open spec fn chomped(s: Seq<char>) -> Seq<char>
    decreases s.len(),
{
    if s.len() > 0 && (s.last() == '\n' || s.last() == '\r') {
        chomped(s.drop_last())
    } else {
        s
    }
}

/// `s` without the line ends at its end.
pub fn trim_line_ends(s: &str) -> (r: String)
    ensures
        r@ == chomped(s@),
{
    let mut x = chars_of(s);
    while x.len() > 0 && (x[x.len() - 1] == '\n' || x[x.len() - 1] == '\r')
        invariant
            chomped(x@) == chomped(s@),
        decreases x.len(),
    {
        let ghost before = x@;
        let _ = x.pop();
        assert(x@ == before.drop_last());
    }
    string_of(&x)
}

/// The passphrase in a text that the dialog sent, or `None` where it sent none.
pub fn passphrase_in(text: &str) -> (r: Option<String>)
    ensures
        match r {
            Some(p) => p@ == chomped(text@) && p@.len() > 0,
            None => chomped(text@).len() == 0,
        },
{
    let p = trim_line_ends(text);
    if chars_of(p.as_str()).len() == 0 {
        None
    } else {
        Some(p)
    }
}

/// The passphrase in the bytes that the dialog sent, or `None` where it sent
/// none.
pub fn passphrase_from(bytes: &[u8]) -> (r: Option<String>)
    ensures
        match r {
            Some(p) => p@ == chomped(lossy_text(bytes@)) && p@.len() > 0,
            None => chomped(lossy_text(bytes@)).len() == 0,
        },
{
    let text = decode_lossy(bytes);
    passphrase_in(text.as_str())
}

/// What an attempt to open the store means for the unlock: a store that stays
/// locked rejected the passphrase, and any other error is passed on.
pub open spec fn is_outcome_of(opened: Result<(), StoreError>, r: UnlockResult) -> bool {
    match opened {
        Ok(_) => r matches Ok(o) && o is Unlocked,
        Err(StoreError::Locked) => r matches Ok(o) && o is Rejected,
        Err(e) => r matches Err(m) && m@ == "reopen: "@ + store_message(e),
    }
}

/// What an attempt to open the store means for the unlock.
pub fn outcome_of_reopen(opened: Result<(), StoreError>) -> (r: UnlockResult)
    ensures
        is_outcome_of(opened, r),
{
    match opened {
        Ok(_) => Ok(UnlockOutcome::Unlocked),
        Err(StoreError::Locked) => Ok(UnlockOutcome::Rejected),
        Err(e) => Err("reopen: ".to_owned().concat(e.message().as_str())),
    }
}

/// Open `handle` with what the dialog sent. Nothing sent means that the user
/// cancelled, and leaves the handle alone.
pub fn unlock_with(handle: &mut StoreHandle, sent: &[u8]) -> (r: UnlockResult)
    ensures
        final(handle).path() == old(handle).path(),
        chomped(lossy_text(sent@)).len() == 0 <==> r == UnlockResult::Ok(UnlockOutcome::Cancelled),
        r == UnlockResult::Ok(UnlockOutcome::Unlocked) ==> (final(handle).history() matches Some(d)
            && d.path == old(handle).path() && d.key == Some(chomped(lossy_text(sent@)))),
        r != UnlockResult::Ok(UnlockOutcome::Unlocked) ==> final(handle).history() == old(
            handle,
        ).history(),
        chomped(lossy_text(sent@)).len() > 0 ==> exists|opened: Result<(), StoreError>| #[trigger]
            is_outcome_of(opened, r) && (old(handle).path() is None ==> (opened matches Err(
                StoreError::Db(m),
            ) && m@ == "in-memory store cannot be reopened"@)),
{
    match passphrase_from(sent) {
        None => Ok(UnlockOutcome::Cancelled),
        Some(passphrase) => outcome_of_reopen(handle.reopen(passphrase.as_str())),
    }
}

/// The name of the socket that the unlock dialog of the process `pid` talks to.
pub fn socket_name(pid: u32) -> (r: String)
    ensures
        r@ == "cling-unlock-"@ + digits(pid as nat) + ".sock"@,
{
    "cling-unlock-".to_owned().concat(u64_text(pid as u64).as_str()).concat(".sock")
}

// ---- laws of unlocking ----

/// A passphrase is what was sent up to the line ends behind it: those go, and nothing else,
/// neither a line end inside it nor any other white space.
pub proof fn line_ends_alone_are_trimmed(s: Seq<char>)
    ensures
        chomped(s).len() <= s.len(),
        forall|i: int| 0 <= i < chomped(s).len() ==> #[trigger] chomped(s)[i] == s[i],
        forall|i: int|
            chomped(s).len() <= i < s.len() ==> #[trigger] s[i] == '\n' || s[i] == '\r',
        chomped(s).len() > 0 ==> chomped(s).last() != '\n' && chomped(s).last() != '\r',
    decreases s.len(),
{
    if s.len() > 0 && (s.last() == '\n' || s.last() == '\r') {
        line_ends_alone_are_trimmed(s.drop_last());
        assert forall|i: int| 0 <= i < chomped(s).len() implies #[trigger] chomped(s)[i]
            == s[i] by {
            assert(chomped(s)[i] == chomped(s.drop_last())[i]);
        }
        assert forall|i: int| chomped(s).len() <= i < s.len() implies #[trigger] s[i] == '\n'
            || s[i] == '\r' by {
            if i < s.len() - 1 {
                assert(s.drop_last()[i] == s[i]);
            }
        }
    }
}

/// An attempt unlocks if and only if the store could be opened, and is rejected if and only
/// if the store stayed locked; any other error is told.
pub proof fn attempt_unlocks_if_the_store_opens(opened: Result<(), StoreError>, r: UnlockResult)
    requires
        is_outcome_of(opened, r),
    ensures
        opened is Ok <==> r == UnlockResult::Ok(UnlockOutcome::Unlocked),
        (opened matches Err(StoreError::Locked)) <==> r == UnlockResult::Ok(
            UnlockOutcome::Rejected,
        ),
        opened matches Err(StoreError::Db(m)) ==> (r matches Err(t) && t@ == "reopen: "@
            + "database error: "@ + m@),
        r != UnlockResult::Ok(UnlockOutcome::Cancelled),
{
    if let Err(e) = opened {
        messages_say_what_failed(BackendError::Io(arbitrary()), e);
        if let StoreError::Db(m) = e {
            assert("reopen: "@ + ("database error: "@ + m@) =~= "reopen: "@ + "database error: "@
                + m@);
        }
    }
}

/// Without an unlock mechanism nothing is ever unlocked.
pub proof fn no_mechanism_never_unlocks(before: NoUnlock, after: NoUnlock, r: UnlockResult)
    requires
        <NoUnlock as UnlockRequest>::answers(before, after, r),
    ensures
        r matches Err(m) && m@ == "no unlock mechanism configured (encryption off or unavailable)"@,
{
}

/// What the dialog sent is taken as the passphrase up to its line ends, and as a
/// cancellation where nothing else is there.
pub proof fn sent_text_is_the_passphrase(text: &str, r: Option<String>, k: int)
    requires
        call_ensures(passphrase_in, (text,), r),
    ensures
        r is None <==> forall|i: int|
            0 <= i < text@.len() ==> #[trigger] text@[i] == '\n' || text@[i] == '\r',
        r matches Some(p) ==> {
            &&& 0 < p@.len() <= text@.len()
            &&& 0 <= k < p@.len() ==> p@[k] == text@[k]
            &&& p@.last() != '\n' && p@.last() != '\r'
            &&& p@.len() <= k < text@.len() ==> text@[k] == '\n' || text@[k] == '\r'
        },
{
    line_ends_alone_are_trimmed(text@);
    let p = chomped(text@);
    if p.len() > 0 {
        assert(p[p.len() - 1] == text@[p.len() - 1]);
    }
}

/// An unlock with a passphrase opens the history at its path with that passphrase or leaves
/// it as it was, and nothing sent leaves it alone.
pub proof fn unlock_opens_or_leaves_alone(handle: &mut StoreHandle, sent: &[u8], r: UnlockResult)
    requires
        call_ensures(unlock_with, (handle, sent), r),
    ensures
        final(handle).path() == old(handle).path(),
        chomped(lossy_text(sent@)).len() == 0 ==> r == UnlockResult::Ok(UnlockOutcome::Cancelled),
        r == UnlockResult::Ok(UnlockOutcome::Unlocked) ==> {
            &&& final(handle).history() matches Some(d)
            &&& d.key == Some(chomped(lossy_text(sent@)))
            &&& d.path == old(handle).path()
        },
        r != UnlockResult::Ok(UnlockOutcome::Unlocked) ==> final(handle).history() == old(
            handle,
        ).history(),
{
}

/// Each process has an unlock socket of its own.
pub proof fn sockets_go_by_process(pid: u32, r: String)
    requires
        call_ensures(socket_name, (pid,), r),
    ensures
        r@ == "cling-unlock-"@ + digits(pid as nat) + ".sock"@,
{
}

} // verus!
