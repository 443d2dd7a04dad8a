//! The service `org.cling.ClipboardManager` that the popup, the command line
//! client and the GNOME Shell extension talk to.
//!
//! The service decides and answers; what it wants done on the outside, such as
//! a signal on the bus, it puts into an outbox. The unlock passphrase never
//! crosses the bus: `RequestUnlock` goes to an injected [`UnlockRequest`].

use vstd::prelude::*;
use vstd::string::*;
use vstd::utf8::*;

use crate::dto::{
    all_carried, summaries_to_wire, targets_from_wire, wire_values, CapsDto, EntryDto, StateDto,
    SummaryDto, TargetDto,
};
use crate::errors::{backend_message, BackendError, StoreError};
use crate::history::{
    answers_search, capture_outcome, captured, changed_if_ok, cleared, countable, failed, flag,
    is_entry, is_page, latest_countable, summaries, unchanged, without_all,
};
use crate::laws_listing::{found_row_shows_its_entry, is_preview_of, listed_row_shows_its_entry};
use crate::manager::{
    accepted, clean_capture_is_accepted_whole, denied_text_drops_the_capture, filter_compiled,
    paused_empty_or_oversized_is_dropped, CapturePolicy, ClipboardManager, ContentRules, Policy,
};
use crate::pattern::{
    check_pattern, compile_all, compiled_from, finds_in, regex_error_text, regex_syntax_error,
    regex_wellformed, Compiled, PatternError,
};
use crate::sql::{bumped, live, same_place, with_group, with_pin, Database, Tables};
use crate::text::{decimal, i64_text, same_folded, same_text};
use crate::traits::{ClipboardProvider, HistoryStore};
use crate::types::{
    clone_texts, kind_name, named_kind, optional_text, texts, AppId, EntryId, FullEntry, Summary,
    Target, UnixMillis,
};
use crate::unlock::{UnlockOutcome, UnlockRequest, UnlockResult};

verus! {

broadcast use vstd::string::group_string_axioms;

/// The bus name of the service.
pub const BUS_NAME: &'static str = "org.cling.ClipboardManager";

/// The object path of the service.
pub const OBJECT_PATH: &'static str = "/org/cling/ClipboardManager";

/// The interface of the service.
pub const IFACE_NAME: &'static str = "org.cling.ClipboardManager";

/// How large a target of a pushed capture may be: 50 MiB.
pub const MAX_PUSHED_BYTES: u64 = 52_428_800;

/// An error that a caller of the service gets.
#[derive(Debug, Clone, PartialEq, Eq)]
pub enum ServiceError {
    Failed(String),
}

/// Whether `r` is the failure with the message `m`.
pub open spec fn fails<T>(r: Result<T, ServiceError>, m: Seq<char>) -> bool {
    r matches Err(ServiceError::Failed(t)) && t@ == m
}

/// The message that a caller gets for a store error.
pub open spec fn store_failure(e: StoreError) -> Seq<char> {
    match e {
        StoreError::Locked => "database is locked"@,
        StoreError::Db(m) => m@,
    }
}

/// The service error for a store error.
pub fn dbus_err(e: StoreError) -> (r: ServiceError)
    ensures
        r matches ServiceError::Failed(m) && m@ == store_failure(e),
{
    match e {
        StoreError::Locked => ServiceError::Failed("database is locked".to_owned()),
        StoreError::Db(m) => ServiceError::Failed(m),
    }
}

/// What the service wants done on the outside.
#[derive(Debug, Clone, Copy, PartialEq, Eq, Structural)]
pub enum Effect {
    /// Signal that an entry was added.
    EntryAdded(EntryId),
    /// Signal that an entry was removed.
    EntryRemoved(EntryId),
    /// Signal the state of the service.
    StateChanged { paused: bool, locked: bool },
    /// Signal that the history was unlocked.
    Unlocked,
    /// Synthesize a paste.
    AutoPaste,
}

/// The state of the service as a value.
pub struct Status {
    pub paused: bool,
    pub locked: bool,
    pub excluded_apps: Seq<Seq<char>>,
    pub deny_regex: Seq<Seq<char>>,
}

struct ServiceState {
    paused: bool,
    locked: bool,
    excluded_apps: Vec<String>,
    deny_regex: Vec<String>,
}

impl ServiceState {
    spec fn status(&self) -> Status {
        Status {
            paused: self.paused,
            locked: self.locked,
            excluded_apps: texts(self.excluded_apps@),
            deny_regex: texts(self.deny_regex@),
        }
    }
}

/// `list` without the texts that are equal to `x`.
pub open spec fn without_text(list: Seq<Seq<char>>, x: Seq<char>) -> Seq<Seq<char>>
    decreases list.len(),
{
    if list.len() == 0 {
        Seq::empty()
    } else if list.last() == x {
        without_text(list.drop_last(), x)
    } else {
        without_text(list.drop_last(), x).push(list.last())
    }
}

/// A text that is taken out of a list is gone, and the others stay.
pub proof fn without_text_is_exact(list: Seq<Seq<char>>, x: Seq<char>, y: Seq<char>)
    ensures
        without_text(list, x).contains(y) <==> list.contains(y) && y != x,
    decreases list.len(),
{
    if list.len() > 0 {
        let before = list.drop_last();
        let past = without_text(before, x);
        let now = without_text(list, x);
        without_text_is_exact(before, x, y);
        if past.contains(y) {
            assert(now[past.index_of(y)] == y);
        }
        if before.contains(y) {
            assert(list[before.index_of(y)] == y);
        }
        if now.contains(y) {
            let i = now.index_of(y);
            if i < past.len() {
                assert(past[i] == y);
            } else {
                assert(list[list.len() - 1] == y);
            }
        }
        if list.contains(y) && y != x {
            let i = list.index_of(y);
            if i < before.len() {
                assert(before[i] == y);
            } else {
                assert(now.last() == y);
            }
        }
    }
}

fn retain_others(list: &Vec<String>, x: &str) -> (r: Vec<String>)
    ensures
        texts(r@) == without_text(texts(list@), x@),
{
    let ghost all = texts(list@);
    let mut out: Vec<String> = Vec::new();
    assert(texts(out@) =~= without_text(all.take(0), x@));
    let mut i: usize = 0;
    while i < list.len()
        invariant
            i <= list.len(),
            all == texts(list@),
            texts(out@) == without_text(all.take(i as int), x@),
        decreases list.len() - i,
    {
        assert(all.take(i + 1).drop_last() == all.take(i as int));
        assert(all.take(i + 1).last() == list@[i as int]@);
        if !same_text(list[i].as_str(), x) {
            let ghost before = out@;
            out.push(list[i].clone());
            assert(texts(out@) == texts(before).push(list@[i as int]@));
        }
        i += 1;
    }
    assert(all.take(all.len() as int) == all);
    out
}

/// Whether `list` carries the page of the history, or of one group of it.
pub open spec fn carries_page(
    t: Tables,
    offset: i64,
    limit: i64,
    group: Option<i64>,
    list: Seq<SummaryDto>,
) -> bool {
    exists|sums: Seq<Summary>|
        is_page(t, offset, limit, group, sums) && #[trigger] all_carried(list, sums)
}

/// Whether `list` carries what a search answers.
pub open spec fn carries_search(
    t: Tables,
    query: Seq<char>,
    limit: i64,
    list: Seq<SummaryDto>,
) -> bool {
    exists|sums: Seq<Summary>|
        answers_search(t, query, limit, sums) && #[trigger] all_carried(list, sums)
}

/// The bus object: the store, the provider that entries are offered to, the
/// live capture policy and the unlock handler.
pub struct ClipboardManagerService<S: HistoryStore, P: ClipboardProvider, U: UnlockRequest> {
    store: S,
    provider: P,
    unlock: U,
    state: ServiceState,
    auto_paste: bool,
    outbox: Vec<Effect>,
}

impl<S: HistoryStore, P: ClipboardProvider, U: UnlockRequest> ClipboardManagerService<S, P, U> {
    /// The state of the service.
    pub closed spec fn status(&self) -> Status {
        self.state.status()
    }

    /// The history store.
    pub closed spec fn store(&self) -> S {
        self.store
    }

    /// The clipboard backend.
    pub closed spec fn provider(&self) -> P {
        self.provider
    }

    /// The unlock handler.
    pub closed spec fn handler(&self) -> U {
        self.unlock
    }

    /// What is to be done on the outside and has not been taken yet.
    pub closed spec fn effects(&self) -> Seq<Effect> {
        self.outbox@
    }

    /// Whether a paste can be synthesized.
    pub closed spec fn can_paste(&self) -> bool {
        self.auto_paste
    }

    /// Whether this differs from `before` in the store at most.
    pub open spec fn keeps(&self, before: Self) -> bool {
        &&& self.status() == before.status()
        &&& self.provider() == before.provider()
        &&& self.effects() == before.effects()
        &&& self.can_paste() == before.can_paste()
        &&& self.handler() == before.handler()
    }

    /// Whether this differs from `before` in the state and the outbox at most.
    pub open spec fn keeps_parts(&self, before: Self) -> bool {
        &&& self.store() == before.store()
        &&& self.provider() == before.provider()
        &&& self.can_paste() == before.can_paste()
        &&& self.handler() == before.handler()
    }

    /// A service that is neither paused nor locked.
    pub fn new(store: S, provider: P, unlock: U) -> (r: Self)
        ensures
            r.store() == store,
            r.provider() == provider,
            r.handler() == unlock,
            r.effects() == Seq::<Effect>::empty(),
            !r.can_paste(),
            r.status() == (Status {
                paused: false,
                locked: false,
                excluded_apps: Seq::empty(),
                deny_regex: Seq::empty(),
            }),
    {
        let state = ServiceState {
            paused: false,
            locked: false,
            excluded_apps: Vec::new(),
            deny_regex: Vec::new(),
        };
        assert(texts(state.excluded_apps@) =~= Seq::<Seq<char>>::empty());
        assert(texts(state.deny_regex@) =~= Seq::<Seq<char>>::empty());
        ClipboardManagerService {
            store,
            provider,
            unlock,
            state,
            auto_paste: false,
            outbox: Vec::new(),
        }
    }

    /// Say whether a paste can be synthesized.
    pub fn with_auto_paste(self, auto_paste: bool) -> (r: Self)
        ensures
            r.can_paste() == auto_paste,
            r.store() == self.store(),
            r.provider() == self.provider(),
            r.handler() == self.handler(),
            r.effects() == self.effects(),
            r.status() == self.status(),
    {
        let mut service = self;
        service.auto_paste = auto_paste;
        service
    }

    /// Take what is to be done on the outside, in order.
    pub fn take_effects(&mut self) -> (r: Vec<Effect>)
        ensures
            r@ == old(self).effects(),
            final(self).effects() == Seq::<Effect>::empty(),
            final(self).keeps_parts(*old(self)),
            final(self).status() == old(self).status(),
    {
        let mut list: Vec<Effect> = Vec::new();
        std::mem::swap(&mut list, &mut self.outbox);
        list
    }

    /// Give the manager of the capture loop the policy that callers have set:
    /// whether capture is paused, the excluded applications and the denied
    /// content.
    pub fn apply_policy(&self, manager: &mut ClipboardManager)
        ensures
            final(manager).rule() == (Policy {
                max_blob_bytes: old(manager).rule().max_blob_bytes,
                excluded_apps: self.status().excluded_apps,
                paused: self.status().paused,
            }),
            final(manager).denying() == self.status().deny_regex,
    {
        manager.set_paused(self.state.paused);
        manager.set_excluded_apps(clone_texts(&self.state.excluded_apps));
        manager.set_content_rules(ContentRules { deny_regex: clone_texts(&self.state.deny_regex) });
    }

    fn ensure_unlocked(&self) -> (r: Result<(), ServiceError>)
        ensures
            r is Ok <==> !self.status().locked,
            r is Err ==> fails(r, "database is locked; call RequestUnlock"@),
    {
        if self.state.locked {
            return Err(ServiceError::Failed("database is locked; call RequestUnlock".to_owned()));
        }
        Ok(())
    }

    // ---- properties ----

    /// Whether the history is locked.
    pub fn locked(&self) -> (r: bool)
        ensures
            r == self.status().locked,
    {
        self.state.locked
    }

    /// Whether capture is paused.
    pub fn paused(&self) -> (r: bool)
        ensures
            r == self.status().paused,
    {
        self.state.paused
    }

    /// The name of the clipboard backend.
    pub fn backend_name(&self) -> (r: String)
        ensures
            r@ == self.provider().label(),
    {
        self.provider.name().to_owned()
    }

    /// What the clipboard backend can do.
    pub fn caps(&self) -> (r: CapsDto)
        ensures
            r == (CapsDto {
                silent_history: self.provider().caps().silent_history,
                auto_paste: self.provider().caps().auto_paste,
                source_id: self.provider().caps().source_id,
            }),
    {
        let c = self.provider.capabilities();
        CapsDto {
            silent_history: c.silent_history,
            auto_paste: c.auto_paste,
            source_id: c.source_id,
        }
    }

    /// How many entries there are.
    pub fn entry_count(&mut self) -> (r: Result<i64, ServiceError>)
        ensures
            final(self).keeps(*old(self)),
            old(self).status().locked ==> fails(r, "database is locked; call RequestUnlock"@)
                && final(self).store() == old(self).store(),
            !old(self).status().locked ==> match old(self).store().history() {
                None => fails(r, "database is locked"@),
                Some(d) => final(self).store().history() matches Some(now) && (d.ready() && live(
                    d.tables,
                ).len() <= i64::MAX ==> unchanged(d, now, r is Ok) && (r matches Ok(n)
                    ==> n == live(d.tables).len())),
            },
    {
        self.ensure_unlocked()?;
        match self.store.count() {
            Ok(n) => Ok(n),
            Err(e) => Err(dbus_err(e)),
        }
    }

    // ---- methods ----

    /// A page of the history, or of one group of it, newest first.
    pub fn query(&mut self, offset: i64, limit: i64, group: Option<i64>) -> (r: Result<
        Vec<SummaryDto>,
        ServiceError,
    >)
        ensures
            final(self).keeps(*old(self)),
            old(self).status().locked ==> fails(r, "database is locked; call RequestUnlock"@)
                && final(self).store() == old(self).store(),
            !old(self).status().locked ==> match old(self).store().history() {
                None => fails(r, "database is locked"@),
                Some(d) => final(self).store().history() matches Some(now) && (d.ready()
                    ==> unchanged(d, now, r is Ok) && (r matches Ok(list) ==> carries_page(
                    d.tables,
                    offset,
                    limit,
                    group,
                    list@,
                ))),
            },
    {
        self.ensure_unlocked()?;
        match self.store.query(offset, limit, group) {
            Ok(rows) => {
                let ghost sums = summaries(rows@);
                let list = summaries_to_wire(rows);
                assert(all_carried(list@, sums));
                Ok(list)
            },
            Err(e) => Err(dbus_err(e)),
        }
    }

    /// The entries that `query` finds, or the newest ones where it holds nothing
    /// to search for.
    pub fn search(&mut self, query: &str, limit: i64) -> (r: Result<Vec<SummaryDto>, ServiceError>)
        ensures
            final(self).keeps(*old(self)),
            old(self).status().locked ==> fails(r, "database is locked; call RequestUnlock"@)
                && final(self).store() == old(self).store(),
            !old(self).status().locked ==> match old(self).store().history() {
                None => fails(r, "database is locked"@),
                Some(d) => final(self).store().history() matches Some(now) && (d.ready()
                    ==> unchanged(d, now, r is Ok) && (r matches Ok(list) ==> carries_search(
                    d.tables,
                    query@,
                    limit,
                    list@,
                ))),
            },
    {
        self.ensure_unlocked()?;
        match self.store.search(query, limit) {
            Ok(rows) => {
                let ghost sums = summaries(rows@);
                let list = summaries_to_wire(rows);
                assert(all_carried(list@, sums));
                Ok(list)
            },
            Err(e) => Err(dbus_err(e)),
        }
    }

    /// The entry `id` with all of its targets, if there is one.
    pub fn get_entry(&mut self, id: EntryId) -> (r: Result<Option<EntryDto>, ServiceError>)
        ensures
            final(self).keeps(*old(self)),
            old(self).status().locked ==> fails(r, "database is locked; call RequestUnlock"@)
                && final(self).store() == old(self).store(),
            !old(self).status().locked ==> match old(self).store().history() {
                None => fails(r, "database is locked"@),
                Some(d) => final(self).store().history() matches Some(now) && (d.ready()
                    ==> unchanged(d, now, r is Ok) && match r {
                    Ok(Some(dto)) => live(d.tables).contains(id) && exists|e: FullEntry| #[trigger]
                        is_entry(d.tables, id, e) && dto.carries(e),
                    Ok(None) => !live(d.tables).contains(id),
                    Err(_) => true,
                }),
            },
    {
        self.ensure_unlocked()?;
        match self.store.get_entry(id) {
            Ok(Some(e)) => {
                let ghost full = e@;
                let dto = EntryDto::from(e);
                assert(dto.carries(full));
                Ok(Some(dto))
            },
            Ok(None) => Ok(None),
            Err(e) => Err(dbus_err(e)),
        }
    }

    /// What comes of an entry that was offered to the clipboard backend: where the
    /// backend did not take it, that is the failure, and else the use is counted,
    /// and a paste is synthesized if it is asked for, if the backend can, and if it
    /// is wired.
    pub open spec fn settles_pick(
        &self,
        after: Self,
        id: EntryId,
        auto_paste: bool,
        offered: Result<(), BackendError>,
        r: Result<(), ServiceError>,
    ) -> bool {
        &&& after.status() == self.status()
        &&& after.can_paste() == self.can_paste()
        &&& after.handler() == self.handler()
        &&& after.effects() == if r is Ok && auto_paste && self.can_paste()
            && self.provider().caps().auto_paste {
            self.effects().push(Effect::AutoPaste)
        } else {
            self.effects()
        }
        &&& match offered {
            Err(e) => {
                &&& fails(r, "offer: "@ + backend_message(e))
                &&& self.store().history() matches Some(d) ==> (d.ready()
                    ==> (after.store().history() matches Some(now) && unchanged(d, now, true)))
            },
            Ok(_) => match self.store().history() {
                None => fails(r, "database is locked"@),
                Some(d) => after.store().history() matches Some(now) && (d.ready() && countable(
                    d.tables,
                    id,
                ) ==> changed_if_ok(d, now, bumped(d.tables, id), r is Ok)),
            },
        }
    }

    /// Draw the consequences of having offered the entry `id`.
    pub fn settle_pick(
        &mut self,
        id: EntryId,
        auto_paste: bool,
        offered: Result<(), BackendError>,
    ) -> (r: Result<(), ServiceError>)
        ensures
            old(self).settles_pick(*final(self), id, auto_paste, offered, r),
            final(self).provider() == old(self).provider(),
            offered is Err ==> final(self).store() == old(self).store(),
    {
        match offered {
            Ok(_) => {},
            Err(e) => return Err(
                ServiceError::Failed("offer: ".to_owned().concat(e.message().as_str())),
            ),
        }
        match self.store.bump_use_count(id) {
            Ok(_) => {},
            Err(e) => return Err(dbus_err(e)),
        }
        if auto_paste && self.provider.capabilities().auto_paste && self.auto_paste {
            self.outbox.push(Effect::AutoPaste);
        }
        Ok(())
    }

    /// Whether the entry `id` was offered to the clipboard backend, once and with
    /// all of its targets, and what comes of it was settled.
    pub open spec fn offers_entry(
        &self,
        after: Self,
        d: Database,
        id: EntryId,
        auto_paste: bool,
        r: Result<(), ServiceError>,
    ) -> bool {
        exists|e: FullEntry, offered: Result<(), BackendError>|
            #[trigger] is_entry(d.tables, id, e) && after.provider().offers()
                == self.provider().offers().push((e.targets, offered)) && (offered is Ok
                ==> after.provider().offered() == Some(e.targets)) && #[trigger] self.settles_pick(
                after,
                id,
                auto_paste,
                offered,
                r,
            )
    }

    /// Offer an entry back onto the clipboard and count the use. A paste is
    /// synthesized if it is asked for, if the backend can, and if it is wired.
    pub fn pick(&mut self, id: EntryId, auto_paste: bool) -> (r: Result<(), ServiceError>)
        ensures
            final(self).status() == old(self).status(),
            final(self).can_paste() == old(self).can_paste(),
            final(self).handler() == old(self).handler(),
            final(self).provider().caps() == old(self).provider().caps(),
            final(self).provider().label() == old(self).provider().label(),
            r is Err ==> final(self).effects() == old(self).effects(),
            old(self).status().locked ==> fails(r, "database is locked; call RequestUnlock"@)
                && *final(self) == *old(self),
            !old(self).status().locked ==> match old(self).store().history() {
                None => fails(r, "database is locked"@) && final(self).provider() == old(
                    self,
                ).provider(),
                Some(d) => final(self).store().history() matches Some(now) && (d.ready() ==> {
                    ||| r is Err && final(self).provider() == old(self).provider() && unchanged(
                        d,
                        now,
                        false,
                    )
                    ||| !live(d.tables).contains(id) && final(self).provider() == old(
                        self,
                    ).provider() && fails(r, "no entry "@ + decimal(id as int)) && unchanged(
                        d,
                        now,
                        true,
                    )
                    ||| live(d.tables).contains(id) && old(self).offers_entry(
                        *final(self),
                        d,
                        id,
                        auto_paste,
                        r,
                    )
                }),
            },
    {
        self.ensure_unlocked()?;
        let entry = match self.store.get_entry(id) {
            Ok(Some(e)) => e,
            Ok(None) => return Err(no_entry(id)),
            Err(e) => return Err(dbus_err(e)),
        };
        let ghost full = entry@;
        let offered = self.provider.offer(&entry);
        let r = self.settle_pick(id, auto_paste, offered);
        proof {
            if let Some(d) = old(self).store().history() {
                if d.ready() {
                    assert(old(self).settles_pick(*self, id, auto_paste, offered, r));
                    assert(is_entry(d.tables, id, full));
                }
            }
        }
        r
    }

    /// The policy that pushed captures are under.
    pub open spec fn push_policy(&self) -> Policy {
        Policy {
            max_blob_bytes: MAX_PUSHED_BYTES,
            excluded_apps: self.status().excluded_apps,
            paused: self.status().paused,
        }
    }

    /// What taking a pushed capture does, with the content rules as they were
    /// compiled: a locked or a paused service refuses it, the policy may drop it,
    /// and else it is stored and signalled.
    pub open spec fn pushes(
        &self,
        after: Self,
        targets: Seq<Target>,
        rules: Seq<Compiled>,
        r: Result<EntryId, ServiceError>,
    ) -> bool {
        &&& after.status() == self.status()
        &&& after.provider() == self.provider()
        &&& after.can_paste() == self.can_paste()
        &&& after.handler() == self.handler()
        &&& after.effects() == match r {
            Ok(id) => self.effects().push(Effect::EntryAdded(id)),
            Err(_) => self.effects(),
        }
        &&& if self.status().locked {
            fails(r, "database is locked"@) && after.store() == self.store()
        } else if self.status().paused {
            fails(r, "capture is paused"@) && after.store() == self.store()
        } else {
            match accepted(self.push_policy(), targets, None, rules) {
                None => fails(r, "capture dropped by policy"@) && after.store() == self.store(),
                Some(rest) => match self.store().history() {
                    None => fails(r, "database is locked"@),
                    Some(d) => after.store().history() matches Some(now) && match r {
                        Ok(id) => capture_outcome(d, now, rest, None, MAX_PUSHED_BYTES, Ok(id)),
                        Err(_) => d.ready() && latest_countable(d.tables) ==> failed(d, now),
                    },
                },
            }
        }
    }

    /// Take a capture that is pushed, for content rules that were compiled.
    pub fn add_entry_compiled(&mut self, targets: Vec<TargetDto>, rules: &Vec<Compiled>) -> (r:
        Result<EntryId, ServiceError>)
        ensures
            old(self).pushes(*final(self), wire_values(targets@), rules@, r),
    {
        if self.state.locked {
            return Err(ServiceError::Failed("database is locked".to_owned()));
        }
        if self.state.paused {
            return Err(ServiceError::Failed("capture is paused".to_owned()));
        }
        let policy = CapturePolicy {
            max_blob_bytes: MAX_PUSHED_BYTES,
            excluded_apps: clone_texts(&self.state.excluded_apps),
            paused: self.state.paused,
        };
        let source = AppId::default();
        let rest = match filter_compiled(&policy, targets_from_wire(targets), &source, rules) {
            Some(rest) => rest,
            None => return Err(ServiceError::Failed("capture dropped by policy".to_owned())),
        };
        match self.store.add_capture(rest, source, MAX_PUSHED_BYTES) {
            Ok(id) => {
                self.outbox.push(Effect::EntryAdded(id));
                Ok(id)
            },
            Err(e) => Err(dbus_err(e)),
        }
    }

    /// Take a capture that the GNOME Shell extension or another producer pushes.
    /// The capture policy applies here too: pause, denied content, and the size
    /// limit of 50 MiB. Since the source is not known, no application is
    /// excluded.
    pub fn add_entry(&mut self, targets: Vec<TargetDto>) -> (r: Result<EntryId, ServiceError>)
        ensures
            exists|rules: Seq<Compiled>|
                compiled_from(old(self).status().deny_regex, rules) && #[trigger] old(self).pushes(
                    *final(self),
                    wire_values(targets@),
                    rules,
                    r,
                ),
    {
        let rules = compile_all(&self.state.deny_regex);
        self.add_entry_compiled(targets, &rules)
    }

    /// Delete the entries `ids`, and signal each.
    pub fn delete(&mut self, ids: Vec<EntryId>) -> (r: Result<(), ServiceError>)
        ensures
            final(self).status() == old(self).status(),
            final(self).provider() == old(self).provider(),
            final(self).can_paste() == old(self).can_paste(),
            final(self).handler() == old(self).handler(),
            final(self).effects() == old(self).effects() + if r is Ok {
                ids@.map_values(|id: EntryId| Effect::EntryRemoved(id))
            } else {
                Seq::empty()
            },
            old(self).status().locked ==> fails(r, "database is locked; call RequestUnlock"@)
                && final(self).store() == old(self).store(),
            !old(self).status().locked ==> match old(self).store().history() {
                None => fails(r, "database is locked"@),
                Some(d) => final(self).store().history() matches Some(now) && (d.ready()
                    ==> match r {
                    Ok(_) => now.ready() && same_place(d, now) && now.tables == without_all(
                        d.tables,
                        ids@,
                    ),
                    Err(_) => failed(d, now),
                }),
            },
    {
        let ghost start = self.outbox@;
        assert(start =~= start + Seq::<Effect>::empty());
        self.ensure_unlocked()?;
        match self.store.delete(ids.as_slice()) {
            Ok(_) => {},
            Err(e) => return Err(dbus_err(e)),
        }
        let ghost removed = ids@.map_values(|id: EntryId| Effect::EntryRemoved(id));
        let ghost mid = *self;
        let mut i: usize = 0;
        assert(self.outbox@ =~= start + removed.take(0));
        while i < ids.len()
            invariant
                i <= ids.len(),
                removed == ids@.map_values(|id: EntryId| Effect::EntryRemoved(id)),
                self.outbox@ == start + removed.take(i as int),
                self.store == mid.store,
                self.provider == mid.provider,
                self.state == mid.state,
                self.auto_paste == mid.auto_paste,
                self.unlock == mid.unlock,
            decreases ids.len() - i,
        {
            self.outbox.push(Effect::EntryRemoved(ids[i]));
            assert(removed.take(i + 1) == removed.take(i as int).push(removed[i as int]));
            assert(self.outbox@ =~= start + removed.take(i + 1));
            i += 1;
        }
        assert(removed.take(removed.len() as int) == removed);
        Ok(())
    }

    /// Set whether the entry `id` is pinned.
    pub fn set_pinned(&mut self, id: EntryId, pinned: bool) -> (r: Result<(), ServiceError>)
        ensures
            final(self).keeps(*old(self)),
            old(self).status().locked ==> fails(r, "database is locked; call RequestUnlock"@)
                && final(self).store() == old(self).store(),
            !old(self).status().locked ==> match old(self).store().history() {
                None => fails(r, "database is locked"@),
                Some(d) => final(self).store().history() matches Some(now) && (d.ready()
                    ==> changed_if_ok(d, now, with_pin(d.tables, id, flag(pinned)), r is Ok)),
            },
    {
        self.ensure_unlocked()?;
        match self.store.set_pinned(id, pinned) {
            Ok(_) => Ok(()),
            Err(e) => Err(dbus_err(e)),
        }
    }

    /// Set the group of the entry `id`. A group that does not exist is refused
    /// for an entry that does.
    pub fn set_group(&mut self, id: EntryId, group: Option<i64>) -> (r: Result<(), ServiceError>)
        ensures
            final(self).keeps(*old(self)),
            old(self).status().locked ==> fails(r, "database is locked; call RequestUnlock"@)
                && final(self).store() == old(self).store(),
            !old(self).status().locked ==> match old(self).store().history() {
                None => fails(r, "database is locked"@),
                Some(d) => final(self).store().history() matches Some(now) && (d.ready()
                    ==> changed_if_ok(d, now, with_group(d.tables, id, group), r is Ok) && (r is Ok
                    && live(d.tables).contains(id) ==> (group matches Some(g)
                    ==> d.tables.groups.contains(g)))),
            },
    {
        self.ensure_unlocked()?;
        match self.store.set_group(id, group) {
            Ok(_) => Ok(()),
            Err(e) => Err(dbus_err(e)),
        }
    }

    /// Delete all entries.
    pub fn clear(&mut self) -> (r: Result<(), ServiceError>)
        ensures
            final(self).keeps(*old(self)),
            old(self).status().locked ==> fails(r, "database is locked; call RequestUnlock"@)
                && final(self).store() == old(self).store(),
            !old(self).status().locked ==> match old(self).store().history() {
                None => fails(r, "database is locked"@),
                Some(d) => final(self).store().history() matches Some(now) && (d.ready()
                    ==> match r {
                    Ok(_) => now.ready() && same_place(d, now) && now.tables == cleared(d.tables),
                    Err(_) => failed(d, now),
                }),
            },
    {
        self.ensure_unlocked()?;
        match self.store.clear() {
            Ok(_) => Ok(()),
            Err(e) => Err(dbus_err(e)),
        }
    }

    /// Pause or resume capture, and signal the state.
    pub fn pause(&mut self, paused: bool)
        ensures
            final(self).keeps_parts(*old(self)),
            final(self).status() == (Status { paused, ..old(self).status() }),
            final(self).effects() == old(self).effects().push(
                Effect::StateChanged { paused, locked: old(self).status().locked },
            ),
    {
        self.state.paused = paused;
        self.outbox.push(Effect::StateChanged { paused, locked: self.state.locked });
    }

    /// Exclude an application from capture.
    pub fn exclude_app_add(&mut self, app: &str)
        ensures
            final(self).keeps_parts(*old(self)),
            final(self).effects() == old(self).effects(),
            final(self).status() == (Status {
                excluded_apps: old(self).status().excluded_apps.push(app@),
                ..old(self).status()
            }),
    {
        let ghost before = self.state.excluded_apps@;
        self.state.excluded_apps.push(app.to_owned());
        assert(texts(self.state.excluded_apps@) =~= texts(before).push(app@));
    }

    /// Exclude an application no longer.
    pub fn exclude_app_remove(&mut self, app: &str)
        ensures
            final(self).keeps_parts(*old(self)),
            final(self).effects() == old(self).effects(),
            final(self).status() == (Status {
                excluded_apps: without_text(old(self).status().excluded_apps, app@),
                ..old(self).status()
            }),
    {
        let rest = retain_others(&self.state.excluded_apps, app);
        self.state.excluded_apps = rest;
    }

    /// Deny captures by a pattern, where `check` says whether it is a regular
    /// expression or else why not.
    pub fn admit_pattern(&mut self, pattern: &str, check: Result<(), PatternError>) -> (r: Result<
        (),
        ServiceError,
    >)
        ensures
            final(self).keeps_parts(*old(self)),
            final(self).effects() == old(self).effects(),
            match check {
                Ok(_) => r is Ok && final(self).status() == (Status {
                    deny_regex: old(self).status().deny_regex.push(pattern@),
                    ..old(self).status()
                }),
                Err(p) => fails(r, "bad regex: "@ + p.text()) && final(self).status() == old(
                    self,
                ).status(),
            },
    {
        match check {
            Ok(_) => {
                let ghost before = self.state.deny_regex@;
                self.state.deny_regex.push(pattern.to_owned());
                assert(texts(self.state.deny_regex@) =~= texts(before).push(pattern@));
                Ok(())
            },
            Err(p) => {
                let m = p.message();
                Err(ServiceError::Failed("bad regex: ".to_owned().concat(m.as_str())))
            },
        }
    }

    /// Deny captures whose plain text holds a match of `pattern`. A pattern that
    /// is not a regular expression is refused; one that is, only if it is too big
    /// when it is compiled.
    pub fn exclude_content_regex_add(&mut self, pattern: &str) -> (r: Result<(), ServiceError>)
        ensures
            final(self).keeps_parts(*old(self)),
            final(self).effects() == old(self).effects(),
            final(self).status() == if r is Ok {
                Status {
                    deny_regex: old(self).status().deny_regex.push(pattern@),
                    ..old(self).status()
                }
            } else {
                old(self).status()
            },
            r is Ok ==> regex_wellformed(pattern@),
            r is Err ==> exists|e: regex::Error|
                fails(r, "bad regex: "@ + #[trigger] regex_error_text(e)) && regex_syntax_error(e)
                    == !regex_wellformed(pattern@),
    {
        let check = check_pattern(pattern);
        self.admit_pattern(pattern, check)
    }

    /// Deny captures by `pattern` no longer.
    pub fn exclude_content_regex_remove(&mut self, pattern: &str)
        ensures
            final(self).keeps_parts(*old(self)),
            final(self).effects() == old(self).effects(),
            final(self).status() == (Status {
                deny_regex: without_text(old(self).status().deny_regex, pattern@),
                ..old(self).status()
            }),
    {
        let rest = retain_others(&self.state.deny_regex, pattern);
        self.state.deny_regex = rest;
    }

    /// Lock the history, and signal the state.
    pub fn lock(&mut self)
        ensures
            final(self).keeps_parts(*old(self)),
            final(self).status() == (Status { locked: true, ..old(self).status() }),
            final(self).effects() == old(self).effects().push(
                Effect::StateChanged { paused: old(self).status().paused, locked: true },
            ),
    {
        self.state.locked = true;
        self.outbox.push(Effect::StateChanged { paused: self.state.paused, locked: true });
    }

    /// What an unlock attempt means for the service: it unlocks and signals
    /// that, it stays as it is where the user cancelled, and a passphrase that
    /// was rejected is an error.
    pub open spec fn settles(
        &self,
        after: Self,
        outcome: UnlockResult,
        r: Result<bool, ServiceError>,
    ) -> bool {
        &&& after.store() == self.store()
        &&& after.provider() == self.provider()
        &&& after.can_paste() == self.can_paste()
        &&& match outcome {
            Ok(UnlockOutcome::Unlocked) => {
                &&& r == Ok::<bool, ServiceError>(true)
                &&& after.status() == (Status { locked: false, ..self.status() })
                &&& after.effects() == self.effects().push(Effect::Unlocked).push(
                    Effect::StateChanged { paused: self.status().paused, locked: false },
                )
            },
            Ok(UnlockOutcome::Cancelled) => {
                &&& r == Ok::<bool, ServiceError>(false)
                &&& after.status() == self.status()
                &&& after.effects() == self.effects()
            },
            Ok(UnlockOutcome::Rejected) => {
                &&& fails(r, "incorrect passphrase"@)
                &&& after.status() == self.status()
                &&& after.effects() == self.effects()
            },
            Err(m) => {
                &&& fails(r, "unlock: "@ + m@)
                &&& after.status() == self.status()
                &&& after.effects() == self.effects()
            },
        }
    }

    /// Draw the consequences of an unlock attempt.
    pub fn settle_unlock(&mut self, outcome: UnlockResult) -> (r: Result<bool, ServiceError>)
        ensures
            old(self).settles(*final(self), outcome, r),
            final(self).handler() == old(self).handler(),
    {
        match outcome {
            Ok(UnlockOutcome::Unlocked) => {
                self.state.locked = false;
                self.outbox.push(Effect::Unlocked);
                self.outbox.push(
                    Effect::StateChanged { paused: self.state.paused, locked: false },
                );
                Ok(true)
            },
            Ok(UnlockOutcome::Cancelled) => Ok(false),
            Ok(UnlockOutcome::Rejected) => Err(
                ServiceError::Failed("incorrect passphrase".to_owned()),
            ),
            Err(m) => Err(ServiceError::Failed("unlock: ".to_owned().concat(m.as_str()))),
        }
    }

    /// Ask the injected handler to unlock, and draw the consequences of its answer.
    /// The history is unlocked if the answer is `true`, and stays as it was
    /// otherwise.
    pub fn request_unlock(&mut self) -> (r: Result<bool, ServiceError>)
        ensures
            exists|outcome: UnlockResult|
                U::answers(old(self).handler(), final(self).handler(), outcome) && #[trigger] old(
                    self,
                ).settles(*final(self), outcome, r),
    {
        let outcome = self.unlock.request();
        let r = self.settle_unlock(outcome);
        assert(old(self).settles(*self, outcome, r));
        r
    }

    /// A snapshot of the state. While the history is locked, or where it cannot
    /// be counted, the number of entries is -1.
    pub fn state(&mut self) -> (r: StateDto)
        ensures
            final(self).keeps(*old(self)),
            r.paused == old(self).status().paused,
            r.locked == old(self).status().locked,
            r.backend@ == old(self).provider().label(),
            texts(r.excluded_apps@) == old(self).status().excluded_apps,
            old(self).status().locked ==> r.entry_count == -1 && final(self).store() == old(
                self,
            ).store(),
            !old(self).status().locked ==> match old(self).store().history() {
                None => r.entry_count == -1,
                Some(d) => final(self).store().history() matches Some(now) && (d.ready() && live(
                    d.tables,
                ).len() <= i64::MAX ==> unchanged(d, now, r.entry_count != -1) && (r.entry_count
                    != -1 ==> r.entry_count == live(d.tables).len())),
            },
    {
        let entry_count: i64 = if self.state.locked {
            -1
        } else {
            match self.store.count() {
                Ok(n) => n,
                Err(_) => -1,
            }
        };
        StateDto {
            paused: self.state.paused,
            locked: self.state.locked,
            backend: self.provider.name().to_owned(),
            entry_count,
            excluded_apps: clone_texts(&self.state.excluded_apps),
        }
    }
}

/// The error for an entry that is not there.
pub fn no_entry(id: EntryId) -> (r: ServiceError)
    ensures
        r matches ServiceError::Failed(m) && m@ == "no entry "@ + decimal(id as int),
{
    ServiceError::Failed("no entry ".to_owned().concat(i64_text(id).as_str()))
}

// ---- laws of the service ----

/// Callers are told what went wrong: that the history is locked, or what the database said.
pub proof fn callers_are_told_what_failed(e: StoreError, r: Result<(), ServiceError>, m: Seq<char>)
    ensures
        e is Locked ==> store_failure(e) == "database is locked"@,
        e matches StoreError::Db(t) ==> store_failure(e) == t@,
        fails(r, m) ==> (r matches Err(ServiceError::Failed(t)) && t@ == m),
{
}

/// A row of a page over the bus shows its entry as it stands in the tables.
pub proof fn queried_row_shows_its_entry(
    t: Tables,
    offset: i64,
    limit: i64,
    group: Option<i64>,
    list: Seq<SummaryDto>,
    i: int,
)
    requires
        carries_page(t, offset, limit, group, list),
        0 <= i < list.len(),
    ensures
        wire_row_shows_its_entry(t, list[i]),
        group is Some ==> list[i].group == group,
        exists|sums: Seq<Summary>|
            is_page(t, offset, limit, group, sums) && sums.len() == list.len() && (
            #[trigger] sums[i]).id == list[i].id,
{
    let sums = choose|sums: Seq<Summary>|
        is_page(t, offset, limit, group, sums) && #[trigger] all_carried(list, sums);
    listed_row_shows_its_entry(t, offset, limit, group, sums, i);
    assert(list[i].carries(sums[i]));
    assert(sums[i].id == list[i].id);
}

/// A row that a search answers over the bus shows its entry as it stands in the tables.
pub proof fn searched_row_shows_its_entry(
    t: Tables,
    query: Seq<char>,
    limit: i64,
    list: Seq<SummaryDto>,
    i: int,
)
    requires
        carries_search(t, query, limit, list),
        0 <= i < list.len(),
    ensures
        wire_row_shows_its_entry(t, list[i]),
        exists|sums: Seq<Summary>|
            answers_search(t, query, limit, sums) && sums.len() == list.len() && (
            #[trigger] sums[i]).id == list[i].id,
{
    let sums = choose|sums: Seq<Summary>|
        answers_search(t, query, limit, sums) && #[trigger] all_carried(list, sums);
    found_row_shows_its_entry(t, query, limit, sums, i);
    assert(list[i].carries(sums[i]));
    assert(sums[i].id == list[i].id);
}

/// Whether the row `s` on the wire shows the entry of its id as it stands in the tables.
pub open spec fn wire_row_shows_its_entry(t: Tables, s: SummaryDto) -> bool {
    let row = t.entries[s.id];
    &&& t.entries.contains_key(s.id)
    &&& s.ts == row.ts
    &&& s.pinned == (row.pinned != 0)
    &&& s.group == row.group_id
    &&& s.use_count == row.use_count as u32
    &&& s.preview_kind@ == kind_name(named_kind(row.preview_kind))
    &&& s.size_bytes == row.size_bytes as u64
    &&& row.origin is None ==> s.origin is None
    &&& row.origin matches Some(x) ==> (s.origin matches Some(y) && y@ == x)
    &&& if t.targets.contains_key((s.id, "text/plain"@)) {
        is_preview_of(t.targets[(s.id, "text/plain"@)], optional_text(s.preview_text))
    } else if t.targets.contains_key((s.id, "text/plain;charset=utf-8"@)) {
        is_preview_of(t.targets[(s.id, "text/plain;charset=utf-8"@)], optional_text(s.preview_text))
    } else {
        s.preview_text is None
    }
}

/// A push that is refused leaves the history and the outbox alone: while the service is
/// locked or paused, for nothing at all, for a target of more than 50 MiB, and for a text
/// that a rule is found in.
pub proof fn refused_push_changes_nothing<S: HistoryStore, P: ClipboardProvider, U: UnlockRequest>(
    before: ClipboardManagerService<S, P, U>,
    after: ClipboardManagerService<S, P, U>,
    targets: Seq<Target>,
    rules: Seq<Compiled>,
    r: Result<EntryId, ServiceError>,
    i: int,
    k: int,
)
    requires
        before.pushes(after, targets, rules, r),
    ensures
        before.status().locked ==> fails(r, "database is locked"@) && after.store()
            == before.store() && after.effects() == before.effects(),
        !before.status().locked && before.status().paused ==> fails(r, "capture is paused"@)
            && after.store() == before.store() && after.effects() == before.effects(),
        !before.status().locked && !before.status().paused && (targets.len() == 0 || (0 <= i
            < targets.len() && targets[i].bytes.len() > 52_428_800) || (0 <= i < targets.len()
            && (same_folded(targets[i].mime, "text/plain"@) || same_folded(
            targets[i].mime,
            "text/plain;charset=utf-8"@,
        )) && (forall|j: int|
            0 <= j < i ==> !same_folded((#[trigger] targets[j]).mime, "text/plain"@)
                && !same_folded(targets[j].mime, "text/plain;charset=utf-8"@)) && valid_utf8(
            targets[i].bytes,
        ) && 0 <= k < rules.len() && finds_in(rules[k], decode_utf8(targets[i].bytes)))) ==> fails(
            r,
            "capture dropped by policy"@,
        ) && after.store() == before.store() && after.effects() == before.effects(),
        after.status() == before.status(),
        after.provider() == before.provider(),
{
    if targets.len() == 0 || (0 <= i < targets.len() && targets[i].bytes.len() > 52_428_800) {
        paused_empty_or_oversized_is_dropped(before.push_policy(), targets, None, rules, i);
    } else if 0 <= i < targets.len() && (same_folded(targets[i].mime, "text/plain"@) || same_folded(
        targets[i].mime,
        "text/plain;charset=utf-8"@,
    )) && (forall|j: int|
        0 <= j < i ==> !same_folded((#[trigger] targets[j]).mime, "text/plain"@) && !same_folded(
            targets[j].mime,
            "text/plain;charset=utf-8"@,
        )) && valid_utf8(targets[i].bytes) && 0 <= k < rules.len() && finds_in(
        rules[k],
        decode_utf8(targets[i].bytes),
    ) {
        denied_text_drops_the_capture(before.push_policy(), targets, None, rules, i, k);
    }
}

/// A push that nothing speaks against is captured whole, without an origin, and signalled:
/// the service is neither locked nor paused, there are targets, none of them has more than
/// 50 MiB, and no rule is found in the text of the first plain-text one. Excluded
/// applications do not matter, since the source is not known.
pub proof fn clean_push_is_captured<S: HistoryStore, P: ClipboardProvider, U: UnlockRequest>(
    before: ClipboardManagerService<S, P, U>,
    after: ClipboardManagerService<S, P, U>,
    targets: Seq<Target>,
    rules: Seq<Compiled>,
    r: Result<EntryId, ServiceError>,
    d: Database,
)
    requires
        before.pushes(after, targets, rules, r),
        !before.status().locked,
        !before.status().paused,
        targets.len() > 0,
        forall|i: int| 0 <= i < targets.len() ==> (#[trigger] targets[i]).bytes.len() <= 52_428_800,
        forall|i: int, k: int|
            0 <= i < targets.len() && (same_folded((#[trigger] targets[i]).mime, "text/plain"@)
                || same_folded(targets[i].mime, "text/plain;charset=utf-8"@)) && (forall|j: int|
                0 <= j < i ==> !same_folded((#[trigger] targets[j]).mime, "text/plain"@)
                    && !same_folded(targets[j].mime, "text/plain;charset=utf-8"@)) && valid_utf8(
                targets[i].bytes,
            ) && 0 <= k < rules.len() ==> !finds_in(
                #[trigger] rules[k],
                decode_utf8(targets[i].bytes),
            ),
        before.store().history() == Some(d),
        d.ready(),
        latest_countable(d.tables),
    ensures
        after.store().history() is Some,
        r matches Ok(id) ==> {
            &&& after.effects() == before.effects().push(Effect::EntryAdded(id))
            &&& exists|now: UnixMillis| #[trigger]
                captured(
                    d.tables,
                    after.store().history()->0.tables,
                    targets,
                    None,
                    52_428_800,
                    now,
                    id,
                )
        },
        r is Err ==> after.effects() == before.effects() && after.store().history()->0.faults
            > d.faults,
{
    clean_capture_is_accepted_whole(before.push_policy(), targets, None, rules);
}

/// An entry that is picked is offered with all of its targets; a use of it is counted if and
/// only if the backend took the offer and the database is well, and a paste is asked for if
/// the caller wants one and all that it needs is there.
pub proof fn picked_entry_is_offered_and_counted<
    S: HistoryStore,
    P: ClipboardProvider,
    U: UnlockRequest,
>(
    before: ClipboardManagerService<S, P, U>,
    after: ClipboardManagerService<S, P, U>,
    d: Database,
    id: EntryId,
    auto_paste: bool,
    r: Result<(), ServiceError>,
)
    requires
        before.store().history() == Some(d),
        d.ready(),
        d.tables.entries.contains_key(id),
        d.tables.entries[id].use_count < i64::MAX,
        before.offers_entry(after, d, id, auto_paste, r),
    ensures
        after.store().history() is Some,
        exists|e: FullEntry, offered: Result<(), BackendError>|
            #[trigger] is_entry(d.tables, id, e) && after.provider().offers()
                == before.provider().offers().push((e.targets, offered)) && #[trigger] settled_as(
                offered,
                r,
                d,
                after.store().history()->0,
                id,
            ),
        r is Ok && auto_paste && before.can_paste() && before.provider().caps().auto_paste
            ==> after.effects() == before.effects().push(Effect::AutoPaste),
        !(r is Ok && auto_paste && before.can_paste() && before.provider().caps().auto_paste)
            ==> after.effects() == before.effects(),
{
    let (e, offered) = choose|e: FullEntry, offered: Result<(), BackendError>|
        #[trigger] is_entry(d.tables, id, e) && after.provider().offers()
            == before.provider().offers().push((e.targets, offered)) && (offered is Ok
            ==> after.provider().offered() == Some(e.targets)) && #[trigger] before.settles_pick(
            after,
            id,
            auto_paste,
            offered,
            r,
        );
    let now = after.store().history()->0;
    if offered is Ok && r is Ok {
        assert(now.tables == bumped(d.tables, id));
        assert(now.tables.entries.dom() =~= d.tables.entries.dom());
    }
    assert(settled_as(offered, r, d, now, id));
}

/// Whether an offer ended as it should: one that the backend did not take is the failure
/// that is told, and changes no row, and one that it took counts as one use, unless the
/// database tells of an error.
pub open spec fn settled_as(
    offered: Result<(), BackendError>,
    r: Result<(), ServiceError>,
    before: Database,
    after: Database,
    id: EntryId,
) -> bool {
    match offered {
        Err(e) => fails(r, "offer: "@ + backend_message(e)) && after.tables == before.tables,
        Ok(_) => if r is Ok {
            after.tables.entries[id].use_count == before.tables.entries[id].use_count + 1
                && after.tables.entries.dom() == before.tables.entries.dom() && after.tables.targets
                == before.tables.targets && after.faults == before.faults
        } else {
            after.tables == before.tables && after.faults > before.faults
        },
    }
}

/// The service is unlocked by an attempt that unlocks, and by no other: that one is
/// signalled, a cancelled one is answered with `false`, and a rejected passphrase or
/// another obstacle is told as an error. The rest of the service stays as it was.
pub proof fn only_unlocking_unlocks<S: HistoryStore, P: ClipboardProvider, U: UnlockRequest>(
    before: ClipboardManagerService<S, P, U>,
    after: ClipboardManagerService<S, P, U>,
    outcome: UnlockResult,
    r: Result<bool, ServiceError>,
)
    requires
        before.settles(after, outcome, r),
    ensures
        outcome == UnlockResult::Ok(UnlockOutcome::Unlocked) <==> r == Ok::<bool, ServiceError>(
            true,
        ),
        outcome == UnlockResult::Ok(UnlockOutcome::Unlocked) ==> !after.status().locked
            && after.effects() == before.effects().push(Effect::Unlocked).push(
            Effect::StateChanged { paused: before.status().paused, locked: false },
        ),
        outcome != UnlockResult::Ok(UnlockOutcome::Unlocked) ==> after.status().locked
            == before.status().locked && after.effects() == before.effects(),
        outcome == UnlockResult::Ok(UnlockOutcome::Cancelled) ==> r == Ok::<bool, ServiceError>(
            false,
        ),
        outcome == UnlockResult::Ok(UnlockOutcome::Rejected) ==> fails(r, "incorrect passphrase"@),
        outcome matches Err(m) ==> fails(r, "unlock: "@ + m@),
        after.status().paused == before.status().paused,
        after.status().excluded_apps == before.status().excluded_apps,
        after.status().deny_regex == before.status().deny_regex,
        after.store() == before.store(),
        after.provider() == before.provider(),
{
}

/// Texts that are taken out of a list leave the others in their order.
pub proof fn without_text_keeps_order(
    a: Seq<Seq<char>>,
    y: Seq<char>,
    b: Seq<Seq<char>>,
    x: Seq<char>,
)
    ensures
        without_text(Seq::empty(), x) == Seq::<Seq<char>>::empty(),
        y != x ==> without_text(seq![y], x) == seq![y],
        without_text(seq![x], x) == Seq::<Seq<char>>::empty(),
        without_text(a + b, x) == without_text(a, x) + without_text(b, x),
    decreases b.len(),
{
    assert(seq![x].drop_last() =~= Seq::empty());
    assert(seq![y].drop_last() =~= Seq::empty());
    assert(without_text(seq![x].drop_last(), x) =~= Seq::empty());
    if y != x {
        assert(without_text(seq![y], x) =~= seq![y]);
    }
    if b.len() == 0 {
        assert(a + b =~= a);
        assert(without_text(a, x) + without_text(b, x) =~= without_text(a, x));
    } else {
        without_text_keeps_order(a, y, b.drop_last(), x);
        assert((a + b).drop_last() =~= a + b.drop_last());
        assert((a + b).last() == b.last());
        assert(without_text(a + b, x) =~= without_text(a, x) + without_text(b, x));
    }
}

/// What a page over the bus holds is the page, and what a search holds is the answer: as
/// many rows, and the same entries in the same order.
pub proof fn bus_lists_are_whole(
    t: Tables,
    offset: i64,
    limit: i64,
    group: Option<i64>,
    query: Seq<char>,
    list: Seq<SummaryDto>,
)
    ensures
        carries_page(t, offset, limit, group, list) ==> exists|sums: Seq<Summary>| #[trigger]
            is_page(t, offset, limit, group, sums) && sums.len() == list.len() && forall|i: int|
                0 <= i < list.len() ==> (#[trigger] sums[i]).id == list[i].id,
        carries_search(t, query, limit, list) ==> exists|sums: Seq<Summary>| #[trigger]
            answers_search(t, query, limit, sums) && sums.len() == list.len() && forall|i: int|
                0 <= i < list.len() ==> (#[trigger] sums[i]).id == list[i].id,
{
    if carries_page(t, offset, limit, group, list) {
        let sums = choose|sums: Seq<Summary>|
            is_page(t, offset, limit, group, sums) && #[trigger] all_carried(list, sums);
        assert forall|i: int| 0 <= i < list.len() implies (#[trigger] sums[i]).id == list[i].id by {
            assert(list[i].carries(sums[i]));
        }
    }
    if carries_search(t, query, limit, list) {
        let sums = choose|sums: Seq<Summary>|
            answers_search(t, query, limit, sums) && #[trigger] all_carried(list, sums);
        assert forall|i: int| 0 <= i < list.len() implies (#[trigger] sums[i]).id == list[i].id by {
            assert(list[i].carries(sums[i]));
        }
    }
}

/// What a request does not speak of stays: the parts of the service that it keeps are the
/// same afterwards.
pub proof fn kept_parts_are_the_same<S: HistoryStore, P: ClipboardProvider, U: UnlockRequest>(
    before: ClipboardManagerService<S, P, U>,
    after: ClipboardManagerService<S, P, U>,
)
    ensures
        after.keeps(before) ==> after.status() == before.status() && after.provider()
            == before.provider() && after.effects() == before.effects() && after.can_paste()
            == before.can_paste() && after.handler() == before.handler(),
        after.keeps_parts(before) ==> after.store() == before.store() && after.provider()
            == before.provider() && after.can_paste() == before.can_paste() && after.handler()
            == before.handler(),
{
}

/// Settling a pick never touches the state of the service, asks for a paste only after a
/// success, and fails where the backend did not take the offer or the history is closed.
pub proof fn settling_a_pick_is_exact<S: HistoryStore, P: ClipboardProvider, U: UnlockRequest>(
    before: ClipboardManagerService<S, P, U>,
    after: ClipboardManagerService<S, P, U>,
    id: EntryId,
    auto_paste: bool,
    offered: Result<(), BackendError>,
    r: Result<(), ServiceError>,
)
    requires
        before.settles_pick(after, id, auto_paste, offered, r),
    ensures
        after.status() == before.status(),
        offered matches Err(e) ==> fails(r, "offer: "@ + backend_message(e)),
        offered is Ok && before.store().history() is None ==> fails(r, "database is locked"@),
        r is Ok && auto_paste && before.can_paste() && before.provider().caps().auto_paste
            ==> after.effects() == before.effects().push(Effect::AutoPaste),
        !(r is Ok && auto_paste && before.can_paste() && before.provider().caps().auto_paste)
            ==> after.effects() == before.effects(),
        before.store().history() matches Some(d) ==> (d.ready() && d.tables.entries.contains_key(id)
            && d.tables.entries[id].use_count < i64::MAX ==> (after.store().history() matches Some(
            now,
        ) && settled_as(offered, r, d, now, id))),
{
    if let Some(d) = before.store().history() {
        if d.ready() && d.tables.entries.contains_key(id) && d.tables.entries[id].use_count
            < i64::MAX {
            if let Some(now) = after.store().history() {
                if offered is Ok && r is Ok {
                    assert(now.tables == bumped(d.tables, id));
                    assert(now.tables.entries.dom() =~= d.tables.entries.dom());
                }
            }
        }
    }
}

/// The service goes by one name on the bus, at one place, and takes targets of up to 50 MiB.
pub proof fn service_goes_by_its_name()
    ensures
        BUS_NAME@ == "org.cling.ClipboardManager"@,
        OBJECT_PATH@ == "/org/cling/ClipboardManager"@,
        IFACE_NAME@ == "org.cling.ClipboardManager"@,
        MAX_PUSHED_BYTES == 50 * 1024 * 1024,
{
}

} // verus!
