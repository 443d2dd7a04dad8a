//! The clipboard manager: applies the capture policy (size limit, excluded
//! applications, denied content, pause) to what a clipboard provider reads, and
//! hands what is accepted to a history store.

use vstd::prelude::*;
use vstd::string::*;
use vstd::utf8::*;

use crate::errors::{BackendError, StoreError};
use crate::history::{capture_outcome, captured, latest_countable, refused};
use crate::pattern::{
    compile_all, compiled_from, finds_in, is_compiled, is_found_in, regex_finds, Compiled,
};
use crate::sql::Database;
use crate::text::{eq_ignore_ascii_case, same_folded};
use crate::traits::{is_read_of, readable, ClipboardProvider, HistoryStore};
use crate::types::{
    clone_texts, events, find_plain_text, optional_text, plain_text, plain_text_is_of_the_first,
    plain_text_needs_a_plain_target, texts, values, App, AppId, ClipboardEvent, EntryId, Event,
    MimeBlob, Target, UnixMillis,
};

verus! {

broadcast use vstd::string::group_string_axioms;

/// A capture policy as a value.
pub struct Policy {
    pub max_blob_bytes: u64,
    pub excluded_apps: Seq<Seq<char>>,
    pub paused: bool,
}

/// Policy applied to every captured selection.
#[derive(Debug)]
pub struct CapturePolicy {
    /// The whole capture is skipped if any single target is larger than this.
    pub max_blob_bytes: u64,
    /// Applications whose captures are dropped entirely (password managers and
    /// the like).
    pub excluded_apps: Vec<String>,
    /// Whether all captures are dropped.
    pub paused: bool,
}

impl View for CapturePolicy {
    type V = Policy;

    open spec fn view(&self) -> Policy {
        Policy {
            max_blob_bytes: self.max_blob_bytes,
            excluded_apps: texts(self.excluded_apps@),
            paused: self.paused,
        }
    }
}

impl Clone for CapturePolicy {
    fn clone(&self) -> (r: Self)
        ensures
            r@ == self@,
    {
        CapturePolicy {
            max_blob_bytes: self.max_blob_bytes,
            excluded_apps: clone_texts(&self.excluded_apps),
            paused: self.paused,
        }
    }
}

impl Default for CapturePolicy {
    /// Targets of up to 50 MiB, from every application.
    fn default() -> (r: Self)
        ensures
            r@ == (Policy {
                max_blob_bytes: 52_428_800,
                excluded_apps: Seq::empty(),
                paused: false,
            }),
    {
        let r = CapturePolicy {
            max_blob_bytes: 52_428_800,
            excluded_apps: Vec::new(),
            paused: false,
        };
        assert(texts(r.excluded_apps@) =~= Seq::<Seq<char>>::empty());
        r
    }
}

/// Rules for matching content. They serve where the source application is not
/// known, and everywhere as an additional list of what to deny.
#[derive(Debug)]
pub struct ContentRules {
    /// Regular expressions that drop a capture if one is found in its plain
    /// text.
    pub deny_regex: Vec<String>,
}

impl View for ContentRules {
    type V = Seq<Seq<char>>;

    open spec fn view(&self) -> Seq<Seq<char>> {
        texts(self.deny_regex@)
    }
}

impl Clone for ContentRules {
    fn clone(&self) -> (r: Self)
        ensures
            r@ == self@,
    {
        ContentRules { deny_regex: clone_texts(&self.deny_regex) }
    }
}

impl Default for ContentRules {
    /// Nothing is denied.
    fn default() -> (r: Self)
        ensures
            r@ == Seq::<Seq<char>>::empty(),
    {
        let r = ContentRules { deny_regex: Vec::new() };
        assert(r@ =~= Seq::<Seq<char>>::empty());
        r
    }
}

// ---- the policy ----

/// Whether the application `id` is excluded, in any ASCII case.
pub open spec fn excluded(apps: Seq<Seq<char>>, id: Option<Seq<char>>) -> bool {
    match id {
        Some(s) => exists|i: int| 0 <= i < apps.len() && same_folded(#[trigger] apps[i], s),
        None => false,
    }
}

/// Whether some target is larger than `max` bytes.
pub open spec fn oversized(targets: Seq<Target>, max: u64) -> bool {
    exists|i: int| 0 <= i < targets.len() && (#[trigger] targets[i]).bytes.len() > max
}

/// What the policy leaves of a capture before its content is looked at: all of
/// it, or nothing.
pub open spec fn screened(policy: Policy, targets: Seq<Target>, id: Option<Seq<char>>) -> Option<
    Seq<Target>,
> {
    if policy.paused || excluded(policy.excluded_apps, id) || targets.len() == 0 || oversized(
        targets,
        policy.max_blob_bytes,
    ) {
        None
    } else {
        Some(targets)
    }
}

/// Whether one of the rules is found in `text`.
pub open spec fn denied(rules: Seq<Compiled>, text: Seq<char>) -> bool {
    exists|i: int| 0 <= i < rules.len() && finds_in(#[trigger] rules[i], text)
}

/// What is accepted of a capture: what the policy leaves, unless a rule is found in
/// its plain text.
pub open spec fn accepted(
    policy: Policy,
    targets: Seq<Target>,
    id: Option<Seq<char>>,
    rules: Seq<Compiled>,
) -> Option<Seq<Target>> {
    match screened(policy, targets, id) {
        Some(rest) => match plain_text(rest) {
            Some(text) => if denied(rules, text) {
                None
            } else {
                Some(rest)
            },
            None => Some(rest),
        },
        None => None,
    }
}

fn is_excluded(apps: &Vec<String>, id: &Option<String>) -> (r: bool)
    ensures
        r == excluded(texts(apps@), optional_text(*id)),
{
    match id {
        Some(s) => {
            let mut i: usize = 0;
            while i < apps.len()
                invariant
                    i <= apps.len(),
                    optional_text(*id) == Some(s@),
                    forall|j: int| 0 <= j < i ==> !same_folded(#[trigger] texts(apps@)[j], s@),
                decreases apps.len() - i,
            {
                assert(texts(apps@)[i as int] == apps@[i as int]@);
                if eq_ignore_ascii_case(apps[i].as_str(), s.as_str()) {
                    assert(same_folded(texts(apps@)[i as int], s@));
                    return true;
                }
                i += 1;
            }
            false
        },
        None => false,
    }
}

/// Whether some target is larger than `max` bytes.
pub fn has_oversized(targets: &Vec<MimeBlob>, max: u64) -> (r: bool)
    ensures
        r == oversized(values(targets@), max),
{
    let ghost all = values(targets@);
    let mut i: usize = 0;
    while i < targets.len()
        invariant
            i <= targets.len(),
            all == values(targets@),
            forall|j: int| 0 <= j < i ==> (#[trigger] all[j]).bytes.len() <= max,
        decreases targets.len() - i,
    {
        assert(all[i as int] == targets@[i as int]@);
        if targets[i].bytes.len() as u64 > max {
            return true;
        }
        i += 1;
    }
    false
}

/// What the policy leaves of a capture before its content is looked at.
pub fn screen(policy: &CapturePolicy, targets: Vec<MimeBlob>, source: &AppId) -> (r: Option<
    Vec<MimeBlob>,
>)
    ensures
        match r {
            Some(rest) => screened(policy@, values(targets@), source@.id) == Some(values(rest@)),
            None => screened(policy@, values(targets@), source@.id) is None,
        },
{
    if policy.paused {
        return None;
    }
    if is_excluded(&policy.excluded_apps, &source.id) {
        return None;
    }
    assert(values(targets@).len() == targets@.len());
    if targets.len() == 0 || has_oversized(&targets, policy.max_blob_bytes) {
        None
    } else {
        Some(targets)
    }
}

/// The text of the first plain-text target, if it is valid UTF-8.
pub fn text_plain(targets: &[MimeBlob]) -> (r: Option<String>)
    ensures
        match r {
            Some(s) => plain_text(values(targets@)) == Some(s@),
            None => plain_text(values(targets@)) is None,
        },
{
    match find_plain_text(targets) {
        Some(s) => Some(s.to_owned()),
        None => None,
    }
}

/// Whether one of the rules is found in `text`.
pub fn any_denies(rules: &Vec<Compiled>, text: &str) -> (r: bool)
    ensures
        r == denied(rules@, text@),
{
    let mut i: usize = 0;
    while i < rules.len()
        invariant
            i <= rules.len(),
            forall|j: int| 0 <= j < i ==> !finds_in(#[trigger] rules@[j], text@),
        decreases rules.len() - i,
    {
        if is_found_in(&rules[i], text) {
            return true;
        }
        i += 1;
    }
    false
}

/// What is accepted of a capture, for rules that were compiled.
pub fn filter_compiled(
    policy: &CapturePolicy,
    targets: Vec<MimeBlob>,
    source: &AppId,
    rules: &Vec<Compiled>,
) -> (r: Option<Vec<MimeBlob>>)
    ensures
        match r {
            Some(rest) => accepted(policy@, values(targets@), source@.id, rules@) == Some(
                values(rest@),
            ),
            None => accepted(policy@, values(targets@), source@.id, rules@) is None,
        },
{
    let rest = screen(policy, targets, source)?;
    if let Some(text) = text_plain(rest.as_slice()) {
        if any_denies(rules, text.as_str()) {
            return None;
        }
    }
    Some(rest)
}

// ---- the manager ----

/// Holds the policy and the rules, and applies them to what a provider reads.
pub struct ClipboardManager {
    policy: CapturePolicy,
    content_rules: ContentRules,
}

/// What became of a clipboard event.
#[derive(Debug)]
pub enum Handled {
    /// The clipboard was emptied; there was nothing to do.
    Cleared,
    /// The targets could not be read.
    Unreadable(BackendError),
    /// The policy dropped the capture.
    Dropped,
    /// The capture was stored as this entry.
    Captured(EntryId),
    /// The store did not take the capture.
    Failed(StoreError),
}

/// What handing a capture to a store does to the database behind it.
pub open spec fn stored(
    before: Option<Database>,
    after: Option<Database>,
    targets: Seq<Target>,
    origin: Option<Seq<char>>,
    max: u64,
    r: Result<EntryId, StoreError>,
) -> bool {
    match before {
        None => refused(after, r),
        Some(d) => after is Some && capture_outcome(d, after->0, targets, origin, max, r),
    }
}

/// What handling an event does, with the content rules as they were compiled: a
/// selection that could be read and that is accepted is handed to the store, and
/// nothing else touches it.
pub open spec fn handles(
    policy: Policy,
    ev: Event,
    read: Result<Seq<Target>, BackendError>,
    rules: Seq<Compiled>,
    before: Option<Database>,
    after: Option<Database>,
    r: Handled,
) -> bool {
    match ev {
        Event::Cleared => r is Cleared && after == before,
        Event::SelectionChanged { source } => match read {
            Err(e) => r == Handled::Unreadable(e) && after == before,
            Ok(targets) => match accepted(policy, targets, source.id, rules) {
                None => r is Dropped && after == before,
                Some(rest) => match r {
                    Handled::Captured(id) => stored(
                        before,
                        after,
                        rest,
                        source.id,
                        policy.max_blob_bytes,
                        Ok(id),
                    ),
                    Handled::Failed(e) => stored(
                        before,
                        after,
                        rest,
                        source.id,
                        policy.max_blob_bytes,
                        Err(e),
                    ),
                    _ => false,
                },
            },
        },
    }
}

/// What was read of selections between two states of a backend.
pub open spec fn new_reads<P: ClipboardProvider>(before: P, after: P) -> Seq<
    Result<Seq<Target>, BackendError>,
> {
    after.reads().skip(before.reads().len() as int)
}

/// Whether the backend did nothing but read selections: of an isolated backend,
/// the current one each time.
pub open spec fn reads_on<P: ClipboardProvider>(before: P, after: P) -> bool {
    &&& before.reads().is_prefix_of(after.reads())
    &&& after.label() == before.label()
    &&& after.caps() == before.caps()
    &&& after.offered() == before.offered()
    &&& after.offers() == before.offers()
    &&& after.isolated() == before.isolated()
    &&& before.isolated() ==> {
        &&& after.selection() == before.selection()
        &&& forall|i: int|
            0 <= i < new_reads(before, after).len() ==> is_read_of(
                #[trigger] new_reads(before, after)[i],
                before.selection(),
            )
    }
}

/// What handling events one after the other does: one selection is read for each
/// event that says that the selection changed, and each event is handled with
/// what was read for it.
pub open spec fn ran(
    policy: Policy,
    patterns: Seq<Seq<char>>,
    list: Seq<Event>,
    reads: Seq<Result<Seq<Target>, BackendError>>,
    before: Option<Database>,
    after: Option<Database>,
    results: Seq<Handled>,
) -> bool
    decreases list.len(),
{
    if list.len() == 0 {
        reads.len() == 0 && results.len() == 0 && after == before
    } else {
        &&& results.len() == list.len()
        &&& list.last() is SelectionChanged ==> reads.len() > 0
        &&& exists|mid: Option<Database>, rules: Seq<Compiled>|
            ran(
                policy,
                patterns,
                list.drop_last(),
                reads_before(list.last(), reads),
                before,
                mid,
                results.drop_last(),
            ) && (list.last() is SelectionChanged ==> compiled_from(patterns, rules))
                && #[trigger] handles(
                policy,
                list.last(),
                reads.last(),
                rules,
                mid,
                after,
                results.last(),
            )
    }
}

/// What was read before the event `ev`, of `reads` up to it.
pub open spec fn reads_before(
    ev: Event,
    reads: Seq<Result<Seq<Target>, BackendError>>,
) -> Seq<Result<Seq<Target>, BackendError>> {
    if ev is SelectionChanged {
        reads.drop_last()
    } else {
        reads
    }
}

/// While the manager is paused, no event changes the history.
pub proof fn paused_changes_nothing(
    policy: Policy,
    patterns: Seq<Seq<char>>,
    list: Seq<Event>,
    reads: Seq<Result<Seq<Target>, BackendError>>,
    before: Option<Database>,
    after: Option<Database>,
    results: Seq<Handled>,
)
    requires
        policy.paused,
        ran(policy, patterns, list, reads, before, after, results),
    ensures
        after == before,
    decreases list.len(),
{
    if list.len() > 0 {
        let (mid, rules) = choose|mid: Option<Database>, rules: Seq<Compiled>|
            ran(
                policy,
                patterns,
                list.drop_last(),
                reads_before(list.last(), reads),
                before,
                mid,
                results.drop_last(),
            ) && (list.last() is SelectionChanged ==> compiled_from(patterns, rules))
                && #[trigger] handles(
                policy,
                list.last(),
                reads.last(),
                rules,
                mid,
                after,
                results.last(),
            );
        paused_changes_nothing(
            policy,
            patterns,
            list.drop_last(),
            reads_before(list.last(), reads),
            before,
            mid,
            results.drop_last(),
        );
    }
}

/// A capture from an excluded application is dropped, in whatever case its id
/// is written.
pub proof fn excluded_is_dropped(
    policy: Policy,
    targets: Seq<Target>,
    app: Seq<char>,
    id: Seq<char>,
    rules: Seq<Compiled>,
)
    requires
        policy.excluded_apps.contains(app),
        same_folded(app, id),
    ensures
        accepted(policy, targets, Some(id), rules) is None,
{
    let i = policy.excluded_apps.index_of(app);
    assert(same_folded(policy.excluded_apps[i], id));
}

/// What is accepted is the whole capture, and none of its targets is larger than
/// the limit: one target that is too large drops the capture.
pub proof fn accepted_is_within_limit(
    policy: Policy,
    targets: Seq<Target>,
    id: Option<Seq<char>>,
    rules: Seq<Compiled>,
)
    ensures
        accepted(policy, targets, id, rules) matches Some(rest) ==> rest == targets && rest.len()
            > 0 && forall|i: int|
            0 <= i < rest.len() ==> (#[trigger] rest[i]).bytes.len() <= policy.max_blob_bytes,
        (exists|i: int|
            0 <= i < targets.len() && (#[trigger] targets[i]).bytes.len() > policy.max_blob_bytes)
            ==> accepted(policy, targets, id, rules) is None,
{
}

impl ClipboardManager {
    /// The policy, as a value.
    pub closed spec fn rule(&self) -> Policy {
        self.policy@
    }

    /// The patterns that deny a capture.
    pub closed spec fn denying(&self) -> Seq<Seq<char>> {
        self.content_rules@
    }

    /// A manager with the default policy.
    pub fn new() -> (r: Self)
        ensures
            r.rule() == (Policy {
                max_blob_bytes: 52_428_800,
                excluded_apps: Seq::empty(),
                paused: false,
            }),
            r.denying() == Seq::<Seq<char>>::empty(),
    {
        ClipboardManager {
            policy: CapturePolicy::default(),
            content_rules: ContentRules::default(),
        }
    }

    /// A copy of the policy.
    pub fn policy(&self) -> (r: CapturePolicy)
        ensures
            r@ == self.rule(),
    {
        self.policy.clone()
    }

    /// Set whether captures are dropped.
    pub fn set_paused(&mut self, paused: bool)
        ensures
            final(self).rule() == (Policy { paused, ..old(self).rule() }),
            final(self).denying() == old(self).denying(),
    {
        self.policy.paused = paused;
    }

    /// Set the applications whose captures are dropped.
    pub fn set_excluded_apps(&mut self, apps: Vec<String>)
        ensures
            final(self).rule() == (Policy { excluded_apps: texts(apps@), ..old(self).rule() }),
            final(self).denying() == old(self).denying(),
    {
        self.policy.excluded_apps = apps;
    }

    /// Set the rules on content.
    pub fn set_content_rules(&mut self, rules: ContentRules)
        ensures
            final(self).rule() == old(self).rule(),
            final(self).denying() == rules@,
    {
        self.content_rules = rules;
    }

    /// Decide whether a capture is stored: gives the targets to store, or `None`
    /// to drop the capture.
    pub fn filter_capture(&self, targets: Vec<MimeBlob>, source: &AppId) -> (r: Option<
        Vec<MimeBlob>,
    >)
        ensures
            exists|rules: Seq<Compiled>| #[trigger]
                compiled_from(self.denying(), rules) && match r {
                    Some(rest) => accepted(self.rule(), values(targets@), source@.id, rules)
                        == Some(values(rest@)),
                    None => accepted(self.rule(), values(targets@), source@.id, rules) is None,
                },
    {
        let rules = compile_all(&self.content_rules.deny_regex);
        assert(compiled_from(self.denying(), rules@));
        filter_compiled(&self.policy, targets, source, &rules)
    }

    /// Handle one event, with what was read of the selection, for rules that were
    /// compiled.
    pub fn handle_compiled<S: HistoryStore>(
        &self,
        ev: ClipboardEvent,
        read: Result<Vec<MimeBlob>, BackendError>,
        rules: &Vec<Compiled>,
        store: &mut S,
    ) -> (r: Handled)
        ensures
            handles(
                self.rule(),
                ev@,
                readable(read),
                rules@,
                old(store).history(),
                final(store).history(),
                r,
            ),
    {
        match ev {
            ClipboardEvent::Cleared => Handled::Cleared,
            ClipboardEvent::SelectionChanged { source } => {
                let targets = match read {
                    Ok(targets) => targets,
                    Err(e) => return Handled::Unreadable(e),
                };
                let rest = match filter_compiled(&self.policy, targets, &source, rules) {
                    Some(rest) => rest,
                    None => return Handled::Dropped,
                };
                match store.add_capture(rest, source, self.policy.max_blob_bytes) {
                    Ok(id) => Handled::Captured(id),
                    Err(e) => Handled::Failed(e),
                }
            },
        }
    }

    /// Handle one event, with what was read of the selection.
    pub fn handle<S: HistoryStore>(
        &self,
        ev: ClipboardEvent,
        read: Result<Vec<MimeBlob>, BackendError>,
        store: &mut S,
    ) -> (r: Handled)
        ensures
            exists|rules: Seq<Compiled>|
                compiled_from(self.denying(), rules) && #[trigger] handles(
                    self.rule(),
                    ev@,
                    readable(read),
                    rules,
                    old(store).history(),
                    final(store).history(),
                    r,
                ),
    {
        let rules = compile_all(&self.content_rules.deny_regex);
        self.handle_compiled(ev, read, &rules, store)
    }

    /// Handle events in order, and say what became of each. For each event that
    /// says that the selection changed, the selection is read once. Events for
    /// which it cannot be read, or that the store does not take, do not stop the
    /// others.
    pub fn handle_all<P: ClipboardProvider, S: HistoryStore>(
        &self,
        list: &Vec<ClipboardEvent>,
        provider: &mut P,
        store: &mut S,
    ) -> (r: Vec<Handled>)
        ensures
            ran(
                self.rule(),
                self.denying(),
                events(list@),
                new_reads(*old(provider), *final(provider)),
                old(store).history(),
                final(store).history(),
                r@,
            ),
            reads_on(*old(provider), *final(provider)),
            old(provider).isolated() ==> final(provider).pending() == old(provider).pending(),
    {
        let ghost before = store.history();
        let ghost start = *provider;
        let mut results: Vec<Handled> = Vec::new();
        let ghost all = events(list@);
        assert(new_reads(start, *provider).len() == 0);
        let mut i: usize = 0;
        while i < list.len()
            invariant
                i <= list.len(),
                all == events(list@),
                before == old(store).history(),
                start == *old(provider),
                reads_on(start, *provider),
                start.isolated() ==> provider.pending() == start.pending(),
                ran(
                    self.rule(),
                    self.denying(),
                    all.take(i as int),
                    new_reads(start, *provider),
                    before,
                    store.history(),
                    results@,
                ),
            decreases list.len() - i,
        {
            let ghost mid = store.history();
            let ghost past = results@;
            let ghost known = new_reads(start, *provider);
            let ev = list[i].clone();
            let ghost now = ev@;
            proof {
                assert(all[i as int] == list@[i as int]@);
                assert(all.take(i + 1).drop_last() == all.take(i as int));
                assert(all.take(i + 1).last() == now);
            }
            let outcome = match ev {
                ClipboardEvent::Cleared => Handled::Cleared,
                ClipboardEvent::SelectionChanged { source } => {
                    let read = provider.read_targets();
                    let ghost got = readable(read);
                    assert(new_reads(start, *provider) =~= known.push(got));
                    self.handle(ClipboardEvent::SelectionChanged { source }, read, store)
                },
            };
            results.push(outcome);
            proof {
                let reads = new_reads(start, *provider);
                assert(results@.drop_last() == past);
                assert(reads_before(now, reads) =~= known);
                let rules = choose|rules: Seq<Compiled>|
                    (now is SelectionChanged ==> compiled_from(self.denying(), rules))
                        && #[trigger] handles(
                        self.rule(),
                        now,
                        reads.last(),
                        rules,
                        mid,
                        store.history(),
                        outcome,
                    );
                assert(handles(
                    self.rule(),
                    all.take(i + 1).last(),
                    reads.last(),
                    rules,
                    mid,
                    store.history(),
                    results@.last(),
                ));
            }
            i += 1;
        }
        assert(all.take(all.len() as int) == all);
        results
    }

    /// Handle the events that have arrived at `provider`, in order, and say what
    /// became of each.
    pub fn run<P: ClipboardProvider, S: HistoryStore>(&self, provider: &mut P, store: &mut S) -> (r:
        Vec<Handled>)
        ensures
            ran(
                self.rule(),
                self.denying(),
                old(provider).pending(),
                new_reads(*old(provider), *final(provider)),
                old(store).history(),
                final(store).history(),
                r@,
            ),
            reads_on(*old(provider), *final(provider)),
            old(provider).isolated() ==> final(provider).pending() == Seq::<Event>::empty(),
            self.rule().paused ==> final(store).history() == old(store).history(),
    {
        let ghost before = store.history();
        let list = provider.subscribe();
        let results = self.handle_all(&list, provider, store);
        proof {
            let reads = new_reads(*old(provider), *provider);
            if self.rule().paused {
                paused_changes_nothing(
                    self.rule(),
                    self.denying(),
                    events(list@),
                    reads,
                    before,
                    store.history(),
                    results@,
                );
            }
        }
        results
    }
}

impl Default for ClipboardManager {
    /// A manager with the default policy.
    fn default() -> (r: Self)
        ensures
            r.rule() == (Policy {
                max_blob_bytes: 52_428_800,
                excluded_apps: Seq::empty(),
                paused: false,
            }),
            r.denying() == Seq::<Seq<char>>::empty(),
    {
        Self::new()
    }
}

// ---- laws of the capture policy ----

/// A capture whose plain text one of the rules is found in is dropped whole, wherever
/// among its targets the first plain-text one stands.
pub proof fn denied_text_drops_the_capture(
    policy: Policy,
    targets: Seq<Target>,
    id: Option<Seq<char>>,
    rules: Seq<Compiled>,
    i: int,
    k: int,
)
    requires
        0 <= i < targets.len(),
        same_folded(targets[i].mime, "text/plain"@) || same_folded(
            targets[i].mime,
            "text/plain;charset=utf-8"@,
        ),
        forall|j: int|
            0 <= j < i ==> !same_folded((#[trigger] targets[j]).mime, "text/plain"@)
                && !same_folded(targets[j].mime, "text/plain;charset=utf-8"@),
        valid_utf8(targets[i].bytes),
        0 <= k < rules.len(),
        finds_in(rules[k], decode_utf8(targets[i].bytes)),
    ensures
        accepted(policy, targets, id, rules) is None,
{
    plain_text_is_of_the_first(targets, i);
}

/// A capture whose plain text a denied pattern matches is dropped, as long as the
/// pattern can be used.
pub proof fn denied_pattern_drops_the_capture(
    policy: Policy,
    targets: Seq<Target>,
    id: Option<Seq<char>>,
    patterns: Seq<Seq<char>>,
    rules: Seq<Compiled>,
    i: int,
    k: int,
)
    requires
        0 <= i < targets.len(),
        same_folded(targets[i].mime, "text/plain"@) || same_folded(
            targets[i].mime,
            "text/plain;charset=utf-8"@,
        ),
        forall|j: int|
            0 <= j < i ==> !same_folded((#[trigger] targets[j]).mime, "text/plain"@)
                && !same_folded(targets[j].mime, "text/plain;charset=utf-8"@),
        valid_utf8(targets[i].bytes),
        compiled_from(patterns, rules),
        0 <= k < patterns.len(),
        rules[k] is Ok,
        regex_finds(patterns[k], decode_utf8(targets[i].bytes)),
    ensures
        accepted(policy, targets, id, rules) is None,
{
    assert(is_compiled(patterns[k], rules[k]));
    denied_text_drops_the_capture(policy, targets, id, rules, i, k);
}

/// A capture that nothing speaks against is accepted whole: capture is not paused, its
/// application is not excluded, it has targets, none of them is larger than the limit, and
/// no rule is found in the text of its first plain-text target.
pub proof fn clean_capture_is_accepted_whole(
    policy: Policy,
    targets: Seq<Target>,
    id: Option<Seq<char>>,
    rules: Seq<Compiled>,
)
    requires
        !policy.paused,
        id matches Some(s) ==> forall|i: int|
            0 <= i < policy.excluded_apps.len() ==> !same_folded(
                #[trigger] policy.excluded_apps[i],
                s,
            ),
        targets.len() > 0,
        forall|i: int|
            0 <= i < targets.len() ==> (#[trigger] targets[i]).bytes.len() <= policy.max_blob_bytes,
        forall|i: int, k: int|
            0 <= i < targets.len() && (same_folded((#[trigger] targets[i]).mime, "text/plain"@)
                || same_folded(targets[i].mime, "text/plain;charset=utf-8"@)) && (forall|j: int|
                0 <= j < i ==> !same_folded((#[trigger] targets[j]).mime, "text/plain"@)
                    && !same_folded(targets[j].mime, "text/plain;charset=utf-8"@)) && valid_utf8(
                targets[i].bytes,
            ) && 0 <= k < rules.len() ==> !finds_in(
                #[trigger] rules[k],
                decode_utf8(targets[i].bytes),
            ),
    ensures
        accepted(policy, targets, id, rules) == Some(targets),
{
    lemma_first_plain_target(targets, targets.len() as int);
    if exists|i: int| is_first_plain(targets, i) {
        let i = choose|i: int| is_first_plain(targets, i);
        plain_text_is_of_the_first(targets, i);
        if valid_utf8(targets[i].bytes) {
            let text = decode_utf8(targets[i].bytes);
            assert forall|k: int| 0 <= k < rules.len() implies !finds_in(
                #[trigger] rules[k],
                text,
            ) by {
                assert(targets[i] == targets[i]);
            }
        }
    } else {
        plain_text_needs_a_plain_target(targets);
    }
}

/// Whether the target at `i` is the first plain-text one.
spec fn is_first_plain(targets: Seq<Target>, i: int) -> bool {
    &&& 0 <= i < targets.len()
    &&& same_folded(targets[i].mime, "text/plain"@) || same_folded(
        targets[i].mime,
        "text/plain;charset=utf-8"@,
    )
    &&& forall|j: int|
        0 <= j < i ==> !same_folded((#[trigger] targets[j]).mime, "text/plain"@) && !same_folded(
            targets[j].mime,
            "text/plain;charset=utf-8"@,
        )
}

proof fn lemma_first_plain_target(targets: Seq<Target>, n: int)
    requires
        0 <= n <= targets.len(),
    ensures
        (exists|i: int| is_first_plain(targets, i)) || forall|j: int|
            0 <= j < n ==> !same_folded((#[trigger] targets[j]).mime, "text/plain"@)
                && !same_folded(targets[j].mime, "text/plain;charset=utf-8"@),
    decreases n,
{
    if n > 0 {
        lemma_first_plain_target(targets, n - 1);
        if forall|j: int|
            0 <= j < n - 1 ==> !same_folded((#[trigger] targets[j]).mime, "text/plain"@)
                && !same_folded(targets[j].mime, "text/plain;charset=utf-8"@) {
            if same_folded(targets[n - 1].mime, "text/plain"@) || same_folded(
                targets[n - 1].mime,
                "text/plain;charset=utf-8"@,
            ) {
                assert(is_first_plain(targets, n - 1));
            }
        }
    }
}

/// Nothing is accepted while capture is paused, of an empty capture, or of one with a
/// target above the limit.
pub proof fn paused_empty_or_oversized_is_dropped(
    policy: Policy,
    targets: Seq<Target>,
    id: Option<Seq<char>>,
    rules: Seq<Compiled>,
    i: int,
)
    requires
        policy.paused || targets.len() == 0 || (0 <= i < targets.len() && targets[i].bytes.len()
            > policy.max_blob_bytes),
    ensures
        accepted(policy, targets, id, rules) is None,
{
}

/// Handling an event stores what is accepted, and nothing else: an emptied clipboard, a
/// selection that cannot be read and one that is dropped change nothing, and one that is
/// accepted is captured whole, with its application as its origin. This is of an open
/// store that is in order.
pub proof fn handling_stores_what_is_accepted(
    policy: Policy,
    ev: Event,
    read: Result<Seq<Target>, BackendError>,
    rules: Seq<Compiled>,
    before: Database,
    after: Option<Database>,
    r: Handled,
)
    requires
        handles(policy, ev, read, rules, Some(before), after, r),
        before.ready(),
        latest_countable(before.tables),
    ensures
        ev is Cleared ==> r is Cleared && after == Some(before),
        ev matches Event::SelectionChanged { source } ==> match read {
            Err(e) => r == Handled::Unreadable(e) && after == Some(before),
            Ok(targets) => if accepted(policy, targets, source.id, rules) is None {
                r is Dropped && after == Some(before)
            } else {
                &&& after matches Some(now)
                &&& match r {
                    Handled::Captured(id) => now.ready() && exists|at: UnixMillis| #[trigger]
                        captured(
                            before.tables,
                            now.tables,
                            targets,
                            source.id,
                            policy.max_blob_bytes,
                            at,
                            id,
                        ),
                    Handled::Failed(_) => now.faults > before.faults && (now.tables
                        == before.tables || now.saved == Some(before.tables)),
                    _ => false,
                }
            },
        },
{
    if let Event::SelectionChanged { source } = ev {
        if let Ok(targets) = read {
            accepted_is_within_limit(policy, targets, source.id, rules);
        }
    }
}

/// A closed store takes nothing, and says that it is locked.
pub proof fn closed_store_takes_nothing(
    policy: Policy,
    source: App,
    targets: Seq<Target>,
    rules: Seq<Compiled>,
    after: Option<Database>,
    r: Handled,
)
    requires
        handles(policy, Event::SelectionChanged { source }, Ok(targets), rules, None, after, r),
        accepted(policy, targets, source.id, rules) is Some,
    ensures
        r == Handled::Failed(StoreError::Locked),
        after is None,
{
}

/// Every event is handled, in order, with one answer each; and a selection is read for
/// each event that says that it changed, and for no other.
pub proof fn every_event_is_handled(
    policy: Policy,
    patterns: Seq<Seq<char>>,
    list: Seq<Event>,
    reads: Seq<Result<Seq<Target>, BackendError>>,
    before: Option<Database>,
    after: Option<Database>,
    results: Seq<Handled>,
)
    requires
        ran(policy, patterns, list, reads, before, after, results),
    ensures
        results.len() == list.len(),
        reads.len() == list.filter(|ev: Event| ev is SelectionChanged).len(),
        forall|i: int|
            0 <= i < list.len() ==> was_handled(policy, patterns, list[i], #[trigger] results[i]),
    decreases list.len(),
{
    reveal(Seq::filter);
    if list.len() > 0 {
        let (mid, rules) = choose|mid: Option<Database>, rules: Seq<Compiled>|
            ran(
                policy,
                patterns,
                list.drop_last(),
                reads_before(list.last(), reads),
                before,
                mid,
                results.drop_last(),
            ) && (list.last() is SelectionChanged ==> compiled_from(patterns, rules))
                && #[trigger] handles(
                policy,
                list.last(),
                reads.last(),
                rules,
                mid,
                after,
                results.last(),
            );
        every_event_is_handled(
            policy,
            patterns,
            list.drop_last(),
            reads_before(list.last(), reads),
            before,
            mid,
            results.drop_last(),
        );
        assert forall|i: int| 0 <= i < list.len() implies was_handled(
            policy,
            patterns,
            list[i],
            #[trigger] results[i],
        ) by {
            if i < list.len() - 1 {
                assert(results.drop_last()[i] == results[i]);
                assert(list.drop_last()[i] == list[i]);
            } else {
                assert(handles(policy, list[i], reads.last(), rules, mid, after, results[i]));
            }
        }
    }
}

/// Whether `r` is what became of `ev`, with some selection, some rules that the patterns
/// were compiled to, and some state of the store.
pub open spec fn was_handled(
    policy: Policy,
    patterns: Seq<Seq<char>>,
    ev: Event,
    r: Handled,
) -> bool {
    exists|
        read: Result<Seq<Target>, BackendError>,
        rules: Seq<Compiled>,
        before: Option<Database>,
        after: Option<Database>,
    |
        (ev is SelectionChanged ==> compiled_from(patterns, rules)) && #[trigger] handles(
            policy,
            ev,
            read,
            rules,
            before,
            after,
            r,
        )
}

/// One event is handled with what was read for it, and the events before it are handled
/// first.
pub proof fn events_are_handled_in_order(
    policy: Policy,
    patterns: Seq<Seq<char>>,
    list: Seq<Event>,
    ev: Event,
    reads: Seq<Result<Seq<Target>, BackendError>>,
    before: Option<Database>,
    after: Option<Database>,
    results: Seq<Handled>,
)
    requires
        ran(policy, patterns, list.push(ev), reads, before, after, results),
    ensures
        ev is Cleared ==> ran(policy, patterns, list, reads, before, after, results.drop_last()),
        ev is SelectionChanged ==> reads.len() > 0 && exists|
            mid: Option<Database>,
            rules: Seq<Compiled>,
        |
            ran(policy, patterns, list, reads.drop_last(), before, mid, results.drop_last())
                && compiled_from(patterns, rules) && #[trigger] handles(
                policy,
                ev,
                reads.last(),
                rules,
                mid,
                after,
                results.last(),
            ),
{
    assert(list.push(ev).drop_last() =~= list);
    assert(list.push(ev).last() == ev);
}

/// Nothing of a policy or of a set of rules is lost in the value that stands for it.
pub proof fn policies_show_every_field(policy: CapturePolicy, rules: ContentRules, i: int)
    ensures
        policy@.paused == policy.paused,
        policy@.max_blob_bytes == policy.max_blob_bytes,
        policy@.excluded_apps.len() == policy.excluded_apps@.len(),
        0 <= i < policy.excluded_apps@.len() ==> policy@.excluded_apps[i]
            == policy.excluded_apps@[i]@,
        rules@.len() == rules.deny_regex@.len(),
        0 <= i < rules.deny_regex@.len() ==> rules@[i] == rules.deny_regex@[i]@,
{
}

/// Before its content is looked at, a capture is left whole or dropped whole: it is dropped
/// if and only if capture is paused, its application is excluded in any ASCII case, it is
/// empty, or one of its targets is above the limit.
pub proof fn screening_is_all_or_nothing(
    policy: Policy,
    targets: Seq<Target>,
    id: Option<Seq<char>>,
)
    ensures
        screened(policy, targets, id) is None <==> policy.paused || targets.len() == 0 || (exists|
            i: int,
        |
            0 <= i < targets.len() && (#[trigger] targets[i]).bytes.len() > policy.max_blob_bytes)
            || (id matches Some(s) && exists|i: int|
            0 <= i < policy.excluded_apps.len() && same_folded(
                #[trigger] policy.excluded_apps[i],
                s,
            )),
        screened(policy, targets, id) matches Some(rest) ==> rest == targets,
{
}

/// A backend that only reads keeps what it read before, adds what is new behind it, and
/// changes nothing else; and one that nothing else writes to reads its selection each time.
pub proof fn reading_on_adds_reads_alone<P: ClipboardProvider>(before: P, after: P, i: int)
    requires
        reads_on(before, after),
    ensures
        after.reads() == before.reads() + new_reads(before, after),
        after.label() == before.label(),
        after.caps() == before.caps(),
        after.offered() == before.offered(),
        after.offers() == before.offers(),
        before.isolated() ==> after.selection() == before.selection(),
        before.isolated() && 0 <= i < new_reads(before, after).len() ==> match before.selection() {
            Some(targets) => new_reads(before, after)[i] == Ok::<Seq<Target>, BackendError>(
                targets,
            ),
            None => new_reads(before, after)[i] is Err,
        },
{
    let n = before.reads().len() as int;
    assert(after.reads() =~= before.reads() + new_reads(before, after)) by {
        assert(after.reads().subrange(0, n) =~= before.reads());
        assert forall|k: int| 0 <= k < n implies after.reads()[k] == before.reads()[k] by {
            assert(after.reads().subrange(0, n)[k] == after.reads()[k]);
        }
    }
}

} // verus!
