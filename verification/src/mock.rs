//! A clipboard backend in memory, for tests and headless runs. Selections are
//! pushed into it, and what was offered can be read back.

use vstd::prelude::*;
use vstd::string::*;

use crate::errors::BackendError;
use crate::traits::{readable, ClipboardProvider};
use crate::types::{
    clone_targets, events, values, App, AppId, Caps, ClipboardEvent, Entry, Event, MimeBlob, Target,
};

verus! {

broadcast use vstd::string::group_string_axioms;

/// The targets in an optional list, as values.
pub open spec fn optional_values(list: Option<Vec<MimeBlob>>) -> Option<Seq<Target>> {
    match list {
        Some(targets) => Some(values(targets@)),
        None => None,
    }
}

/// A controllable backend.
pub struct MockBackend {
    caps: Caps,
    name: &'static str,
    queue: Vec<ClipboardEvent>,
    current: Option<Vec<MimeBlob>>,
    source: AppId,
    last: Option<Vec<MimeBlob>>,
    read: Ghost<Seq<Result<Seq<Target>, BackendError>>>,
    taken: Ghost<Seq<(Seq<Target>, Result<(), BackendError>)>>,
}

impl MockBackend {
    /// The application that the current selection came from.
    pub closed spec fn owner(&self) -> App {
        self.source@
    }

    /// A backend without a selection.
    pub fn new(name: &'static str, caps: Caps) -> (r: Self)
        ensures
            r.label() == name@,
            r.caps() == caps,
            r.offered() is None,
            r.isolated(),
            r.reads() == Seq::<Result<Seq<Target>, BackendError>>::empty(),
            r.offers() == Seq::<(Seq<Target>, Result<(), BackendError>)>::empty(),
            r.pending() == Seq::<Event>::empty(),
            r.selection() is None,
            r.owner() == (App { id: None, label: None }),
    {
        let r = MockBackend {
            caps,
            name,
            queue: Vec::new(),
            current: None,
            source: AppId::default(),
            last: None,
            read: Ghost(Seq::empty()),
            taken: Ghost(Seq::empty()),
        };
        assert(r.pending() =~= Seq::<Event>::empty());
        r
    }

    /// Push a new selection, as if another application had copied it.
    pub fn push_selection(&mut self, targets: Vec<MimeBlob>, source: AppId)
        ensures
            final(self).selection() == Some(values(targets@)),
            final(self).owner() == source@,
            final(self).pending() == old(self).pending().push(
                Event::SelectionChanged { source: source@ },
            ),
            final(self).label() == old(self).label(),
            final(self).caps() == old(self).caps(),
            final(self).offered() == old(self).offered(),
            final(self).reads() == old(self).reads(),
            final(self).offers() == old(self).offers(),
            final(self).isolated() == old(self).isolated(),
    {
        self.current = Some(targets);
        self.source = source.clone();
        self.queue.push(ClipboardEvent::SelectionChanged { source });
        assert(self.pending() =~= old(self).pending().push(
            Event::SelectionChanged { source: source@ },
        ));
    }

    /// Empty the clipboard.
    pub fn clear(&mut self)
        ensures
            final(self).selection() is None,
            final(self).owner() == old(self).owner(),
            final(self).pending() == old(self).pending().push(Event::Cleared),
            final(self).label() == old(self).label(),
            final(self).caps() == old(self).caps(),
            final(self).offered() == old(self).offered(),
            final(self).reads() == old(self).reads(),
            final(self).offers() == old(self).offers(),
            final(self).isolated() == old(self).isolated(),
    {
        self.current = None;
        self.queue.push(ClipboardEvent::Cleared);
        assert(self.pending() =~= old(self).pending().push(Event::Cleared));
    }

    /// What was last offered onto the clipboard.
    pub fn last_offered(&self) -> (r: Option<Vec<MimeBlob>>)
        ensures
            optional_values(r) == self.offered(),
    {
        match &self.last {
            Some(targets) => Some(clone_targets(targets)),
            None => None,
        }
    }
}

impl ClipboardProvider for MockBackend {
    closed spec fn label(&self) -> Seq<char> {
        self.name@
    }

    closed spec fn caps(&self) -> Caps {
        self.caps
    }

    closed spec fn offered(&self) -> Option<Seq<Target>> {
        optional_values(self.last)
    }

    closed spec fn pending(&self) -> Seq<Event> {
        events(self.queue@)
    }

    closed spec fn reads(&self) -> Seq<Result<Seq<Target>, BackendError>> {
        self.read@
    }

    closed spec fn offers(&self) -> Seq<(Seq<Target>, Result<(), BackendError>)> {
        self.taken@
    }

    open spec fn isolated(&self) -> bool {
        true
    }

    closed spec fn selection(&self) -> Option<Seq<Target>> {
        optional_values(self.current)
    }

    fn name(&self) -> (r: &'static str) {
        self.name
    }

    fn capabilities(&self) -> (r: Caps) {
        self.caps
    }

    fn subscribe(&mut self) -> (r: Vec<ClipboardEvent>)
        ensures
            final(self).owner() == old(self).owner(),
    {
        let mut list: Vec<ClipboardEvent> = Vec::new();
        std::mem::swap(&mut list, &mut self.queue);
        assert(self.pending() =~= Seq::<Event>::empty());
        list
    }

    fn read_targets(&mut self) -> (r: Result<Vec<MimeBlob>, BackendError>)
        ensures
            r matches Err(e) ==> (e matches BackendError::Unavailable(m) && m@
                == "no current selection"@),
            final(self).owner() == old(self).owner(),
    {
        let r = match &self.current {
            Some(targets) => Ok(clone_targets(targets)),
            None => Err(BackendError::Unavailable("no current selection".to_owned())),
        };
        proof {
            self.read@ = self.read@.push(readable(r));
        }
        r
    }

    fn offer(&mut self, entry: &Entry) -> (r: Result<(), BackendError>)
        ensures
            r is Ok,
            final(self).selection() == Some(entry@.targets),
            final(self).pending() == old(self).pending(),
            final(self).owner() == old(self).owner(),
    {
        self.last = Some(clone_targets(&entry.targets));
        self.current = Some(clone_targets(&entry.targets));
        let r: Result<(), BackendError> = Ok(());
        proof {
            self.taken@ = self.taken@.push((entry@.targets, r));
        }
        r
    }

    fn source_hint(&self) -> (r: Result<AppId, BackendError>)
        ensures
            r matches Ok(app) && app@ == self.owner(),
    {
        Ok(self.source.clone())
    }
}

/// What is pushed into the backend is read from it, as it is, and tells where it came from;
/// and what is offered is the selection afterwards.
pub proof fn pushed_selection_is_read(
    pushing: &mut MockBackend,
    reading: &mut MockBackend,
    offering: &mut MockBackend,
    targets: Vec<MimeBlob>,
    source: AppId,
    read: Result<Vec<MimeBlob>, BackendError>,
    entry: &Entry,
    taken: Result<(), BackendError>,
)
    requires
        call_ensures(MockBackend::push_selection, (pushing, targets, source), ()),
        call_ensures(MockBackend::read_targets, (reading,), read),
        call_ensures(MockBackend::offer, (offering, entry), taken),
        *old(reading) == *final(pushing),
    ensures
        read matches Ok(list) && values(list@) == values(targets@),
        final(pushing).pending().last() == (Event::SelectionChanged { source: source@ }),
        final(pushing).pending().drop_last() == old(pushing).pending(),
        taken is Ok,
        final(offering).selection() == Some(entry@.targets),
        final(offering).offered() == Some(entry@.targets),
{
    assert(final(pushing).pending().drop_last() =~= old(pushing).pending());
}

} // verus!
