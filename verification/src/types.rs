//! The types that the backends, the history store and the service share.

use vstd::prelude::*;
use vstd::utf8::*;

use crate::text::{decode, eq_ignore_ascii_case, folded, same_folded, same_text, starts_with};

verus! {

broadcast use vstd::string::group_string_axioms;

/// Stable identifier of a history entry: its rowid in the database.
pub type EntryId = i64;

/// Unix timestamp in milliseconds.
pub type UnixMillis = i64;

/// A `(mime, bytes)` target as a value.
pub struct Target {
    pub mime: Seq<char>,
    pub bytes: Seq<u8>,
}

/// A single `(mime, bytes)` clipboard target, stored and restored verbatim to
/// preserve full format fidelity.
#[derive(Debug, PartialEq, Eq)]
pub struct MimeBlob {
    pub mime: String,
    pub bytes: Vec<u8>,
}

impl View for MimeBlob {
    type V = Target;

    open spec fn view(&self) -> Target {
        Target { mime: self.mime@, bytes: self.bytes@ }
    }
}

impl Clone for MimeBlob {
    fn clone(&self) -> (r: Self)
        ensures
            r@ == self@,
    {
        let bytes = self.bytes.clone();
        assert(bytes@ =~= self.bytes@);
        MimeBlob { mime: self.mime.clone(), bytes }
    }
}

/// The targets of `list` as values.
pub open spec fn values(list: Seq<MimeBlob>) -> Seq<Target> {
    list.map_values(|t: MimeBlob| t@)
}

/// A copy of `list`.
pub fn clone_targets(list: &Vec<MimeBlob>) -> (r: Vec<MimeBlob>)
    ensures
        values(r@) == values(list@),
{
    let mut out: Vec<MimeBlob> = Vec::new();
    let mut i: usize = 0;
    while i < list.len()
        invariant
            i <= list.len(),
            values(out@) == values(list@).take(i as int),
        decreases list.len() - i,
    {
        let ghost before = out@;
        out.push(list[i].clone());
        assert(values(out@) == values(before).push(list@[i as int]@));
        assert(values(list@).take(i + 1) == values(list@).take(i as int).push(list@[i as int]@));
        i += 1;
    }
    assert(values(list@).take(list@.len() as int) == values(list@));
    out
}

/// Whether `a` and `b` are the same bytes.
pub fn same_bytes(a: &Vec<u8>, b: &Vec<u8>) -> (r: bool)
    ensures
        r == (a@ == b@),
{
    if a.len() != b.len() {
        return false;
    }
    let mut i: usize = 0;
    while i < a.len()
        invariant
            i <= a.len() == b.len(),
            forall|j: int| 0 <= j < i ==> a@[j] == b@[j],
        decreases a.len() - i,
    {
        if a[i] != b[i] {
            return false;
        }
        i += 1;
    }
    assert(a@ =~= b@);
    true
}

/// Whether `list` holds a target with the mime and the bytes of `t`.
pub fn holds_target(list: &Vec<MimeBlob>, t: &MimeBlob) -> (r: bool)
    ensures
        r == values(list@).contains(t@),
{
    let mut i: usize = 0;
    while i < list.len()
        invariant
            i <= list.len(),
            forall|j: int| 0 <= j < i ==> #[trigger] values(list@)[j] != t@,
        decreases list.len() - i,
    {
        assert(values(list@)[i as int] == list@[i as int]@);
        if same_text(list[i].mime.as_str(), t.mime.as_str()) && same_bytes(
            &list[i].bytes,
            &t.bytes,
        ) {
            return true;
        }
        i += 1;
    }
    false
}

/// The position of the first target of the type `mime`.
pub fn position_of(list: &Vec<MimeBlob>, mime: &str) -> (r: Option<usize>)
    ensures
        match r {
            Some(at) => at < list.len() && values(list@)[at as int].mime == mime@ && forall|j: int|
                0 <= j < at ==> (#[trigger] values(list@)[j]).mime != mime@,
            None => forall|j: int|
                0 <= j < list.len() ==> (#[trigger] values(list@)[j]).mime != mime@,
        },
{
    let mut i: usize = 0;
    while i < list.len()
        invariant
            i <= list.len(),
            forall|j: int| 0 <= j < i ==> (#[trigger] values(list@)[j]).mime != mime@,
        decreases list.len() - i,
    {
        assert(values(list@)[i as int] == list@[i as int]@);
        if same_text(list[i].mime.as_str(), mime) {
            return Some(i);
        }
        i += 1;
    }
    None
}

/// The text of an optional string.
pub open spec fn optional_text(s: Option<String>) -> Option<Seq<char>> {
    match s {
        Some(t) => Some(t@),
        None => None,
    }
}

/// A copy of an optional string.
pub fn clone_text(s: &Option<String>) -> (r: Option<String>)
    ensures
        optional_text(r) == optional_text(*s),
{
    match s {
        Some(t) => Some(t.clone()),
        None => None,
    }
}

/// The texts of a list of strings.
pub open spec fn texts(list: Seq<String>) -> Seq<Seq<char>> {
    list.map_values(|s: String| s@)
}

/// A copy of `list`.
pub fn clone_texts(list: &Vec<String>) -> (r: Vec<String>)
    ensures
        texts(r@) == texts(list@),
{
    let mut out: Vec<String> = Vec::new();
    let mut i: usize = 0;
    while i < list.len()
        invariant
            i <= list.len(),
            texts(out@) == texts(list@).take(i as int),
        decreases list.len() - i,
    {
        let ghost before = out@;
        out.push(list[i].clone());
        assert(texts(out@) == texts(before).push(list@[i as int]@));
        assert(texts(list@).take(i + 1) == texts(list@).take(i as int).push(list@[i as int]@));
        i += 1;
    }
    assert(texts(list@).take(list@.len() as int) == texts(list@));
    out
}

/// Whether `mime` names plain text: `text/plain`, with or without the UTF-8
/// charset, in any ASCII case.
pub open spec fn plain_mime(mime: Seq<char>) -> bool {
    same_folded(mime, "text/plain;charset=utf-8"@) || same_folded(mime, "text/plain"@)
}

/// Whether `mime` names plain text.
pub fn is_plain_mime(mime: &str) -> (r: bool)
    ensures
        r == plain_mime(mime@),
{
    eq_ignore_ascii_case(mime, "text/plain;charset=utf-8") || eq_ignore_ascii_case(
        mime,
        "text/plain",
    )
}

/// The text of the first plain-text target, if there is one and its bytes are
/// valid UTF-8.
pub open spec fn plain_text(targets: Seq<Target>) -> Option<Seq<char>>
    decreases targets.len(),
{
    if targets.len() == 0 {
        None
    } else if plain_mime(targets[0].mime) {
        if valid_utf8(targets[0].bytes) {
            Some(decode_utf8(targets[0].bytes))
        } else {
            None
        }
    } else {
        plain_text(targets.drop_first())
    }
}

/// The text of the first plain-text target of `targets`, if it is valid UTF-8.
pub fn find_plain_text<'a>(targets: &'a [MimeBlob]) -> (r: Option<&'a str>)
    ensures
        match r {
            Some(s) => plain_text(values(targets@)) == Some(s@),
            None => plain_text(values(targets@)) is None,
        },
{
    let ghost all = values(targets@);
    assert(all.skip(0) == all);
    let mut i: usize = 0;
    while i < targets.len()
        invariant
            i <= targets.len(),
            all == values(targets@),
            plain_text(all) == plain_text(all.skip(i as int)),
        decreases targets.len() - i,
    {
        assert(all.skip(i as int)[0] == targets@[i as int]@);
        if is_plain_mime(targets[i].mime.as_str()) {
            return decode(targets[i].bytes.as_slice());
        }
        assert(all.skip(i as int).drop_first() == all.skip(i + 1));
        i += 1;
    }
    None
}

/// Coarse classification of an entry, which picks how the list view shows it.
#[derive(Debug, Clone, Copy, PartialEq, Eq, Structural)]
pub enum PreviewKind {
    Text,
    Image,
    Files,
    Rich,
    Other,
}

/// Whether some target has the type `mime`, in any ASCII case.
pub open spec fn offers(targets: Seq<Target>, mime: Seq<char>) -> bool {
    exists|i: int| 0 <= i < targets.len() && same_folded(#[trigger] targets[i].mime, mime)
}

/// Whether the type of some target begins with `prefix`.
pub open spec fn offers_prefix(targets: Seq<Target>, prefix: Seq<char>) -> bool {
    exists|i: int| 0 <= i < targets.len() && prefix.is_prefix_of(#[trigger] targets[i].mime)
}

/// The preview kind of a set of targets: files before images before rich text
/// before text.
pub open spec fn inferred_kind(targets: Seq<Target>) -> PreviewKind {
    if offers(targets, "text/uri-list"@) || offers(targets, "x-special/gnome-copied-files"@) {
        PreviewKind::Files
    } else if offers_prefix(targets, "image/"@) {
        PreviewKind::Image
    } else if offers(targets, "text/html"@) || offers(targets, "text/rtf"@) || offers(
        targets,
        "text/markdown"@,
    ) {
        PreviewKind::Rich
    } else if offers(targets, "text/plain"@) || offers_prefix(targets, "text/"@) {
        PreviewKind::Text
    } else {
        PreviewKind::Other
    }
}

/// The name of a preview kind.
pub open spec fn kind_name(kind: PreviewKind) -> Seq<char> {
    match kind {
        PreviewKind::Text => "text"@,
        PreviewKind::Image => "image"@,
        PreviewKind::Files => "files"@,
        PreviewKind::Rich => "rich"@,
        PreviewKind::Other => "other"@,
    }
}

/// The preview kind that `name` names; any unknown name stands for the kind
/// `Other`.
pub open spec fn named_kind(name: Seq<char>) -> PreviewKind {
    if name == "text"@ {
        PreviewKind::Text
    } else if name == "image"@ {
        PreviewKind::Image
    } else if name == "files"@ {
        PreviewKind::Files
    } else if name == "rich"@ {
        PreviewKind::Rich
    } else {
        PreviewKind::Other
    }
}

fn any_offers(targets: &[MimeBlob], mime: &str) -> (r: bool)
    ensures
        r == offers(values(targets@), mime@),
{
    let mut i: usize = 0;
    while i < targets.len()
        invariant
            i <= targets.len(),
            forall|j: int| 0 <= j < i ==> !same_folded(#[trigger] values(targets@)[j].mime, mime@),
        decreases targets.len() - i,
    {
        assert(values(targets@)[i as int] == targets@[i as int]@);
        if eq_ignore_ascii_case(targets[i].mime.as_str(), mime) {
            assert(same_folded(values(targets@)[i as int].mime, mime@));
            return true;
        }
        i += 1;
    }
    false
}

fn any_offers_prefix(targets: &[MimeBlob], prefix: &str) -> (r: bool)
    ensures
        r == offers_prefix(values(targets@), prefix@),
{
    let mut i: usize = 0;
    while i < targets.len()
        invariant
            i <= targets.len(),
            forall|j: int|
                0 <= j < i ==> !prefix@.is_prefix_of(#[trigger] values(targets@)[j].mime),
        decreases targets.len() - i,
    {
        assert(values(targets@)[i as int] == targets@[i as int]@);
        if starts_with(targets[i].mime.as_str(), prefix) {
            assert(prefix@.is_prefix_of(values(targets@)[i as int].mime));
            return true;
        }
        i += 1;
    }
    false
}

impl PreviewKind {
    /// Infer a preview kind from the set of offered targets.
    pub fn infer(targets: &[MimeBlob]) -> (r: PreviewKind)
        ensures
            r == inferred_kind(values(targets@)),
    {
        if any_offers(targets, "text/uri-list") || any_offers(
            targets,
            "x-special/gnome-copied-files",
        ) {
            PreviewKind::Files
        } else if any_offers_prefix(targets, "image/") {
            PreviewKind::Image
        } else if any_offers(targets, "text/html") || any_offers(targets, "text/rtf") || any_offers(
            targets,
            "text/markdown",
        ) {
            PreviewKind::Rich
        } else if any_offers(targets, "text/plain") || any_offers_prefix(targets, "text/") {
            PreviewKind::Text
        } else {
            PreviewKind::Other
        }
    }

    /// The name of the kind.
    pub fn as_str(self) -> (r: &'static str)
        ensures
            r@ == kind_name(self),
    {
        match self {
            PreviewKind::Text => "text",
            PreviewKind::Image => "image",
            PreviewKind::Files => "files",
            PreviewKind::Rich => "rich",
            PreviewKind::Other => "other",
        }
    }

    /// The kind that `s` names, or `Other`.
    pub fn parse(s: &str) -> (r: PreviewKind)
        ensures
            r == named_kind(s@),
    {
        if same_text(s, "text") {
            PreviewKind::Text
        } else if same_text(s, "image") {
            PreviewKind::Image
        } else if same_text(s, "files") {
            PreviewKind::Files
        } else if same_text(s, "rich") {
            PreviewKind::Rich
        } else {
            PreviewKind::Other
        }
    }
}

/// Parsing the name of a kind gives the kind back.
pub proof fn kind_name_round_trip(kind: PreviewKind)
    ensures
        named_kind(kind_name(kind)) == kind,
{
    reveal_strlit("text");
    reveal_strlit("image");
    reveal_strlit("files");
    reveal_strlit("rich");
    reveal_strlit("other");
    assert("files"@[0] != "image"@[0]);
    assert("rich"@[0] != "text"@[0]);
    assert("other"@[0] != "image"@[0]);
    assert("other"@[0] != "files"@[0]);
}

/// What a set of targets previews as does not depend on the case of the ASCII
/// letters in `text/uri-list`, `text/html` and the other types that are named
/// in full.
pub proof fn offers_ignores_case(targets: Seq<Target>, mime: Seq<char>, other: Seq<char>)
    requires
        same_folded(mime, other),
    ensures
        offers(targets, mime) == offers(targets, other),
{
    assert forall|i: int| 0 <= i < targets.len() implies same_folded(
        #[trigger] targets[i].mime,
        mime,
    ) == same_folded(targets[i].mime, other) by {
        assert(folded(mime) == folded(other));
    }
}

/// An application's identity as a value.
pub struct App {
    pub id: Option<Seq<char>>,
    pub label: Option<Seq<char>>,
}

/// Best-effort identity of the application that produced a selection. X11 and
/// the GNOME extension may know it; wlroots and KDE hide the source.
#[derive(Debug, PartialEq, Eq)]
pub struct AppId {
    /// A desktop-agnostic identifier such as a WM_CLASS instance or an app-id.
    pub id: Option<String>,
    /// Human-readable label for display, when known.
    pub label: Option<String>,
}

impl View for AppId {
    type V = App;

    open spec fn view(&self) -> App {
        App { id: optional_text(self.id), label: optional_text(self.label) }
    }
}

impl Clone for AppId {
    fn clone(&self) -> (r: Self)
        ensures
            r@ == self@,
    {
        AppId { id: clone_text(&self.id), label: clone_text(&self.label) }
    }
}

impl Default for AppId {
    /// The unknown application.
    fn default() -> (r: Self)
        ensures
            r@ == (App { id: None, label: None }),
    {
        AppId { id: None, label: None }
    }
}

/// What a list or search view shows of an entry, as a value.
pub struct Summary {
    pub id: EntryId,
    pub ts: UnixMillis,
    pub pinned: bool,
    pub group: Option<i64>,
    pub origin: Option<Seq<char>>,
    pub use_count: u32,
    pub preview_kind: PreviewKind,
    pub size_bytes: u64,
    pub preview_text: Option<Seq<char>>,
}

/// Metadata of an entry for list and search views, without its target blobs.
#[derive(Debug, Clone, PartialEq)]
pub struct EntrySummary {
    pub id: EntryId,
    pub ts: UnixMillis,
    pub pinned: bool,
    pub group: Option<i64>,
    pub origin: Option<String>,
    pub use_count: u32,
    pub preview_kind: PreviewKind,
    pub size_bytes: u64,
    /// The beginning of the plain text, for display.
    pub preview_text: Option<String>,
}

impl View for EntrySummary {
    type V = Summary;

    open spec fn view(&self) -> Summary {
        Summary {
            id: self.id,
            ts: self.ts,
            pinned: self.pinned,
            group: self.group,
            origin: optional_text(self.origin),
            use_count: self.use_count,
            preview_kind: self.preview_kind,
            size_bytes: self.size_bytes,
            preview_text: optional_text(self.preview_text),
        }
    }
}

/// A full entry as a value.
pub struct FullEntry {
    pub id: EntryId,
    pub ts: UnixMillis,
    pub pinned: bool,
    pub group: Option<i64>,
    pub origin: Option<Seq<char>>,
    pub use_count: u32,
    pub preview_kind: PreviewKind,
    pub size_bytes: u64,
    pub targets: Seq<Target>,
}

/// A full entry including all of its targets.
#[derive(Debug, Clone, PartialEq)]
pub struct Entry {
    pub id: EntryId,
    pub ts: UnixMillis,
    pub pinned: bool,
    pub group: Option<i64>,
    pub origin: Option<String>,
    pub use_count: u32,
    pub preview_kind: PreviewKind,
    pub size_bytes: u64,
    pub targets: Vec<MimeBlob>,
}

impl View for Entry {
    type V = FullEntry;

    open spec fn view(&self) -> FullEntry {
        FullEntry {
            id: self.id,
            ts: self.ts,
            pinned: self.pinned,
            group: self.group,
            origin: optional_text(self.origin),
            use_count: self.use_count,
            preview_kind: self.preview_kind,
            size_bytes: self.size_bytes,
            targets: values(self.targets@),
        }
    }
}

impl Entry {
    /// The content of the first plain-text target, if it is valid UTF-8.
    pub fn text(&self) -> (r: Option<&str>)
        ensures
            match r {
                Some(s) => plain_text(self@.targets) == Some(s@),
                None => plain_text(self@.targets) is None,
            },
    {
        find_plain_text(self.targets.as_slice())
    }
}

/// What a backend advertises it can do. Drives what the UI offers and whether
/// exclusion by application is meaningful.
#[derive(Debug, Clone, Copy, PartialEq, Eq, Structural)]
pub struct Caps {
    /// Can the backend capture history silently in the background?
    pub silent_history: bool,
    /// Can the backend synthesize a paste keystroke after an offer?
    pub auto_paste: bool,
    /// Can the backend identify the source application?
    pub source_id: bool,
}

impl Default for Caps {
    /// No capability at all.
    fn default() -> (r: Self)
        ensures
            r == (Caps { silent_history: false, auto_paste: false, source_id: false }),
    {
        Caps { silent_history: false, auto_paste: false, source_id: false }
    }
}

/// An event of a clipboard backend as a value.
pub enum Event {
    SelectionChanged { source: App },
    Cleared,
}

/// A push event from a clipboard backend.
#[derive(Debug)]
pub enum ClipboardEvent {
    /// The current selection changed; its targets can be read now.
    SelectionChanged { source: AppId },
    /// The clipboard was emptied.
    Cleared,
}

impl View for ClipboardEvent {
    type V = Event;

    open spec fn view(&self) -> Event {
        match *self {
            ClipboardEvent::SelectionChanged { source } => Event::SelectionChanged {
                source: source@,
            },
            ClipboardEvent::Cleared => Event::Cleared,
        }
    }
}

impl Clone for ClipboardEvent {
    fn clone(&self) -> (r: Self)
        ensures
            r@ == self@,
    {
        match self {
            ClipboardEvent::SelectionChanged { source } => ClipboardEvent::SelectionChanged {
                source: source.clone(),
            },
            ClipboardEvent::Cleared => ClipboardEvent::Cleared,
        }
    }
}

/// The events of `list` as values.
pub open spec fn events(list: Seq<ClipboardEvent>) -> Seq<Event> {
    list.map_values(|ev: ClipboardEvent| ev@)
}

/// The number of bytes of all targets together.
pub open spec fn total_bytes(targets: Seq<Target>) -> nat
    decreases targets.len(),
{
    if targets.len() == 0 {
        0
    } else {
        total_bytes(targets.drop_last()) + targets.last().bytes.len()
    }
}

/// The first targets of a list are together no larger than the whole list.
pub proof fn total_bytes_monotonic(targets: Seq<Target>, n: int)
    requires
        0 <= n <= targets.len(),
    ensures
        total_bytes(targets.take(n)) <= total_bytes(targets),
    decreases targets.len(),
{
    if n == targets.len() {
        assert(targets.take(n) == targets);
    } else {
        total_bytes_monotonic(targets.drop_last(), n);
        assert(targets.drop_last().take(n) == targets.take(n));
    }
}

/// The number of bytes of all targets together.
pub fn sum_sizes(targets: &Vec<MimeBlob>) -> (r: u64)
    requires
        total_bytes(values(targets@)) <= u64::MAX,
    ensures
        r == total_bytes(values(targets@)),
{
    let ghost all = values(targets@);
    let mut sum: u64 = 0;
    let mut i: usize = 0;
    while i < targets.len()
        invariant
            i <= targets.len(),
            all == values(targets@),
            total_bytes(all) <= u64::MAX,
            sum == total_bytes(all.take(i as int)),
        decreases targets.len() - i,
    {
        proof {
            total_bytes_monotonic(all, i + 1);
            assert(all.take(i + 1).drop_last() == all.take(i as int));
            assert(all.take(i + 1).last() == targets@[i as int]@);
        }
        sum += targets[i].bytes.len() as u64;
        i += 1;
    }
    assert(all.take(all.len() as int) == all);
    sum
}

/// What a producer (a backend or the GNOME extension) hands over as one
/// capture.
#[derive(Debug, Clone, PartialEq)]
pub struct Capture {
    pub targets: Vec<MimeBlob>,
    pub source: AppId,
    /// Capture time; if `None`, the receiver stamps it.
    pub ts: Option<UnixMillis>,
}

impl Capture {
    /// The number of bytes of all targets together.
    pub fn total_size(&self) -> (r: u64)
        requires
            total_bytes(values(self.targets@)) <= u64::MAX,
        ensures
            r == total_bytes(values(self.targets@)),
    {
        sum_sizes(&self.targets)
    }
}

/// Build a [`Capture`] that the receiver stamps.
pub fn capture(targets: Vec<MimeBlob>, source: AppId) -> (r: Capture)
    ensures
        r.targets == targets,
        r.source == source,
        r.ts is None,
{
    Capture { targets, source, ts: None }
}

/// A named group (tab) of history entries.
#[derive(Debug, Clone, PartialEq, Eq)]
pub struct Group {
    pub id: i64,
    pub name: String,
    pub icon: Option<String>,
    pub pos: i64,
}

// ---- laws of targets and kinds ----

/// Nothing of a target, an application, a summary, an entry or an event is lost in the
/// value that stands for it.
pub proof fn values_show_every_field(
    b: MimeBlob,
    app: AppId,
    s: EntrySummary,
    e: Entry,
    source: AppId,
)
    ensures
        b@.mime == b.mime@ && b@.bytes == b.bytes@,
        app.id matches Some(x) ==> app@.id == Some(x@),
        app.id is None ==> app@.id is None,
        app.label matches Some(x) ==> app@.label == Some(x@),
        app.label is None ==> app@.label is None,
        s@.id == s.id && s@.ts == s.ts && s@.pinned == s.pinned && s@.group == s.group,
        s@.use_count == s.use_count && s@.preview_kind == s.preview_kind && s@.size_bytes
            == s.size_bytes,
        s.origin matches Some(x) ==> s@.origin == Some(x@),
        s.origin is None ==> s@.origin is None,
        s.preview_text matches Some(x) ==> s@.preview_text == Some(x@),
        s.preview_text is None ==> s@.preview_text is None,
        e@.id == e.id && e@.ts == e.ts && e@.pinned == e.pinned && e@.group == e.group,
        e@.use_count == e.use_count && e@.preview_kind == e.preview_kind && e@.size_bytes
            == e.size_bytes,
        e.origin matches Some(x) ==> e@.origin == Some(x@),
        e.origin is None ==> e@.origin is None,
        e@.targets.len() == e.targets@.len(),
        forall|i: int|
            0 <= i < e.targets@.len() ==> (#[trigger] e@.targets[i]).mime == e.targets@[i].mime@
                && e@.targets[i].bytes == e.targets@[i].bytes@,
        (ClipboardEvent::SelectionChanged { source })@ == (Event::SelectionChanged {
            source: source@,
        }),
        ClipboardEvent::Cleared@ == Event::Cleared,
{
}

/// A list of values stands for a list of targets, of texts or of events one by one.
pub proof fn lists_are_shown_one_by_one(
    list: Seq<MimeBlob>,
    names: Seq<String>,
    evs: Seq<ClipboardEvent>,
    i: int,
)
    ensures
        values(list).len() == list.len(),
        0 <= i < list.len() ==> values(list)[i].mime == list[i].mime@ && values(list)[i].bytes
            == list[i].bytes@,
        texts(names).len() == names.len(),
        0 <= i < names.len() ==> texts(names)[i] == names[i]@,
        events(evs).len() == evs.len(),
        0 <= i < evs.len() ==> events(evs)[i] == evs[i]@,
{
}

/// Plain text goes by two types, `text/plain` and `text/plain;charset=utf-8`, in any
/// ASCII case, and by no other.
pub proof fn plain_text_has_two_types(mime: Seq<char>)
    ensures
        plain_mime(mime) <==> same_folded(mime, "text/plain"@) || same_folded(
            mime,
            "text/plain;charset=utf-8"@,
        ),
{
}

/// The plain text of a list of targets is that of the first one of the type
/// `text/plain` or `text/plain;charset=utf-8`, wherever in the list it stands: the text
/// that its bytes encode, or none where they are not valid UTF-8.
pub proof fn plain_text_is_of_the_first(targets: Seq<Target>, i: int)
    requires
        0 <= i < targets.len(),
        same_folded(targets[i].mime, "text/plain"@) || same_folded(
            targets[i].mime,
            "text/plain;charset=utf-8"@,
        ),
        forall|j: int|
            0 <= j < i ==> !same_folded((#[trigger] targets[j]).mime, "text/plain"@)
                && !same_folded(targets[j].mime, "text/plain;charset=utf-8"@),
    ensures
        valid_utf8(targets[i].bytes) ==> plain_text(targets) == Some(decode_utf8(targets[i].bytes)),
        !valid_utf8(targets[i].bytes) ==> plain_text(targets) is None,
    decreases targets.len(),
{
    if i > 0 {
        let rest = targets.drop_first();
        assert(!plain_mime(targets[0].mime));
        assert(rest[i - 1] == targets[i]);
        assert forall|j: int| 0 <= j < i - 1 implies !same_folded(
            (#[trigger] rest[j]).mime,
            "text/plain"@,
        ) && !same_folded(rest[j].mime, "text/plain;charset=utf-8"@) by {
            assert(rest[j] == targets[j + 1]);
        }
        plain_text_is_of_the_first(rest, i - 1);
    }
}

/// Targets none of which is of a plain-text type have no plain text.
pub proof fn plain_text_needs_a_plain_target(targets: Seq<Target>)
    requires
        forall|j: int|
            0 <= j < targets.len() ==> !same_folded((#[trigger] targets[j]).mime, "text/plain"@)
                && !same_folded(targets[j].mime, "text/plain;charset=utf-8"@),
    ensures
        plain_text(targets) is None,
    decreases targets.len(),
{
    if targets.len() > 0 {
        let rest = targets.drop_first();
        assert(!plain_mime(targets[0].mime));
        assert forall|j: int| 0 <= j < rest.len() implies !same_folded(
            (#[trigger] rest[j]).mime,
            "text/plain"@,
        ) && !same_folded(rest[j].mime, "text/plain;charset=utf-8"@) by {
            assert(rest[j] == targets[j + 1]);
        }
        plain_text_needs_a_plain_target(rest);
    }
}

/// One target decides for the kinds that come first: any list of files makes the kind
/// `Files`; without one, any type that begins with `image/` makes it `Image`; without
/// either, HTML, RTF or Markdown make it `Rich`; and without those, any type that begins
/// with `text/` makes it `Text`.
pub proof fn kind_is_the_first_that_fits(targets: Seq<Target>, i: int)
    requires
        0 <= i < targets.len(),
    ensures
        same_folded(targets[i].mime, "text/uri-list"@) || same_folded(
            targets[i].mime,
            "x-special/gnome-copied-files"@,
        ) ==> inferred_kind(targets) is Files,
        "image/"@.is_prefix_of(targets[i].mime) ==> inferred_kind(targets) is Files
            || inferred_kind(targets) is Image,
        same_folded(targets[i].mime, "text/html"@) || same_folded(targets[i].mime, "text/rtf"@)
            || same_folded(targets[i].mime, "text/markdown"@) ==> !(inferred_kind(targets) is Text)
            && !(inferred_kind(targets) is Other),
        "text/"@.is_prefix_of(targets[i].mime) || same_folded(targets[i].mime, "text/plain"@)
            ==> !(inferred_kind(targets) is Other),
{
}

/// No kind comes from nothing: each but `Other` needs a target of a type that makes it.
pub proof fn kind_needs_a_target(targets: Seq<Target>)
    ensures
        inferred_kind(targets) is Files ==> exists|i: int|
            0 <= i < targets.len() && (same_folded((#[trigger] targets[i]).mime, "text/uri-list"@)
                || same_folded(targets[i].mime, "x-special/gnome-copied-files"@)),
        inferred_kind(targets) is Image ==> exists|i: int|
            0 <= i < targets.len() && "image/"@.is_prefix_of((#[trigger] targets[i]).mime),
        inferred_kind(targets) is Rich ==> exists|i: int|
            0 <= i < targets.len() && (same_folded((#[trigger] targets[i]).mime, "text/html"@)
                || same_folded(targets[i].mime, "text/rtf"@) || same_folded(
                targets[i].mime,
                "text/markdown"@,
            )),
        inferred_kind(targets) is Text ==> exists|i: int|
            0 <= i < targets.len() && ("text/"@.is_prefix_of((#[trigger] targets[i]).mime)
                || same_folded(targets[i].mime, "text/plain"@)),
{
}

/// Each kind goes by its own name, and a name that is none of the five stands for
/// `Other`.
pub proof fn kinds_go_by_their_names(kind: PreviewKind, name: Seq<char>)
    ensures
        kind is Text ==> kind_name(kind) == "text"@,
        kind is Image ==> kind_name(kind) == "image"@,
        kind is Files ==> kind_name(kind) == "files"@,
        kind is Rich ==> kind_name(kind) == "rich"@,
        kind is Other ==> kind_name(kind) == "other"@,
        named_kind(name) is Other || kind_name(named_kind(name)) == name,
{
}

/// Sizes add up: nothing has no bytes, one target has its own, and two lists of targets
/// have what each of them has.
pub proof fn sizes_add_up(a: Seq<Target>, t: Target, b: Seq<Target>)
    ensures
        total_bytes(Seq::empty()) == 0,
        total_bytes(seq![t]) == t.bytes.len(),
        total_bytes(a + b) == total_bytes(a) + total_bytes(b),
    decreases b.len(),
{
    assert(seq![t].drop_last() =~= Seq::empty());
    reveal_with_fuel(total_bytes, 2);
    if b.len() == 0 {
        assert(a + b =~= a);
    } else {
        sizes_add_up(a, t, b.drop_last());
        assert((a + b).drop_last() =~= a + b.drop_last());
        assert((a + b).last() == b.last());
    }
}

} // verus!
