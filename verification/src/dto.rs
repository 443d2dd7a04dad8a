//! The values that cross the session bus.

use vstd::prelude::*;
use vstd::string::*;

use crate::history::summaries;
use crate::types::{
    kind_name, optional_text, values, Entry, EntrySummary, FullEntry, MimeBlob, Summary, Target,
};

verus! {

broadcast use vstd::string::group_string_axioms;

/// A `(mime, bytes)` target on the wire.
#[derive(Clone, Debug, PartialEq, Eq)]
pub struct TargetDto {
    pub mime: String,
    pub bytes: Vec<u8>,
}

impl View for TargetDto {
    type V = Target;

    open spec fn view(&self) -> Target {
        Target { mime: self.mime@, bytes: self.bytes@ }
    }
}

impl From<TargetDto> for MimeBlob {
    fn from(t: TargetDto) -> (r: Self) {
        MimeBlob { mime: t.mime, bytes: t.bytes }
    }
}

impl vstd::std_specs::convert::FromSpecImpl<TargetDto> for MimeBlob {
    open spec fn obeys_from_spec() -> bool {
        true
    }

    open spec fn from_spec(t: TargetDto) -> Self {
        MimeBlob { mime: t.mime, bytes: t.bytes }
    }
}

impl From<MimeBlob> for TargetDto {
    fn from(t: MimeBlob) -> (r: Self) {
        TargetDto { mime: t.mime, bytes: t.bytes }
    }
}

impl vstd::std_specs::convert::FromSpecImpl<MimeBlob> for TargetDto {
    open spec fn obeys_from_spec() -> bool {
        true
    }

    open spec fn from_spec(t: MimeBlob) -> Self {
        TargetDto { mime: t.mime, bytes: t.bytes }
    }
}

/// The targets on the wire as values.
pub open spec fn wire_values(list: Seq<TargetDto>) -> Seq<Target> {
    list.map_values(|t: TargetDto| t@)
}

/// The targets that came over the wire.
pub fn targets_from_wire(list: Vec<TargetDto>) -> (r: Vec<MimeBlob>)
    ensures
        values(r@) == wire_values(list@),
{
    let mut out: Vec<MimeBlob> = Vec::new();
    for t in it: list
        invariant
            it.seq() == list@,
            values(out@) == wire_values(list@).take(it.index()),
    {
        let ghost before = out@;
        let blob = MimeBlob::from(t);
        out.push(blob);
        assert(values(out@) == values(before).push(blob@));
        assert(wire_values(list@).take(it.index() + 1) == wire_values(list@).take(it.index()).push(
            list@[it.index()]@,
        ));
    }
    assert(wire_values(list@).take(list@.len() as int) == wire_values(list@));
    out
}

/// The targets as they go over the wire.
pub fn targets_to_wire(list: Vec<MimeBlob>) -> (r: Vec<TargetDto>)
    ensures
        wire_values(r@) == values(list@),
{
    let mut out: Vec<TargetDto> = Vec::new();
    for t in it: list
        invariant
            it.seq() == list@,
            wire_values(out@) == values(list@).take(it.index()),
    {
        let ghost before = out@;
        let dto = TargetDto::from(t);
        out.push(dto);
        assert(wire_values(out@) == wire_values(before).push(dto@));
        assert(values(list@).take(it.index() + 1) == values(list@).take(it.index()).push(
            list@[it.index()]@,
        ));
    }
    assert(values(list@).take(list@.len() as int) == values(list@));
    out
}

/// List and search view of an entry, without its blobs.
#[derive(Clone, Debug, PartialEq)]
pub struct SummaryDto {
    pub id: i64,
    pub ts: i64,
    pub pinned: bool,
    pub group: Option<i64>,
    pub origin: Option<String>,
    pub use_count: u32,
    pub preview_kind: String,
    pub size_bytes: u64,
    pub preview_text: Option<String>,
}

impl SummaryDto {
    /// Whether this carries the summary `s`; the kind goes by its name.
    pub open spec fn carries(self, s: Summary) -> bool {
        &&& self.id == s.id
        &&& self.ts == s.ts
        &&& self.pinned == s.pinned
        &&& self.group == s.group
        &&& optional_text(self.origin) == s.origin
        &&& self.use_count == s.use_count
        &&& self.preview_kind@ == kind_name(s.preview_kind)
        &&& self.size_bytes == s.size_bytes
        &&& optional_text(self.preview_text) == s.preview_text
    }
}

impl From<EntrySummary> for SummaryDto {
    fn from(e: EntrySummary) -> (r: Self)
        ensures
            r.carries(e@),
    {
        SummaryDto {
            id: e.id,
            ts: e.ts,
            pinned: e.pinned,
            group: e.group,
            origin: e.origin,
            use_count: e.use_count,
            preview_kind: e.preview_kind.as_str().to_owned(),
            size_bytes: e.size_bytes,
            preview_text: e.preview_text,
        }
    }
}

impl vstd::std_specs::convert::FromSpecImpl<EntrySummary> for SummaryDto {
    open spec fn obeys_from_spec() -> bool {
        false
    }

    open spec fn from_spec(e: EntrySummary) -> Self {
        arbitrary()
    }
}

/// Full entry including all targets.
#[derive(Clone, Debug, PartialEq)]
pub struct EntryDto {
    pub id: i64,
    pub ts: i64,
    pub pinned: bool,
    pub group: Option<i64>,
    pub origin: Option<String>,
    pub use_count: u32,
    pub preview_kind: String,
    pub size_bytes: u64,
    pub targets: Vec<TargetDto>,
}

impl EntryDto {
    /// Whether this carries the entry `e`; the kind goes by its name.
    pub open spec fn carries(self, e: FullEntry) -> bool {
        &&& self.id == e.id
        &&& self.ts == e.ts
        &&& self.pinned == e.pinned
        &&& self.group == e.group
        &&& optional_text(self.origin) == e.origin
        &&& self.use_count == e.use_count
        &&& self.preview_kind@ == kind_name(e.preview_kind)
        &&& self.size_bytes == e.size_bytes
        &&& wire_values(self.targets@) == e.targets
    }
}

impl From<Entry> for EntryDto {
    fn from(e: Entry) -> (r: Self)
        ensures
            r.carries(e@),
    {
        EntryDto {
            id: e.id,
            ts: e.ts,
            pinned: e.pinned,
            group: e.group,
            origin: e.origin,
            use_count: e.use_count,
            preview_kind: e.preview_kind.as_str().to_owned(),
            size_bytes: e.size_bytes,
            targets: targets_to_wire(e.targets),
        }
    }
}

impl vstd::std_specs::convert::FromSpecImpl<Entry> for EntryDto {
    open spec fn obeys_from_spec() -> bool {
        false
    }

    open spec fn from_spec(e: Entry) -> Self {
        arbitrary()
    }
}

/// Whether `list` carries the summaries `sums`, one each.
pub open spec fn all_carried(list: Seq<SummaryDto>, sums: Seq<Summary>) -> bool {
    &&& list.len() == sums.len()
    &&& forall|i: int| 0 <= i < list.len() ==> (#[trigger] list[i]).carries(sums[i])
}

/// The summaries as they go over the wire.
pub fn summaries_to_wire(list: Vec<EntrySummary>) -> (r: Vec<SummaryDto>)
    ensures
        all_carried(r@, summaries(list@)),
{
    let mut out: Vec<SummaryDto> = Vec::new();
    for s in it: list
        invariant
            it.seq() == list@,
            out@.len() == it.index(),
            forall|i: int|
                0 <= i < out@.len() ==> (#[trigger] out@[i]).carries(summaries(list@)[i]),
    {
        let ghost sum = s@;
        let dto = SummaryDto::from(s);
        assert(dto.carries(sum));
        assert(summaries(list@)[it.index()] == sum);
        out.push(dto);
    }
    out
}

/// Capabilities advertised as a property.
#[derive(Clone, Copy, Debug, PartialEq, Eq, Structural)]
pub struct CapsDto {
    pub silent_history: bool,
    pub auto_paste: bool,
    pub source_id: bool,
}

impl Default for CapsDto {
    /// No capability at all.
    fn default() -> (r: Self)
        ensures
            r == (CapsDto { silent_history: false, auto_paste: false, source_id: false }),
    {
        CapsDto { silent_history: false, auto_paste: false, source_id: false }
    }
}

/// Snapshot of the state of the service.
#[derive(Debug, Clone)]
pub struct StateDto {
    pub paused: bool,
    pub locked: bool,
    pub backend: String,
    pub entry_count: i64,
    pub excluded_apps: Vec<String>,
}

// ---- laws of the wire ----

/// Nothing of a summary or of an entry is lost on the wire: every field arrives as it was,
/// and the kind by its name.
pub proof fn wire_carries_every_field(s: SummaryDto, sum: Summary, e: EntryDto, full: FullEntry)
    ensures
        s.carries(sum) ==> {
            &&& s.id == sum.id && s.ts == sum.ts && s.pinned == sum.pinned && s.group == sum.group
            &&& s.use_count == sum.use_count && s.size_bytes == sum.size_bytes
            &&& s.preview_kind@ == kind_name(sum.preview_kind)
            &&& sum.origin matches Some(x) ==> (s.origin matches Some(y) && y@ == x)
            &&& sum.origin is None ==> s.origin is None
            &&& sum.preview_text matches Some(x) ==> (s.preview_text matches Some(y) && y@ == x)
            &&& sum.preview_text is None ==> s.preview_text is None
        },
        e.carries(full) ==> {
            &&& e.id == full.id && e.ts == full.ts && e.pinned == full.pinned && e.group
                == full.group
            &&& e.use_count == full.use_count && e.size_bytes == full.size_bytes
            &&& e.preview_kind@ == kind_name(full.preview_kind)
            &&& full.origin matches Some(x) ==> (e.origin matches Some(y) && y@ == x)
            &&& full.origin is None ==> e.origin is None
            &&& e.targets@.len() == full.targets.len()
            &&& forall|i: int|
                0 <= i < full.targets.len() ==> (#[trigger] full.targets[i]).mime
                    == e.targets@[i].mime@ && full.targets[i].bytes == e.targets@[i].bytes@
        },
{
    if e.carries(full) {
        assert(wire_values(e.targets@).len() == e.targets@.len());
        assert forall|i: int| 0 <= i < full.targets.len() implies (#[trigger] full.targets[i]).mime
            == e.targets@[i].mime@ && full.targets[i].bytes == e.targets@[i].bytes@ by {
            assert(wire_values(e.targets@)[i] == e.targets@[i]@);
        }
    }
}

/// Lists go over the wire one by one and in order.
pub proof fn wire_carries_one_by_one(
    list: Seq<SummaryDto>,
    sums: Seq<Summary>,
    rows: Seq<EntrySummary>,
    targets: Seq<TargetDto>,
    i: int,
)
    ensures
        all_carried(list, sums) ==> list.len() == sums.len(),
        all_carried(list, sums) && 0 <= i < list.len() ==> list[i].carries(sums[i]),
        summaries(rows).len() == rows.len(),
        0 <= i < rows.len() ==> summaries(rows)[i] == rows[i]@,
        wire_values(targets).len() == targets.len(),
        0 <= i < targets.len() ==> wire_values(targets)[i].mime == targets[i].mime@ && wire_values(
            targets,
        )[i].bytes == targets[i].bytes@,
{
}

/// A target keeps its mime and its bytes on its way over the wire, in either direction.
pub proof fn wire_keeps_targets(t: TargetDto, b: MimeBlob)
    ensures
        t@.mime == t.mime@ && t@.bytes == t.bytes@,
        <MimeBlob as vstd::std_specs::convert::FromSpec<TargetDto>>::from_spec(t)@ == t@,
        <TargetDto as vstd::std_specs::convert::FromSpec<MimeBlob>>::from_spec(b)@ == b@,
{
}

} // verus!
