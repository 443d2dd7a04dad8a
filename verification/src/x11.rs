//! What the X11 backend decides: how selections are named, read, offered and
//! served. The requests to the X server are made elsewhere, with plain values
//! in and out.

use std::collections::HashMap;

use vstd::prelude::*;
use vstd::string::*;

use crate::text::{
    chars_of, decode_lossy, digits, folded, lossy_text, string_of, to_ascii_lowercase, u64_text,
};
use crate::types::{optional_text, values, App, AppId, ClipboardEvent, Event, MimeBlob, Target};

verus! {

broadcast use {
    vstd::string::group_string_axioms,
    vstd::std_specs::hash::group_hash_axioms,
};

/// The atoms that the backend needs to know.
#[derive(Debug, Clone, Copy, PartialEq, Eq, Structural)]
pub struct Atoms {
    pub clipboard: u32,
    pub primary: u32,
    pub targets: u32,
    pub timestamp: u32,
    pub incr: u32,
    pub text_plain: u32,
}

// ---- lists of atoms as bytes ----

/// The atom in four bytes, in the byte order of the machine.
pub open spec fn atom_in(b: Seq<u8>, big_endian: bool) -> u32 {
    if big_endian {
        (b[0] * 0x100_0000 + b[1] * 0x1_0000 + b[2] * 0x100 + b[3]) as u32
    } else {
        (b[3] * 0x100_0000 + b[2] * 0x1_0000 + b[1] * 0x100 + b[0]) as u32
    }
}

/// The four bytes of an atom, in the byte order of the machine.
pub open spec fn atom_bytes(a: u32, big_endian: bool) -> Seq<u8> {
    let b0 = (a / 0x100_0000) as u8;
    let b1 = (a / 0x1_0000 % 0x100) as u8;
    let b2 = (a / 0x100 % 0x100) as u8;
    let b3 = (a % 0x100) as u8;
    if big_endian {
        seq![b0, b1, b2, b3]
    } else {
        seq![b3, b2, b1, b0]
    }
}

/// The atoms in `bytes`, four bytes each; bytes that are left over are ignored.
pub open spec fn atoms_in(bytes: Seq<u8>, big_endian: bool) -> Seq<u32> {
    Seq::new(
        bytes.len() / 4,
        |i: int| atom_in(bytes.subrange(4 * i, 4 * i + 4), big_endian),
    )
}

/// The bytes of a list of atoms.
pub open spec fn all_atom_bytes(list: Seq<u32>, big_endian: bool) -> Seq<u8>
    decreases list.len(),
{
    if list.len() == 0 {
        Seq::empty()
    } else {
        all_atom_bytes(list.drop_last(), big_endian) + atom_bytes(list.last(), big_endian)
    }
}

/// The atoms in `bytes`, where `big_endian` tells the byte order of the
/// machine.
pub fn atoms_from_bytes(bytes: &[u8], big_endian: bool) -> (r: Vec<u32>)
    ensures
        r@ == atoms_in(bytes@, big_endian),
{
    let len: usize = bytes.len();
    let n: usize = len / 4;
    let mut out: Vec<u32> = Vec::new();
    let mut i: usize = 0;
    while i < n
        invariant
            n == bytes@.len() / 4,
            bytes@.len() <= usize::MAX,
            i <= n,
            out@.len() == i,
            forall|j: int|
                0 <= j < i ==> #[trigger] out@[j] == atom_in(
                    bytes@.subrange(4 * j, 4 * j + 4),
                    big_endian,
                ),
        decreases n - i,
    {
        let at: usize = 4 * i;
        let b0 = bytes[at] as u32;
        let b1 = bytes[at + 1] as u32;
        let b2 = bytes[at + 2] as u32;
        let b3 = bytes[at + 3] as u32;
        let ghost part = bytes@.subrange(4 * i as int, 4 * i + 4);
        assert(part[0] == b0 && part[1] == b1 && part[2] == b2 && part[3] == b3);
        let atom: u32 = if big_endian {
            b0 * 0x100_0000 + b1 * 0x1_0000 + b2 * 0x100 + b3
        } else {
            b3 * 0x100_0000 + b2 * 0x1_0000 + b1 * 0x100 + b0
        };
        out.push(atom);
        i += 1;
    }
    assert(out@ =~= atoms_in(bytes@, big_endian));
    out
}

/// The bytes of a list of atoms, where `big_endian` tells the byte order of the
/// machine.
pub fn bytes_from_atoms(list: &Vec<u32>, big_endian: bool) -> (r: Vec<u8>)
    ensures
        r@ == all_atom_bytes(list@, big_endian),
{
    let mut out: Vec<u8> = Vec::new();
    let mut i: usize = 0;
    while i < list.len()
        invariant
            i <= list.len(),
            out@ == all_atom_bytes(list@.take(i as int), big_endian),
        decreases list.len() - i,
    {
        let a: u32 = list[i];
        let b0 = (a / 0x100_0000) as u8;
        let b1 = (a / 0x1_0000 % 0x100) as u8;
        let b2 = (a / 0x100 % 0x100) as u8;
        let b3 = (a % 0x100) as u8;
        let ghost before = out@;
        if big_endian {
            out.push(b0);
            out.push(b1);
            out.push(b2);
            out.push(b3);
        } else {
            out.push(b3);
            out.push(b2);
            out.push(b1);
            out.push(b0);
        }
        assert(out@ =~= before + atom_bytes(a, big_endian));
        assert(list@.take(i + 1).drop_last() == list@.take(i as int));
        i += 1;
    }
    assert(list@.take(list@.len() as int) == list@);
    out
}

proof fn lemma_atom_round_trip(a: u32, big_endian: bool)
    ensures
        atom_bytes(a, big_endian).len() == 4,
        atom_in(atom_bytes(a, big_endian), big_endian) == a,
{
    let b0 = a / 0x100_0000;
    let b1 = a / 0x1_0000 % 0x100;
    let b2 = a / 0x100 % 0x100;
    let b3 = a % 0x100;
    assert(b0 * 0x100_0000 + b1 * 0x1_0000 + b2 * 0x100 + b3 == a) by (nonlinear_arith)
        requires
            b0 == a / 0x100_0000,
            b1 == a / 0x1_0000 % 0x100,
            b2 == a / 0x100 % 0x100,
            b3 == a % 0x100,
    ;
}

/// A list of atoms that is written as bytes is read back as it was.
pub proof fn atoms_round_trip(list: Seq<u32>, big_endian: bool)
    ensures
        all_atom_bytes(list, big_endian).len() == 4 * list.len(),
        atoms_in(all_atom_bytes(list, big_endian), big_endian) == list,
    decreases list.len(),
{
    let bytes = all_atom_bytes(list, big_endian);
    if list.len() > 0 {
        let before = list.drop_last();
        let past = all_atom_bytes(before, big_endian);
        atoms_round_trip(before, big_endian);
        lemma_atom_round_trip(list.last(), big_endian);
        assert forall|i: int| 0 <= i < list.len() implies #[trigger] atoms_in(
            bytes,
            big_endian,
        )[i] == list[i] by {
            let part = bytes.subrange(4 * i, 4 * i + 4);
            if i < before.len() {
                assert(part =~= past.subrange(4 * i, 4 * i + 4));
                assert(atoms_in(past, big_endian)[i] == before[i]);
            } else {
                assert(part =~= atom_bytes(list.last(), big_endian));
            }
        }
    }
    assert(atoms_in(bytes, big_endian) =~= list);
}

// ---- reading a selection ----

/// Whether `atom` stands for a target with data, and not for one that the
/// protocol itself needs.
pub open spec fn has_data(atoms: Atoms, atom: u32) -> bool {
    atom != atoms.targets && atom != atoms.timestamp && atom != atoms.incr
}

/// The atoms of `list` that stand for targets with data.
pub open spec fn data_atoms(atoms: Atoms, list: Seq<u32>) -> Seq<u32>
    decreases list.len(),
{
    if list.len() == 0 {
        Seq::empty()
    } else if has_data(atoms, list.last()) {
        data_atoms(atoms, list.drop_last()).push(list.last())
    } else {
        data_atoms(atoms, list.drop_last())
    }
}

/// The targets to read, in order, of those that the selection owner lists.
pub fn targets_to_read(atoms: &Atoms, list: &Vec<u32>) -> (r: Vec<u32>)
    ensures
        r@ == data_atoms(*atoms, list@),
{
    let mut out: Vec<u32> = Vec::new();
    let mut i: usize = 0;
    while i < list.len()
        invariant
            i <= list.len(),
            out@ == data_atoms(*atoms, list@.take(i as int)),
        decreases list.len() - i,
    {
        let atom: u32 = list[i];
        assert(list@.take(i + 1).drop_last() == list@.take(i as int));
        if atom != atoms.targets && atom != atoms.timestamp && atom != atoms.incr {
            out.push(atom);
        }
        i += 1;
    }
    assert(list@.take(list@.len() as int) == list@);
    out
}

/// The mime that a target is stored under: the name of its atom, where the
/// server tells it, and else its number.
pub fn target_label(name: Option<&[u8]>, atom: u32) -> (r: String)
    ensures
        match name {
            Some(bytes) => r@ == lossy_text(bytes@),
            None => r@ == "atom:"@ + digits(atom as nat),
        },
{
    match name {
        Some(bytes) => decode_lossy(bytes),
        None => "atom:".to_owned().concat(u64_text(atom as u64).as_str()),
    }
}

/// What a notification means for a conversion that was asked for.
#[derive(Debug, Clone, Copy, PartialEq, Eq, Structural)]
pub enum Converted {
    /// It is about another conversion.
    Other,
    /// The owner does not provide the target.
    Refused,
    /// The data is in the property.
    Ready,
}

/// What a notification about `target` of `selection` for the window `requestor`
/// means for a conversion that the window `win` asked for.
pub fn conversion(
    win: u32,
    selection: u32,
    target: u32,
    got_requestor: u32,
    got_selection: u32,
    got_target: u32,
    got_property: u32,
) -> (r: Converted)
    ensures
        r == if got_requestor != win || got_selection != selection || got_target != target {
            Converted::Other
        } else if got_property == 0 {
            Converted::Refused
        } else {
            Converted::Ready
        },
{
    if got_requestor != win || got_selection != selection || got_target != target {
        Converted::Other
    } else if got_property == 0 {
        Converted::Refused
    } else {
        Converted::Ready
    }
}

/// How many units of four bytes are asked for at a time.
pub const READ_UNITS: u32 = 8192;

/// A piece of a property that the server sent.
#[derive(Debug)]
pub struct Piece {
    /// The type of the property.
    pub kind: u32,
    /// The data of the piece.
    pub value: Vec<u8>,
    /// How many bytes of the property come after it.
    pub bytes_after: u32,
}

/// What to do next to read a property.
#[derive(Debug)]
pub enum Next {
    /// Ask for the next piece, from this offset in units of four bytes.
    Read(u32),
    /// Delete the property, and wait until the owner has written it again.
    Await,
    /// Delete the property; this is all of the data.
    Done(Vec<u8>),
}

/// How far the reading of a property has come.
pub struct Reading {
    /// Whether the owner sends the data in increments.
    pub incremental: bool,
    /// The data that was read.
    pub data: Seq<u8>,
    /// How much was read of the property that is being read.
    pub in_property: nat,
}

/// What a reader does next.
pub enum Step {
    Read(u32),
    Await,
    Done(Seq<u8>),
}

/// Whether a piece of the type `kind` announces increments.
pub open spec fn announces(s: Reading, marker: u32, kind: u32) -> bool {
    !s.incremental && s.in_property == 0 && kind == marker
}

/// How far the reading is after a piece. A property of the type `marker`
/// announces increments; any other piece adds its data, and counts for its
/// property until that ends.
pub open spec fn after_piece(
    s: Reading,
    marker: u32,
    kind: u32,
    value: Seq<u8>,
    bytes_after: u32,
) -> Reading {
    if announces(s, marker, kind) {
        Reading { incremental: true, ..s }
    } else {
        Reading {
            incremental: s.incremental,
            data: s.data + value,
            in_property: if more_to_come(s, value, bytes_after) {
                s.in_property + value.len()
            } else {
                0
            },
        }
    }
}

/// Whether more of the property has to be asked for after a piece.
pub open spec fn more_to_come(s: Reading, value: Seq<u8>, bytes_after: u32) -> bool {
    bytes_after > 0 && value.len() > 0 && (s.in_property + value.len()) / 4 <= u32::MAX
}

/// What to do after a piece. A property ends where no bytes come after the
/// piece. With increments the data ends with an empty property, and without
/// them with the first.
pub open spec fn next_step(
    s: Reading,
    marker: u32,
    kind: u32,
    value: Seq<u8>,
    bytes_after: u32,
) -> Step {
    let len = s.in_property + value.len();
    if announces(s, marker, kind) {
        Step::Await
    } else if more_to_come(s, value, bytes_after) {
        Step::Read((len / 4) as u32)
    } else if s.incremental && len > 0 {
        Step::Await
    } else {
        Step::Done(s.data + value)
    }
}

/// A piece as a value: the type of its property, its data, and how many bytes
/// come after it.
pub struct PieceValue {
    pub kind: u32,
    pub value: Seq<u8>,
    pub bytes_after: u32,
}

/// How far the reading is after all `pieces`.
pub open spec fn after_pieces(marker: u32, pieces: Seq<PieceValue>) -> Reading
    decreases pieces.len(),
{
    if pieces.len() == 0 {
        Reading { incremental: false, data: Seq::empty(), in_property: 0 }
    } else {
        let p = pieces.last();
        after_piece(after_pieces(marker, pieces.drop_last()), marker, p.kind, p.value, p.bytes_after)
    }
}

/// The data of all `pieces`, in order.
pub open spec fn joined(pieces: Seq<PieceValue>) -> Seq<u8>
    decreases pieces.len(),
{
    if pieces.len() == 0 {
        Seq::empty()
    } else {
        joined(pieces.drop_last()) + pieces.last().value
    }
}

/// A property that is not sent in increments is read byte for byte, in however
/// many pieces it comes.
pub proof fn plain_transfer_is_verbatim(marker: u32, pieces: Seq<PieceValue>)
    requires
        forall|i: int| 0 <= i < pieces.len() ==> (#[trigger] pieces[i]).kind != marker,
    ensures
        !after_pieces(marker, pieces).incremental,
        after_pieces(marker, pieces).data == joined(pieces),
    decreases pieces.len(),
{
    if pieces.len() > 0 {
        let before = pieces.drop_last();
        assert forall|i: int| 0 <= i < before.len() implies (#[trigger] before[i]).kind
            != marker by {
            assert(pieces[i].kind != marker);
        }
        plain_transfer_is_verbatim(marker, before);
        assert(pieces.last() == pieces[pieces.len() - 1]);
    }
}

/// Data that is sent in increments is read byte for byte: what the pieces after
/// the announcement hold, in order.
pub proof fn incremental_transfer_is_verbatim(marker: u32, pieces: Seq<PieceValue>)
    requires
        pieces.len() > 0,
        pieces[0].kind == marker,
    ensures
        after_pieces(marker, pieces).incremental,
        after_pieces(marker, pieces).data == joined(pieces.skip(1)),
    decreases pieces.len(),
{
    let before = pieces.drop_last();
    if pieces.len() == 1 {
        assert(after_pieces(marker, before) == (Reading {
            incremental: false,
            data: Seq::empty(),
            in_property: 0,
        }));
        assert(pieces.skip(1).len() == 0);
    } else {
        incremental_transfer_is_verbatim(marker, before);
        assert(pieces.skip(1).drop_last() == before.skip(1));
        assert(pieces.skip(1).last() == pieces.last());
    }
}

/// Reads a property, or a whole series of them where the owner sends the data
/// in increments.
pub struct PropertyReader {
    incr: u32,
    incremental: bool,
    data: Vec<u8>,
    in_property: usize,
}

/// Whether `r` is the step `s`.
pub open spec fn is_step(r: Next, s: Step) -> bool {
    match s {
        Step::Read(at) => r == Next::Read(at),
        Step::Await => r is Await,
        Step::Done(data) => r matches Next::Done(d) && d@ == data,
    }
}

impl PropertyReader {
    /// How far the reading has come.
    pub closed spec fn reading(&self) -> Reading {
        Reading {
            incremental: self.incremental,
            data: self.data@,
            in_property: self.in_property as nat,
        }
    }

    /// The type that announces increments.
    pub closed spec fn marker(&self) -> u32 {
        self.incr
    }

    /// No more of the property was counted than was read.
    pub open spec fn wf(&self) -> bool {
        self.reading().in_property <= self.reading().data.len()
    }

    /// A reader that has read nothing.
    pub fn new(atoms: &Atoms) -> (r: Self)
        ensures
            r.wf(),
            r.marker() == atoms.incr,
            r.reading() == after_pieces(atoms.incr, Seq::empty()),
    {
        PropertyReader { incr: atoms.incr, incremental: false, data: Vec::new(), in_property: 0 }
    }

    /// Take the next piece, and say what to do next.
    pub fn take(&mut self, piece: Piece) -> (r: Next)
        requires
            old(self).wf(),
            old(self).reading().data.len() + piece.value@.len() <= usize::MAX,
        ensures
            final(self).wf(),
            final(self).marker() == old(self).marker(),
            is_step(
                r,
                next_step(
                    old(self).reading(),
                    old(self).marker(),
                    piece.kind,
                    piece.value@,
                    piece.bytes_after,
                ),
            ),
            !(r is Done) ==> final(self).reading() == after_piece(
                old(self).reading(),
                old(self).marker(),
                piece.kind,
                piece.value@,
                piece.bytes_after,
            ),
    {
        if !self.incremental && self.in_property == 0 && piece.kind == self.incr {
            self.incremental = true;
            return Next::Await;
        }
        let got = piece.value.len();
        let ghost before = self.data@;
        let mut value = piece.value;
        let ghost added = value@;
        self.data.append(&mut value);
        assert(self.data@ =~= before + added);
        self.in_property = self.in_property + got;
        let units = self.in_property / 4;
        if piece.bytes_after > 0 && got > 0 && units <= u32::MAX as usize {
            Next::Read(units as u32)
        } else if self.incremental && self.in_property > 0 {
            self.in_property = 0;
            Next::Await
        } else {
            Next::Done(self.finish())
        }
    }

    /// Stop reading, and give what there is.
    pub fn finish(&mut self) -> (r: Vec<u8>)
        ensures
            r@ == old(self).reading().data,
            final(self).wf(),
            final(self).marker() == old(self).marker(),
    {
        let mut data: Vec<u8> = Vec::new();
        std::mem::swap(&mut data, &mut self.data);
        self.in_property = 0;
        data
    }
}

// ---- offering and serving a selection ----

/// A request for data of a selection.
#[derive(Debug, Clone, Copy, PartialEq, Eq, Structural)]
pub struct Request {
    pub requestor: u32,
    pub selection: u32,
    pub target: u32,
    pub property: u32,
    pub time: u32,
}

/// A property to write on the window of a requestor.
#[derive(Debug)]
pub struct Change {
    /// The type of the property.
    pub kind: u32,
    /// Its format: 8 or 32 bits.
    pub format: u8,
    /// How many units of the format it holds.
    pub count: u32,
    pub data: Vec<u8>,
}

/// How a request is answered: the property to write, if the data is there, and
/// the name that it goes by.
#[derive(Debug)]
pub struct Answer {
    pub property: u32,
    pub change: Option<Change>,
}

/// What is offered while the selection is owned.
pub struct Offer {
    served: HashMap<u32, Vec<u8>>,
    list: Vec<u32>,
    time: u32,
}

/// The data that is served for each atom, after the targets `list` were offered
/// under the atoms `names`, in order.
pub open spec fn served_after(list: Seq<Target>, names: Seq<u32>) -> Map<u32, Seq<u8>>
    decreases list.len(),
{
    if list.len() == 0 {
        Map::empty()
    } else {
        served_after(list.drop_last(), names.drop_last()).insert(names.last(), list.last().bytes)
    }
}

/// The atom that each target is offered under: that of its mime where the
/// server gave one, and else that of plain text.
pub open spec fn offer_names(atoms: Atoms, interned: Seq<Option<u32>>) -> Seq<u32> {
    interned.map_values(
        |a: Option<u32>|
            match a {
                Some(atom) => atom,
                None => atoms.text_plain,
            },
    )
}

/// A map of byte vectors as one of sequences.
pub open spec fn byte_map(m: Map<u32, Vec<u8>>) -> Map<u32, Seq<u8>> {
    m.map_values(|b: Vec<u8>| b@)
}

impl Offer {
    /// The data that is served for each atom.
    pub closed spec fn served(&self) -> Map<u32, Seq<u8>> {
        byte_map(self.served@)
    }

    /// The atoms that are listed for who asks for the targets.
    pub closed spec fn listed(&self) -> Seq<u32> {
        self.list@
    }

    /// The time stamp of the offer.
    pub closed spec fn time(&self) -> u32 {
        self.time
    }

    /// Nothing is offered.
    pub fn new() -> (r: Self)
        ensures
            r.served() == Map::<u32, Seq<u8>>::empty(),
            r.listed() == Seq::<u32>::empty(),
            r.time() == 0,
    {
        let r = Offer { served: HashMap::new(), list: Vec::new(), time: 0 };
        assert(r.served() =~= Map::<u32, Seq<u8>>::empty());
        r
    }

    /// Offer nothing any more: the selection has another owner.
    pub fn clear(&mut self)
        ensures
            final(self).served() == Map::<u32, Seq<u8>>::empty(),
            final(self).listed() == Seq::<u32>::empty(),
            final(self).time() == old(self).time(),
    {
        self.served = HashMap::new();
        self.list = Vec::new();
        assert(self.served() =~= Map::<u32, Seq<u8>>::empty());
    }

    /// Offer `targets`, where `interned` holds the atom for the mime of each, if
    /// the server gave one.
    pub fn set(
        &mut self,
        atoms: &Atoms,
        targets: &Vec<MimeBlob>,
        interned: &Vec<Option<u32>>,
        now: u32,
    )
        requires
            interned@.len() == targets@.len(),
        ensures
            final(self).served() == served_after(
                values(targets@),
                offer_names(*atoms, interned@),
            ),
            final(self).listed() == seq![atoms.targets, atoms.timestamp] + offer_names(
                *atoms,
                interned@,
            ),
            final(self).time() == now,
    {
        self.clear();
        self.list.push(atoms.targets);
        self.list.push(atoms.timestamp);
        let ghost all = values(targets@);
        let ghost names = offer_names(*atoms, interned@);
        let ghost head = seq![atoms.targets, atoms.timestamp];
        assert(self.list@ =~= head + names.take(0));
        let mut i: usize = 0;
        while i < targets.len()
            invariant
                i <= targets.len(),
                interned@.len() == targets@.len(),
                all == values(targets@),
                names == offer_names(*atoms, interned@),
                head.len() == 2,
                self.list@ == head + names.take(i as int),
                self.served() == served_after(all.take(i as int), names.take(i as int)),
            decreases targets.len() - i,
        {
            let atom: u32 = match interned[i] {
                Some(a) => a,
                None => atoms.text_plain,
            };
            let copy = targets[i].clone();
            let ghost past = self.served();
            let ghost before = self.served@;
            let ghost bytes = copy.bytes@;
            proof {
                assert(names[i as int] == atom);
                assert(all[i as int] == targets@[i as int]@);
                assert(bytes == all[i as int].bytes);
                assert(all.take(i + 1).drop_last() == all.take(i as int));
                assert(names.take(i + 1).drop_last() == names.take(i as int));
            }
            self.served.insert(atom, copy.bytes);
            self.list.push(atom);
            assert(self.served() =~= past.insert(atom, bytes));
            assert(self.list@ =~= head + names.take(i + 1));
            i += 1;
        }
        assert(all.take(all.len() as int) == all);
        assert(names.take(names.len() as int) == names);
        self.time = now;
    }

    /// How a request is answered: a request for the targets gets their list, one
    /// for the time stamp gets it, and any other gets the bytes that are
    /// offered, if there are any. A request for another selection gets nothing.
    pub fn answer(&self, atoms: &Atoms, request: &Request, big_endian: bool) -> (r: Option<Answer>)
        ensures
            match r {
                None => request.selection != atoms.clipboard && request.selection != atoms.primary,
                Some(a) => {
                    &&& request.selection == atoms.clipboard || request.selection == atoms.primary
                    &&& a.property == if request.property == 0 {
                        request.target
                    } else {
                        request.property
                    }
                    &&& if request.target == atoms.targets {
                        a.change matches Some(c) && c.kind == atoms.targets && c.format == 32
                            && c.count == self.listed().len() as u32 && c.data@ == all_atom_bytes(
                            self.listed(),
                            big_endian,
                        )
                    } else if request.target == atoms.timestamp {
                        a.change matches Some(c) && c.kind == atoms.timestamp && c.format == 32
                            && c.count == 1 && c.data@ == atom_bytes(self.time(), big_endian)
                    } else if self.served().contains_key(request.target) {
                        a.change matches Some(c) && c.kind == request.target && c.format == 8
                            && c.data@ == self.served()[request.target] && c.count
                            == self.served()[request.target].len() as u32
                    } else {
                        a.change is None
                    }
                },
            },
    {
        if request.selection != atoms.clipboard && request.selection != atoms.primary {
            return None;
        }
        let property: u32 = if request.property == 0 {
            request.target
        } else {
            request.property
        };
        let change = if request.target == atoms.targets {
            Some(
                Change {
                    kind: atoms.targets,
                    format: 32,
                    count: #[verifier::truncate] (self.list.len() as u32),
                    data: bytes_from_atoms(&self.list, big_endian),
                },
            )
        } else if request.target == atoms.timestamp {
            let mut stamp: Vec<u32> = Vec::new();
            stamp.push(self.time);
            let data = bytes_from_atoms(&stamp, big_endian);
            proof {
                assert(stamp@.drop_last() =~= Seq::empty());
                reveal_with_fuel(all_atom_bytes, 2);
                assert(data@ =~= atom_bytes(self.time, big_endian));
            }
            Some(Change { kind: atoms.timestamp, format: 32, count: 1, data })
        } else {
            match self.served.get(&request.target) {
                Some(bytes) => {
                    let data = bytes.clone();
                    assert(data@ =~= bytes@);
                    Some(
                        Change {
                            kind: request.target,
                            format: 8,
                            count: #[verifier::truncate] (bytes.len() as u32),
                            data,
                        },
                    )
                },
                None => None,
            }
        };
        Some(Answer { property, change })
    }
}

/// What is offered is served byte for byte: for each target whose atom no later
/// target shares, a request for the atom gets exactly its bytes.
pub proof fn offer_is_served_verbatim(list: Seq<Target>, names: Seq<u32>, i: int)
    requires
        list.len() == names.len(),
        0 <= i < list.len(),
        forall|j: int| i < j < names.len() ==> #[trigger] names[j] != names[i],
    ensures
        served_after(list, names).contains_key(names[i]),
        served_after(list, names)[names[i]] == list[i].bytes,
    decreases list.len(),
{
    if i < list.len() - 1 {
        let fewer = names.drop_last();
        assert(names.last() == names[names.len() - 1]);
        assert(fewer[i] == names[i]);
        assert forall|j: int| i < j < fewer.len() implies #[trigger] fewer[j] != fewer[i] by {
            assert(names[j] != names[i]);
        }
        offer_is_served_verbatim(list.drop_last(), fewer, i);
        assert(list.drop_last()[i] == list[i]);
    } else {
        assert(names.last() == names[i]);
        assert(list.last() == list[i]);
    }
}

/// The property that the requestor is told of: that of the answer if it could
/// be written, and else none.
pub fn notified_property(property: u32, written: bool) -> (r: u32)
    ensures
        r == if written {
            property
        } else {
            0
        },
{
    if written {
        property
    } else {
        0
    }
}

// ---- where a selection comes from ----

/// The parts of `s` between NUL characters that are not empty.
pub open spec fn nul_parts(s: Seq<char>) -> Seq<Seq<char>>
    decreases s.len(),
{
    if s.len() == 0 {
        Seq::empty()
    } else {
        let before = nul_parts(s.drop_last());
        if s.last() == '\0' {
            before
        } else if s.len() == 1 || s[s.len() - 2] == '\0' {
            before.push(seq![s.last()])
        } else {
            before.drop_last().push(before.last().push(s.last()))
        }
    }
}

/// The class that a `WM_CLASS` property names: its second part, or else its
/// first.
pub open spec fn class_in(text: Seq<char>) -> Option<Seq<char>> {
    let parts = nul_parts(text);
    if parts.len() > 1 {
        Some(parts[1])
    } else if parts.len() == 1 {
        Some(parts[0])
    } else {
        None
    }
}

fn split_nul(s: &Vec<char>) -> (r: Vec<Vec<char>>)
    ensures
        r@.map_values(|w: Vec<char>| w@) == nul_parts(s@),
{
    let mut out: Vec<Vec<char>> = Vec::new();
    let mut cur: Vec<char> = Vec::new();
    let mut i: usize = 0;
    let ghost view = |w: Vec<char>| w@;
    assert(out@.map_values(view) == nul_parts(s@.take(0)));
    while i < s.len()
        invariant
            i <= s.len(),
            view == (|w: Vec<char>| w@),
            (i > 0 && s@[i - 1] != '\0') <==> cur@.len() > 0,
            cur@.len() == 0 ==> nul_parts(s@.take(i as int)) == out@.map_values(view),
            cur@.len() > 0 ==> nul_parts(s@.take(i as int)) == out@.map_values(view).push(cur@),
        decreases s.len() - i,
    {
        let ghost now = s@.take(i + 1);
        let c = s[i];
        assert(now.drop_last() == s@.take(i as int));
        assert(now.last() == c);
        assert(i > 0 ==> now[now.len() - 2] == s@[i - 1]);
        if c == '\0' {
            if cur.len() > 0 {
                let ghost old_out = out@;
                let ghost old_cur = cur@;
                out.push(cur);
                cur = Vec::new();
                assert(out@.map_values(view) == old_out.map_values(view).push(old_cur));
            }
        } else {
            let ghost old_cur = cur@;
            cur.push(c);
            proof {
                if old_cur.len() == 0 {
                    assert(cur@ == seq![c]);
                } else {
                    assert(out@.map_values(view).push(old_cur).drop_last() == out@.map_values(
                        view,
                    ));
                }
            }
        }
        i += 1;
    }
    assert(s@.take(s@.len() as int) == s@);
    if cur.len() > 0 {
        let ghost old_out = out@;
        let ghost old_cur = cur@;
        out.push(cur);
        assert(out@.map_values(view) == old_out.map_values(view).push(old_cur));
    }
    out
}

/// The class that the text of a `WM_CLASS` property names.
pub fn class_of_text(text: &str) -> (r: Option<String>)
    ensures
        optional_text(r) == class_in(text@),
{
    let x = chars_of(text);
    let parts = split_nul(&x);
    let ghost all = parts@.map_values(|w: Vec<char>| w@);
    assert(all.len() == parts@.len());
    if parts.len() > 1 {
        assert(all[1] == parts@[1]@);
        Some(string_of(&parts[1]))
    } else if parts.len() == 1 {
        assert(all[0] == parts@[0]@);
        Some(string_of(&parts[0]))
    } else {
        None
    }
}

/// The class that a `WM_CLASS` property names.
pub fn wm_class(value: &[u8]) -> (r: Option<String>)
    ensures
        optional_text(r) == class_in(lossy_text(value@)),
{
    let text = decode_lossy(value);
    class_of_text(text.as_str())
}

/// The application that a selection comes from. Without an answer of the server
/// it is unknown; without an owner, or with the backend's own window `own` as
/// the owner, it is this program; and else it goes by the class of the owner's
/// window, or by its number.
pub open spec fn source_app(owner: Option<u32>, own: u32, class: Option<Seq<char>>) -> App {
    match owner {
        None => App { id: None, label: None },
        Some(w) => if w == 0 || w == own {
            App { id: Some("cling"@), label: Some("cling"@) }
        } else {
            let label = match class {
                Some(c) => c,
                None => "window:"@ + digits(w as nat),
            };
            App { id: Some(folded(label)), label: Some(label) }
        },
    }
}

/// The application that a selection comes from, where `class` is that of the
/// owner's window.
pub fn source_of(owner: Option<u32>, own: u32, class: Option<String>) -> (r: AppId)
    ensures
        r@ == source_app(owner, own, optional_text(class)),
{
    match owner {
        None => AppId::default(),
        Some(w) => if w == 0 || w == own {
            AppId { id: Some("cling".to_owned()), label: Some("cling".to_owned()) }
        } else {
            let label = match class {
                Some(c) => c,
                None => "window:".to_owned().concat(u64_text(w as u64).as_str()),
            };
            AppId { id: Some(to_ascii_lowercase(label.as_str())), label: Some(label) }
        },
    }
}

/// The event for a selection that was read: a selection without targets is not
/// worth one.
pub fn selection_event(targets: &Vec<MimeBlob>, source: &AppId) -> (r: Option<ClipboardEvent>)
    ensures
        match r {
            None => targets@.len() == 0,
            Some(ev) => targets@.len() > 0 && ev@ == (Event::SelectionChanged { source: source@ }),
        },
{
    if targets.len() == 0 {
        None
    } else {
        Some(ClipboardEvent::SelectionChanged { source: source.clone() })
    }
}

// ---- pasting ----

/// A key that is pressed or released.
#[derive(Debug, Clone, Copy, PartialEq, Eq, Structural)]
pub struct KeyStroke {
    /// The X event type: 2 for a press, 3 for a release.
    pub kind: u8,
    pub keycode: u8,
}

/// The key strokes for Ctrl+V, on a typical layout: both keys are pressed, and
/// released in the opposite order.
pub fn paste_keys() -> (r: Vec<KeyStroke>)
    ensures
        r@ == seq![
            (KeyStroke { kind: 2, keycode: 37 }),
            (KeyStroke { kind: 2, keycode: 55 }),
            (KeyStroke { kind: 3, keycode: 55 }),
            (KeyStroke { kind: 3, keycode: 37 }),
        ],
{
    let mut keys: Vec<KeyStroke> = Vec::new();
    keys.push(KeyStroke { kind: 2, keycode: 37 });
    keys.push(KeyStroke { kind: 2, keycode: 55 });
    keys.push(KeyStroke { kind: 3, keycode: 55 });
    keys.push(KeyStroke { kind: 3, keycode: 37 });
    keys
}

// ---- laws of the X11 backend ----

/// An atom is four bytes, the one with the highest value first on a big-endian machine and
/// last on another.
pub proof fn atoms_are_four_bytes(a: u32, b: Seq<u8>)
    requires
        b.len() == 4,
    ensures
        atom_in(b, true) as int == b[0] * 0x100_0000 + b[1] * 0x1_0000 + b[2] * 0x100 + b[3],
        atom_in(b, false) as int == b[3] * 0x100_0000 + b[2] * 0x1_0000 + b[1] * 0x100 + b[0],
        atom_bytes(a, true).len() == 4,
        atom_bytes(a, true)[0] as int == a as int / 0x100_0000,
        atom_bytes(a, true)[3] as int == a as int % 0x100,
        atom_bytes(a, false) == atom_bytes(a, true).reverse(),
        atom_in(atom_bytes(a, true), true) == a,
        atom_in(atom_bytes(a, false), false) == a,
{
    lemma_atom_round_trip(a, true);
    lemma_atom_round_trip(a, false);
    assert(atom_bytes(a, false) =~= atom_bytes(a, true).reverse());
}

/// Lists of atoms go into bytes one by one, and come out of them one by one: the atom at a
/// place is in the four bytes there, and fewer than four bytes at the end are no atom.
pub proof fn atoms_come_four_bytes_each(
    list: Seq<u32>,
    a: u32,
    bytes: Seq<u8>,
    big_endian: bool,
    i: int,
)
    ensures
        all_atom_bytes(Seq::empty(), big_endian) == Seq::<u8>::empty(),
        all_atom_bytes(list.push(a), big_endian) == all_atom_bytes(list, big_endian) + atom_bytes(
            a,
            big_endian,
        ),
        4 * atoms_in(bytes, big_endian).len() <= bytes.len() < 4 * atoms_in(bytes, big_endian).len()
            + 4,
        0 <= i && 4 * i + 4 <= bytes.len() ==> atoms_in(bytes, big_endian)[i] == atom_in(
            seq![bytes[4 * i], bytes[4 * i + 1], bytes[4 * i + 2], bytes[4 * i + 3]],
            big_endian,
        ),
{
    assert(list.push(a).drop_last() =~= list);
    if 0 <= i && 4 * i + 4 <= bytes.len() {
        assert(bytes.subrange(4 * i, 4 * i + 4) =~= seq![
            bytes[4 * i],
            bytes[4 * i + 1],
            bytes[4 * i + 2],
            bytes[4 * i + 3],
        ]);
    }
}

/// Of the targets that an owner lists all are read, in order, but for the list itself, the
/// time stamp and the mark for increments.
pub proof fn listed_targets_are_read_in_order(atoms: Atoms, list: Seq<u32>, a: u32)
    ensures
        data_atoms(atoms, Seq::empty()) == Seq::<u32>::empty(),
        a == atoms.targets || a == atoms.timestamp || a == atoms.incr ==> data_atoms(
            atoms,
            list.push(a),
        ) == data_atoms(atoms, list),
        a != atoms.targets && a != atoms.timestamp && a != atoms.incr ==> data_atoms(
            atoms,
            list.push(a),
        ) == data_atoms(atoms, list).push(a),
{
    assert(list.push(a).drop_last() =~= list);
}

/// What a reader gives as the data is all of it: what the pieces held, in order and byte for
/// byte, without the announcement of increments if there was one.
pub proof fn reader_gives_all_of_the_data(marker: u32, pieces: Seq<PieceValue>, data: Seq<u8>)
    requires
        pieces.len() > 0,
        pieces[0].kind == marker || (forall|i: int|
            0 <= i < pieces.len() ==> (#[trigger] pieces[i]).kind != marker),
        next_step(
            after_pieces(marker, pieces.drop_last()),
            marker,
            pieces.last().kind,
            pieces.last().value,
            pieces.last().bytes_after,
        ) == Step::Done(data),
    ensures
        pieces[0].kind == marker ==> pieces.len() > 1 && data == joined(pieces.skip(1)),
        pieces[0].kind != marker ==> data == joined(pieces),
{
    let before = pieces.drop_last();
    if pieces[0].kind == marker {
        if pieces.len() == 1 {
            assert(after_pieces(marker, before) == (Reading {
                incremental: false,
                data: Seq::empty(),
                in_property: 0,
            }));
        } else {
            incremental_transfer_is_verbatim(marker, before);
            assert(pieces.skip(1).drop_last() == before.skip(1));
            assert(pieces.skip(1).last() == pieces.last());
        }
    } else {
        assert forall|i: int| 0 <= i < before.len() implies (#[trigger] before[i]).kind
            != marker by {
            assert(pieces[i].kind != marker);
        }
        plain_transfer_is_verbatim(marker, before);
    }
}

/// The data of pieces is theirs one by one.
pub proof fn pieces_are_joined_in_order(pieces: Seq<PieceValue>, p: PieceValue)
    ensures
        joined(Seq::empty()) == Seq::<u8>::empty(),
        joined(pieces.push(p)) == joined(pieces) + p.value,
{
    assert(pieces.push(p).drop_last() =~= pieces);
}

/// What a reader does after a piece. A mark for increments at the beginning makes it wait.
/// Where more of a property comes, it asks for it from where it stands, in units of four
/// bytes. Where the property ends, it is done, or waits for the next one if there are
/// increments and this one was not empty.
pub proof fn reader_asks_for_what_is_missing(
    s: Reading,
    marker: u32,
    kind: u32,
    value: Seq<u8>,
    bytes_after: u32,
)
    ensures
        !s.incremental && s.in_property == 0 && kind == marker ==> {
            &&& next_step(s, marker, kind, value, bytes_after) is Await
            &&& after_piece(s, marker, kind, value, bytes_after).data == s.data
            &&& after_piece(s, marker, kind, value, bytes_after).incremental
            &&& after_piece(s, marker, kind, value, bytes_after).in_property == 0
        },
        s.incremental || s.in_property > 0 || kind != marker ==> {
            let at = s.in_property + value.len();
            let next = next_step(s, marker, kind, value, bytes_after);
            let now = after_piece(s, marker, kind, value, bytes_after);
            &&& now.data == s.data + value
            &&& now.incremental == s.incremental
            &&& bytes_after > 0 && value.len() > 0 && at / 4 <= u32::MAX ==> next == Step::Read(
                (at / 4) as u32,
            ) && now.in_property == at
            &&& bytes_after == 0 || value.len() == 0 ==> now.in_property == 0
            &&& (bytes_after == 0 || value.len() == 0) && !s.incremental ==> next == Step::Done(
                s.data + value,
            )
            &&& (bytes_after == 0 || value.len() == 0) && s.incremental && at == 0 ==> next
                == Step::Done(s.data + value)
            &&& (bytes_after == 0 || value.len() == 0) && s.incremental && at > 0 ==> next is Await
        },
{
}

/// A reader that has read nothing has no data, and the answer of a reader is its next step.
pub proof fn reader_starts_empty(marker: u32, r: Next, step: Step)
    ensures
        after_pieces(marker, Seq::empty()).data.len() == 0,
        !after_pieces(marker, Seq::empty()).incremental,
        after_pieces(marker, Seq::empty()).in_property == 0,
        is_step(r, step) ==> (r is Read <==> step is Read) && (r is Await <==> step is Await) && (r
            is Done <==> step is Done),
        is_step(r, step) ==> (step matches Step::Read(at) ==> r == Next::Read(at)),
        is_step(r, step) ==> (step matches Step::Done(data) ==> (r matches Next::Done(d) && d@
            == data)),
{
}

/// A target is offered under the atom of its mime, and under that of plain text where the
/// server gave none.
pub proof fn targets_are_offered_by_their_mimes(atoms: Atoms, interned: Seq<Option<u32>>, i: int)
    requires
        0 <= i < interned.len(),
    ensures
        offer_names(atoms, interned).len() == interned.len(),
        interned[i] matches Some(a) ==> offer_names(atoms, interned)[i] == a,
        interned[i] is None ==> offer_names(atoms, interned)[i] == atoms.text_plain,
{
}

/// Nothing is served but what was offered.
pub proof fn nothing_else_is_served(list: Seq<Target>, names: Seq<u32>, a: u32)
    requires
        list.len() == names.len(),
        served_after(list, names).contains_key(a),
    ensures
        exists|i: int|
            0 <= i < list.len() && #[trigger] names[i] == a && served_after(list, names)[a]
                == list[i].bytes,
    decreases list.len(),
{
    if list.len() > 0 {
        let n = list.len() - 1;
        if names[n] == a {
            assert(served_after(list, names)[a] == list[n].bytes);
        } else {
            nothing_else_is_served(list.drop_last(), names.drop_last(), a);
            let i = choose|i: int|
                0 <= i < n && #[trigger] names.drop_last()[i] == a && served_after(
                    list.drop_last(),
                    names.drop_last(),
                )[a] == list.drop_last()[i].bytes;
            assert(names[i] == a);
        }
    }
}

proof fn lemma_nul_parts_word(w: Seq<char>)
    requires
        w.len() > 0,
        forall|i: int| 0 <= i < w.len() ==> #[trigger] w[i] != '\0',
    ensures
        nul_parts(w) == seq![w],
    decreases w.len(),
{
    let rest = w.drop_last();
    assert(w[w.len() - 1] != '\0');
    if rest.len() == 0 {
        assert(nul_parts(rest) =~= Seq::empty());
        assert(nul_parts(w) =~= seq![w]) by {
            assert(seq![w.last()] =~= w);
        }
    } else {
        assert forall|i: int| 0 <= i < rest.len() implies #[trigger] rest[i] != '\0' by {
            assert(rest[i] == w[i]);
        }
        lemma_nul_parts_word(rest);
        assert(w[w.len() - 2] != '\0');
        assert(rest.push(w.last()) =~= w);
        assert(seq![rest].drop_last().push(seq![rest].last().push(w.last())) =~= seq![w]);
    }
}

proof fn lemma_nul_parts_len(s: Seq<char>)
    ensures
        s.len() > 0 && s.last() != '\0' ==> nul_parts(s).len() > 0,
    decreases s.len(),
{
    if s.len() > 1 {
        lemma_nul_parts_len(s.drop_last());
        assert(s.drop_last().last() == s[s.len() - 2]);
    }
}

proof fn lemma_nul_parts_split(a: Seq<char>, b: Seq<char>)
    ensures
        nul_parts(a.push('\0') + b) == nul_parts(a) + nul_parts(b),
    decreases b.len(),
{
    let s = a.push('\0') + b;
    if b.len() == 0 {
        assert(s =~= a.push('\0'));
        assert(s.drop_last() =~= a);
        assert(nul_parts(a) + nul_parts(b) =~= nul_parts(a));
    } else {
        let rest = b.drop_last();
        lemma_nul_parts_split(a, rest);
        assert(s.drop_last() =~= a.push('\0') + rest);
        assert(s.last() == b.last());
        let before = nul_parts(a) + nul_parts(rest);
        if b.last() == '\0' {
        } else if b.len() == 1 {
            assert(s[s.len() - 2] == '\0');
            assert(rest =~= Seq::empty());
            assert(nul_parts(a) + nul_parts(b) =~= before.push(seq![b.last()]));
        } else {
            assert(s[s.len() - 2] == b[b.len() - 2]);
            if b[b.len() - 2] == '\0' {
                assert(nul_parts(a) + nul_parts(b) =~= before.push(seq![b.last()]));
            } else {
                lemma_nul_parts_len(rest);
                assert(rest.last() == b[b.len() - 2]);
                assert(before.last() == nul_parts(rest).last());
                assert(nul_parts(a) + nul_parts(b) =~= before.drop_last().push(
                    before.last().push(b.last()),
                ));
            }
        }
    }
}

/// A window goes by its class: the second part of the property where it has two, whatever
/// comes behind, its only part where it has one, and nothing where it has none. Empty parts
/// do not count.
pub proof fn class_is_the_second_part(a: Seq<char>, b: Seq<char>, rest: Seq<char>)
    requires
        a.len() > 0,
        b.len() > 0,
        forall|i: int| 0 <= i < a.len() ==> #[trigger] a[i] != '\0',
        forall|i: int| 0 <= i < b.len() ==> #[trigger] b[i] != '\0',
    ensures
        class_in(Seq::empty()) is None,
        class_in(seq!['\0']) is None,
        class_in(a) == Some(a),
        class_in(a + seq!['\0']) == Some(a),
        class_in(a + seq!['\0'] + b) == Some(b),
        class_in(a + seq!['\0'] + b + seq!['\0'] + rest) == Some(b),
        class_in(seq!['\0'] + rest) == class_in(rest),
        class_in(a + seq!['\0'] + seq!['\0'] + rest) == class_in(a + seq!['\0'] + rest),
{
    let none = Seq::<char>::empty();
    lemma_nul_parts_word(a);
    lemma_nul_parts_word(b);
    assert(nul_parts(none) =~= Seq::empty());
    assert(seq!['\0'] =~= none.push('\0') + none);
    lemma_nul_parts_split(none, none);
    assert(a + seq!['\0'] =~= a.push('\0') + none);
    lemma_nul_parts_split(a, none);
    assert(a + seq!['\0'] + b =~= a.push('\0') + b);
    lemma_nul_parts_split(a, b);
    let two = a.push('\0') + b;
    assert(a + seq!['\0'] + b + seq!['\0'] + rest =~= two.push('\0') + rest);
    lemma_nul_parts_split(two, rest);
    assert(nul_parts(two) =~= seq![a, b]);
    assert((nul_parts(two) + nul_parts(rest))[1] == b);
    assert(seq!['\0'] + rest =~= none.push('\0') + rest);
    lemma_nul_parts_split(none, rest);
    assert(nul_parts(none) + nul_parts(rest) =~= nul_parts(rest));
    assert(a + seq!['\0'] + rest =~= a.push('\0') + rest);
    lemma_nul_parts_split(a, rest);
    assert(a + seq!['\0'] + seq!['\0'] + rest =~= a.push('\0').push('\0') + rest);
    lemma_nul_parts_split(a.push('\0'), rest);
    assert(a.push('\0') + none =~= a.push('\0'));
    assert(nul_parts(a) + nul_parts(none) =~= nul_parts(a));
}

/// A selection comes from the application that owns it: this program where it owns it itself
/// or nobody does, an unknown one where the server does not tell, and else the window's
/// class, or its number. Its id is the same in small letters.
pub proof fn source_is_the_owner(owner: u32, own: u32, class: Seq<char>)
    ensures
        source_app(None, own, Some(class)) == (App { id: None, label: None }),
        owner == 0 || owner == own ==> source_app(Some(owner), own, Some(class)) == (App {
            id: Some("cling"@),
            label: Some("cling"@),
        }),
        owner == 0 || owner == own ==> source_app(Some(owner), own, None) == (App {
            id: Some("cling"@),
            label: Some("cling"@),
        }),
        owner != 0 && owner != own ==> source_app(Some(owner), own, Some(class)) == (App {
            id: Some(folded(class)),
            label: Some(class),
        }),
        owner != 0 && owner != own ==> source_app(Some(owner), own, None) == (App {
            id: Some(folded("window:"@ + digits(owner as nat))),
            label: Some("window:"@ + digits(owner as nat)),
        }),
{
}

// ---- laws of calls ----

/// What is offered is what a requestor gets: a request for the atom of a target, under which
/// no later target is offered, is answered with exactly its bytes, on the clipboard and on
/// the primary selection alike, and on no other.
pub proof fn requestor_gets_what_was_offered(
    offer: &mut Offer,
    atoms: &Atoms,
    targets: &Vec<MimeBlob>,
    interned: &Vec<Option<u32>>,
    now: u32,
    request: &Request,
    big_endian: bool,
    r: Option<Answer>,
    i: int,
)
    requires
        interned@.len() == targets@.len(),
        call_ensures(Offer::set, (offer, atoms, targets, interned, now), ()),
        call_ensures(Offer::answer, (final(offer), atoms, request, big_endian), r),
        0 <= i < targets@.len(),
        interned@[i] == Some(request.target),
        forall|j: int|
            i < j < interned@.len() ==> #[trigger] interned@[j] is Some && interned@[j] != Some(
                request.target,
            ),
        request.target != atoms.targets,
        request.target != atoms.timestamp,
    ensures
        r is Some <==> request.selection == atoms.clipboard || request.selection == atoms.primary,
        r matches Some(a) ==> {
            &&& a.property == if request.property == 0 {
                request.target
            } else {
                request.property
            }
            &&& a.change matches Some(c)
            &&& c.kind == request.target
            &&& c.format == 8
            &&& c.data@ == targets@[i].bytes@
        },
{
    let names = offer_names(*atoms, interned@);
    let all = values(targets@);
    assert(names[i] == request.target);
    assert forall|j: int| i < j < names.len() implies #[trigger] names[j] != names[i] by {
        assert(interned@[j] is Some);
    }
    offer_is_served_verbatim(all, names, i);
    assert(all[i] == targets@[i]@);
}

/// Who asks for the targets gets all that were offered, in order, behind the two atoms that
/// the protocol needs; who asks for the time stamp gets that of the offer; and who asks for
/// anything that was not offered is refused.
pub proof fn requestor_gets_the_list(
    offer: &mut Offer,
    atoms: &Atoms,
    targets: &Vec<MimeBlob>,
    interned: &Vec<Option<u32>>,
    now: u32,
    request: &Request,
    big_endian: bool,
    r: Option<Answer>,
)
    requires
        interned@.len() == targets@.len(),
        call_ensures(Offer::set, (offer, atoms, targets, interned, now), ()),
        call_ensures(Offer::answer, (final(offer), atoms, request, big_endian), r),
        request.selection == atoms.clipboard || request.selection == atoms.primary,
    ensures
        r is Some,
        request.target == atoms.targets ==> (r->0.change matches Some(c) && c.format == 32
            && atoms_in(c.data@, big_endian) == seq![atoms.targets, atoms.timestamp] + offer_names(
            *atoms,
            interned@,
        )),
        request.target == atoms.timestamp && atoms.timestamp != atoms.targets ==> (
        r->0.change matches Some(c) && c.format == 32 && c.count == 1 && atom_in(
            c.data@,
            big_endian,
        ) == now),
        request.target != atoms.targets && request.target != atoms.timestamp && (forall|j: int|
            0 <= j < interned@.len() ==> #[trigger] interned@[j] is Some && interned@[j] != Some(
                request.target,
            )) ==> r->0.change is None,
{
    let names = offer_names(*atoms, interned@);
    atoms_round_trip(seq![atoms.targets, atoms.timestamp] + names, big_endian);
    lemma_atom_round_trip(now, big_endian);
    if served_after(values(targets@), names).contains_key(request.target) {
        nothing_else_is_served(values(targets@), names, request.target);
        let j = choose|j: int|
            0 <= j < targets@.len() && #[trigger] names[j] == request.target && served_after(
                values(targets@),
                names,
            )[request.target] == values(targets@)[j].bytes;
        assert(interned@[j] is Some ==> interned@[j] == Some(request.target));
    }
}

/// An answer to a conversion counts only for the window, the selection and the target that
/// were asked for, and carries data if and only if it names a property.
pub proof fn conversion_counts_for_its_request(
    win: u32,
    selection: u32,
    target: u32,
    got: (u32, u32, u32, u32),
    r: Converted,
)
    requires
        call_ensures(conversion, (win, selection, target, got.0, got.1, got.2, got.3), r),
    ensures
        r is Other <==> got.0 != win || got.1 != selection || got.2 != target,
        r is Ready <==> got.0 == win && got.1 == selection && got.2 == target && got.3 != 0,
{
}

/// A target goes by the name that the server gives its atom, or by the number of the atom.
pub proof fn target_goes_by_the_name_of_its_atom(name: Option<&[u8]>, atom: u32, r: String)
    requires
        call_ensures(target_label, (name, atom), r),
    ensures
        name matches Some(bytes) ==> r@ == lossy_text(bytes@),
        name is None ==> r@ == "atom:"@ + digits(atom as nat),
{
}

/// A selection with targets is an event, from the application that it came from, and one
/// without is none. What could not be written is not told of.
pub proof fn selection_with_targets_is_an_event(
    targets: &Vec<MimeBlob>,
    source: &AppId,
    r: Option<ClipboardEvent>,
    property: u32,
    written: bool,
    told: u32,
)
    requires
        call_ensures(selection_event, (targets, source), r),
        call_ensures(notified_property, (property, written), told),
    ensures
        r is Some <==> targets@.len() > 0,
        r matches Some(ev) ==> (ev matches ClipboardEvent::SelectionChanged { source: s } && s@
            == source@),
        written ==> told == property,
        !written ==> told == 0,
{
}

/// Pasting presses the control key and `V`, and releases them in the opposite order.
pub proof fn pasting_presses_and_releases(r: Vec<KeyStroke>)
    requires
        call_ensures(paste_keys, (), r),
    ensures
        r@.len() == 4,
        r@[0].kind == 2 && r@[1].kind == 2 && r@[2].kind == 3 && r@[3].kind == 3,
        r@[0].keycode == 37 && r@[1].keycode == 55,
        r@[3].keycode == r@[0].keycode && r@[2].keycode == r@[1].keycode,
{
}

} // verus!
