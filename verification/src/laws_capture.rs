//! Laws of capturing: what a capture leaves in the tables, told by its targets alone.

use vstd::prelude::*;
use vstd::utf8::*;

use crate::content::{outside_tags, stripped, text_or_empty};
use crate::history::{
    captured, has_mime, index_line, index_text, kept, lemma_kept_step, put_all, repeats,
    stored_size_is_total,
};
use crate::laws::lemma_put_all_keys;
use crate::sql::{is_latest, live, newer, sound, Tables};
use crate::text::{blank, folded, same_folded, whitespace, words};
use crate::types::{inferred_kind, kind_name, total_bytes, EntryId, Target, UnixMillis};

verus! {

broadcast use vstd::string::group_string_axioms;

// ---- the targets of a new entry ----

/// Of the targets of a capture those within the limit are kept, one by one and in order,
/// and the others are left out.
pub proof fn targets_are_kept_one_by_one(a: Seq<Target>, t: Target, b: Seq<Target>, max: u64)
    ensures
        kept(Seq::empty(), max) == Seq::<Target>::empty(),
        t.bytes.len() <= max ==> kept(seq![t], max) == seq![t],
        t.bytes.len() > max ==> kept(seq![t], max) == Seq::<Target>::empty(),
        kept(a + b, max) == kept(a, max) + kept(b, max),
{
    reveal(Seq::filter);
    let within = |t: Target| t.bytes.len() <= max;
    Seq::filter_distributes_over_add(a, b, within);
    let one = seq![t];
    assert(one.drop_last() =~= Seq::empty());
    assert(one.last() == t);
    assert(one.drop_last().filter(within) =~= Seq::empty());
    if t.bytes.len() <= max {
        assert(kept(one, max) =~= one);
    }
}

proof fn lemma_put_kept(
    stored: Map<(i64, Seq<char>), Seq<u8>>,
    id: EntryId,
    targets: Seq<Target>,
    max: u64,
    mime: Seq<char>,
)
    ensures
        forall|i: int|
            0 <= i < targets.len() && (#[trigger] targets[i]).mime == mime
                && targets[i].bytes.len() <= max && (forall|j: int|
                i < j < targets.len() && (#[trigger] targets[j]).mime == mime
                    ==> targets[j].bytes.len() > max) ==> put_all(
                stored,
                id,
                kept(targets, max),
            ).contains_key((id, mime)) && put_all(stored, id, kept(targets, max))[(id, mime)]
                == targets[i].bytes,
        (forall|i: int|
            0 <= i < targets.len() && (#[trigger] targets[i]).mime == mime
                ==> targets[i].bytes.len() > max) ==> put_all(
            stored,
            id,
            kept(targets, max),
        ).contains_key((id, mime)) == stored.contains_key((id, mime)),
    decreases targets.len(),
{
    let now = put_all(stored, id, kept(targets, max));
    if targets.len() == 0 {
        lemma_kept_step(targets, max, 0);
        assert(targets.take(0) =~= targets);
    } else {
        let n = targets.len() - 1;
        let rest = targets.drop_last();
        let last = targets[n];
        lemma_put_kept(stored, id, rest, max, mime);
        lemma_kept_step(targets, max, n);
        assert(targets.take(n) =~= rest);
        assert(targets.take(n + 1) =~= targets);
        let before = put_all(stored, id, kept(rest, max));
        assert forall|i: int|
            0 <= i < targets.len() && (#[trigger] targets[i]).mime == mime
                && targets[i].bytes.len() <= max && (forall|j: int|
                i < j < targets.len() && (#[trigger] targets[j]).mime == mime
                    ==> targets[j].bytes.len() > max) implies now.contains_key((id, mime))
            && now[(id, mime)] == targets[i].bytes by {
            if i < n {
                assert(rest[i] == targets[i]);
                assert forall|j: int|
                    i < j < rest.len() && (#[trigger] rest[j]).mime == mime implies
                    rest[j].bytes.len() > max by {
                    assert(rest[j] == targets[j]);
                }
                assert(before.contains_key((id, mime)) && before[(id, mime)] == rest[i].bytes);
                assert(last.mime == mime ==> last.bytes.len() > max);
            }
        }
        if forall|i: int|
            0 <= i < targets.len() && (#[trigger] targets[i]).mime == mime
                ==> targets[i].bytes.len() > max {
            assert forall|i: int| 0 <= i < rest.len() && (#[trigger] rest[i]).mime == mime implies
                rest[i].bytes.len() > max by {
                assert(rest[i] == targets[i]);
            }
            assert(last.mime == mime ==> last.bytes.len() > max);
        }
    }
}

/// A new entry holds each target that is within the limit, byte for byte; of several with
/// the same mime the last.
pub proof fn new_entry_holds_its_targets(
    t: Tables,
    after: Tables,
    targets: Seq<Target>,
    origin: Option<Seq<char>>,
    max: u64,
    now: UnixMillis,
    id: EntryId,
    i: int,
)
    requires
        captured(t, after, targets, origin, max, now, id),
        !t.entries.contains_key(id),
        0 <= i < targets.len(),
        targets[i].bytes.len() <= max,
        forall|j: int|
            i < j < targets.len() && (#[trigger] targets[j]).mime == targets[i].mime
                ==> targets[j].bytes.len() > max,
    ensures
        after.targets.contains_key((id, targets[i].mime)),
        after.targets[(id, targets[i].mime)] == targets[i].bytes,
{
    lemma_put_kept(t.targets, id, targets, max, targets[i].mime);
}

/// A new entry holds no target that was not captured, and none above the limit.
pub proof fn new_entry_holds_nothing_else(
    t: Tables,
    after: Tables,
    targets: Seq<Target>,
    origin: Option<Seq<char>>,
    max: u64,
    now: UnixMillis,
    id: EntryId,
    mime: Seq<char>,
)
    requires
        sound(t),
        captured(t, after, targets, origin, max, now, id),
        !t.entries.contains_key(id),
        after.targets.contains_key((id, mime)),
    ensures
        exists|i: int|
            0 <= i < targets.len() && (#[trigger] targets[i]).mime == mime
                && targets[i].bytes.len() <= max,
{
    lemma_put_kept(t.targets, id, targets, max, mime);
}

/// The row of a new entry tells when and where it was captured, what kind and how large
/// it is; it counts one use, is not pinned and is in no group. Its id is 1 in an empty
/// history, and else the highest id plus one, as long as there is a higher one. Every other
/// entry stays as it was, with its targets.
pub proof fn new_entry_is_described(
    t: Tables,
    after: Tables,
    targets: Seq<Target>,
    origin: Option<Seq<char>>,
    max: u64,
    now: UnixMillis,
    id: EntryId,
)
    requires
        captured(t, after, targets, origin, max, now, id),
        !t.entries.contains_key(id),
    ensures
        after.entries.contains_key(id),
        after.entries[id].ts == now,
        after.entries[id].origin == origin,
        after.entries[id].use_count == 1,
        after.entries[id].pinned == 0,
        after.entries[id].group_id is None,
        after.entries[id].deleted == 0,
        after.entries[id].preview_kind == kind_name(inferred_kind(targets)),
        total_bytes(targets) <= i64::MAX ==> after.entries[id].size_bytes == total_bytes(targets),
        t.entries.dom() == Set::<i64>::empty() ==> id == 1,
        !t.entries.contains_key(i64::MAX) ==> forall|k: i64| #[trigger]
            t.entries.contains_key(k) ==> k < id,
        t.entries.dom() != Set::<i64>::empty() && !t.entries.contains_key(i64::MAX)
            ==> t.entries.contains_key((id - 1) as i64),
        forall|k: i64|
            k != id ==> #[trigger] after.entries.contains_key(k) == t.entries.contains_key(k)
                && after.entries[k] == t.entries[k],
        forall|k: i64, mime: Seq<char>|
            k != id ==> #[trigger] after.targets.contains_key((k, mime)) == t.targets.contains_key(
                (k, mime),
            ) && after.targets[(k, mime)] == t.targets[(k, mime)],
        after.groups == t.groups,
        after.meta == t.meta,
{
    assert forall|k: i64, mime: Seq<char>| k != id implies #[trigger] after.targets.contains_key(
        (k, mime),
    ) == t.targets.contains_key((k, mime)) && after.targets[(k, mime)] == t.targets[(k, mime)] by {
        lemma_put_all_keys(t.targets, id, kept(targets, max), (k, mime));
    }
    if total_bytes(targets) <= i64::MAX {
        stored_size_is_total(targets);
    }
    assert forall|k: i64|
        !t.entries.contains_key(i64::MAX) && #[trigger] t.entries.contains_key(k) implies k
        < id by {
        assert(t.entries.dom().contains(k));
        assert(t.entries.dom() != Set::<i64>::empty());
    }
}

// ---- repetitions ----

/// Whether `last` is the newest entry: every other one is older, or as old with a lower
/// id.
pub open spec fn comes_last(t: Tables, last: EntryId) -> bool {
    &&& t.entries.contains_key(last)
    &&& forall|k: EntryId| #[trigger]
        t.entries.contains_key(k) && k != last ==> t.entries[k].ts < t.entries[last].ts || (
        t.entries[k].ts == t.entries[last].ts && k < last)
}

/// Capturing what the newest entry holds, in whatever order, counts one more use of that
/// entry and changes nothing else: there is no new entry, and no field, target or indexed
/// text is touched.
pub proof fn same_capture_is_counted_once_more(
    t: Tables,
    after: Tables,
    targets: Seq<Target>,
    origin: Option<Seq<char>>,
    max: u64,
    now: UnixMillis,
    id: EntryId,
    last: EntryId,
)
    requires
        sound(t),
        captured(t, after, targets, origin, max, now, id),
        comes_last(t, last),
        t.entries[last].use_count < i64::MAX,
        forall|i: int, j: int|
            0 <= i < j < targets.len() ==> (#[trigger] targets[i]).mime != (
            #[trigger] targets[j]).mime,
        forall|i: int|
            0 <= i < targets.len() ==> t.targets.contains_key((last, (#[trigger] targets[i]).mime))
                && t.targets[(last, targets[i].mime)] == targets[i].bytes,
        forall|mime: Seq<char>| #[trigger]
            t.targets.contains_key((last, mime)) ==> exists|i: int|
                0 <= i < targets.len() && (#[trigger] targets[i]).mime == mime,
    ensures
        id == last,
        after.entries[last].use_count == t.entries[last].use_count + 1,
        after.entries.dom() == t.entries.dom(),
        forall|k: EntryId| k != last ==> #[trigger] after.entries[k] == t.entries[k],
        after.entries[last].ts == t.entries[last].ts,
        after.entries[last].pinned == t.entries[last].pinned,
        after.entries[last].group_id == t.entries[last].group_id,
        after.entries[last].origin == t.entries[last].origin,
        after.entries[last].preview_kind == t.entries[last].preview_kind,
        after.entries[last].size_bytes == t.entries[last].size_bytes,
        after.targets == t.targets,
        after.index == t.index,
{
    assert(live(t).contains(last));
    assert forall|other: i64| #[trigger] live(t).contains(other) implies other == last || newer(
        t,
        last,
        other,
    ) by {
        assert(t.entries.contains_key(other));
    }
    assert(is_latest(t, last));
    assert forall|mime: Seq<char>| #[trigger] t.targets.contains_key((last, mime)) implies has_mime(
        targets,
        mime,
    ) by {}
    assert(repeats(t, last, targets));
    assert(is_latest(t, id));
    assert(live(t).contains(id));
    assert(after.entries.dom() =~= t.entries.dom());
}

/// Capturing anything else than what the newest entry holds makes a new entry: where the
/// history is empty, where some captured target is not held as it is, where the newest
/// entry holds a target that was not captured, or where two captured targets have the
/// same mime.
pub proof fn other_capture_is_a_new_entry(
    t: Tables,
    after: Tables,
    targets: Seq<Target>,
    origin: Option<Seq<char>>,
    max: u64,
    now: UnixMillis,
    id: EntryId,
    last: EntryId,
    i: int,
    j: int,
    mime: Seq<char>,
)
    requires
        sound(t),
        captured(t, after, targets, origin, max, now, id),
        t.entries.dom() == Set::<i64>::empty() || (comes_last(t, last) && 0 <= i < targets.len()
            && !(t.targets.contains_key((last, targets[i].mime)) && t.targets[(
            last,
            targets[i].mime,
        )] == targets[i].bytes)) || (comes_last(t, last) && t.targets.contains_key((last, mime))
            && (forall|k: int| 0 <= k < targets.len() ==> (#[trigger] targets[k]).mime != mime))
            || (0 <= i < j < targets.len() && targets[i].mime == targets[j].mime),
    ensures
        !t.entries.contains_key(id),
        after.entries.contains_key(id),
        after.entries.dom().len() == t.entries.dom().len() + 1,
{
    assert forall|k: EntryId| !repeats(t, k, targets) by {
        if repeats(t, k, targets) {
            assert(live(t).contains(k));
            if comes_last(t, last) && k != last {
                assert(live(t).contains(last));
            }
            assert(t.entries.dom().contains(k));
            if comes_last(t, last) && t.targets.contains_key((last, mime)) {
                assert(k == last);
                assert(has_mime(targets, mime));
            }
        }
    }
    assert(after.entries.dom() =~= t.entries.dom().insert(id));
}

// ---- the indexed text ----

proof fn lemma_index_text_append(a: Seq<Target>, b: Seq<Target>)
    ensures
        index_text(a + b) == index_text(a) + index_text(b),
    decreases b.len(),
{
    if b.len() == 0 {
        assert(a + b =~= a);
        assert(index_text(a) + index_text(b) =~= index_text(a));
    } else {
        lemma_index_text_append(a, b.drop_last());
        assert((a + b).drop_last() =~= a + b.drop_last());
        assert((a + b).last() == b.last());
        assert(index_text(a + b) =~= index_text(a) + index_text(b));
    }
}

/// The indexed text is made target by target: plain text, of either of its two types, adds
/// its text and a line end, HTML its text without tags and a line end, and any other target
/// nothing. What is not valid UTF-8 counts as an empty text.
pub proof fn text_is_indexed_target_by_target(a: Seq<Target>, t: Target, b: Seq<Target>)
    ensures
        index_text(Seq::empty()) == Seq::<char>::empty(),
        index_text(a + b) == index_text(a) + index_text(b),
        same_folded(t.mime, "text/plain"@) || same_folded(t.mime, "text/plain;charset=utf-8"@)
            ==> index_text(seq![t]) == if valid_utf8(t.bytes) {
            decode_utf8(t.bytes) + seq!['\n']
        } else {
            seq!['\n']
        },
        same_folded(t.mime, "text/html"@) ==> index_text(seq![t]) == if valid_utf8(t.bytes) {
            stripped(decode_utf8(t.bytes)) + seq!['\n']
        } else {
            seq!['\n']
        },
        !same_folded(t.mime, "text/plain"@) && !same_folded(t.mime, "text/plain;charset=utf-8"@)
            && !same_folded(t.mime, "text/html"@) ==> index_text(seq![t]).len() == 0,
{
    lemma_index_text_append(a, b);
    let one = seq![t];
    assert(one.drop_last() =~= Seq::empty());
    assert(one.last() == t);
    assert(index_text(one.drop_last()) =~= Seq::empty());
    assert(index_text(one) =~= index_line(t));
    let text = text_or_empty(t.bytes);
    assert(text.push('\n') =~= text + seq!['\n']);
    assert(stripped(text).push('\n') =~= stripped(text) + seq!['\n']);
    assert(Seq::<char>::empty() + seq!['\n'] =~= seq!['\n']);
    if same_folded(t.mime, "text/html"@) {
        reveal_strlit("text/html");
        reveal_strlit("text/plain");
        reveal_strlit("text/plain;charset=utf-8");
        assert(folded(t.mime).len() == t.mime.len());
        assert(folded("text/html"@).len() == 9);
        assert(folded("text/plain"@).len() == 10);
        assert(folded("text/plain;charset=utf-8"@).len() == 24);
        if !valid_utf8(t.bytes) {
            assert(outside_tags(text) =~= Seq::empty());
            assert(words(outside_tags(text)) =~= Seq::empty());
            assert(stripped(text) =~= Seq::empty());
        }
    }
}

proof fn lemma_indexed_part(targets: Seq<Target>, max: u64, i: int)
    requires
        0 <= i < targets.len(),
        targets[i].bytes.len() <= max,
    ensures
        index_text(kept(targets, max)) == index_text(kept(targets.take(i), max)) + index_text(
            seq![targets[i]],
        ) + index_text(kept(targets.skip(i + 1), max)),
{
    let a = targets.take(i);
    let one = seq![targets[i]];
    let b = targets.skip(i + 1);
    assert(targets =~= a + (one + b));
    targets_are_kept_one_by_one(a, targets[i], one + b, max);
    targets_are_kept_one_by_one(one, targets[i], b, max);
    lemma_index_text_append(kept(a, max), kept(one + b, max));
    lemma_index_text_append(one, kept(b, max));
    assert(index_text(kept(targets, max)) =~= index_text(kept(a, max)) + index_text(one)
        + index_text(kept(b, max)));
}

/// Plain text that becomes a new entry can be searched: the index holds a row of the new
/// entry in which the text stands whole, whichever of the two plain-text types it has, in
/// any ASCII case.
pub proof fn captured_text_is_indexed(
    t: Tables,
    after: Tables,
    targets: Seq<Target>,
    origin: Option<Seq<char>>,
    max: u64,
    now: UnixMillis,
    id: EntryId,
    i: int,
    k: int,
)
    requires
        captured(t, after, targets, origin, max, now, id),
        !t.entries.contains_key(id),
        0 <= i < targets.len(),
        targets[i].bytes.len() <= max,
        same_folded(targets[i].mime, "text/plain"@) || same_folded(
            targets[i].mime,
            "text/plain;charset=utf-8"@,
        ),
        valid_utf8(targets[i].bytes),
        0 <= k < decode_utf8(targets[i].bytes).len(),
        !whitespace(decode_utf8(targets[i].bytes)[k]),
    ensures
        exists|a: Seq<char>, b: Seq<char>|
            after.index.count((id, #[trigger] (a + decode_utf8(targets[i].bytes) + b))) > 0,
{
    let s = decode_utf8(targets[i].bytes);
    lemma_indexed_part(targets, max, i);
    text_is_indexed_target_by_target(targets, targets[i], targets);
    let a = index_text(kept(targets.take(i), max));
    let b = seq!['\n'] + index_text(kept(targets.skip(i + 1), max));
    let text = index_text(kept(targets, max));
    assert(text =~= a + s + b);
    assert(text[a.len() + k] == s[k]);
    assert(!blank(text));
    assert(after.index.count((id, a + s + b)) > 0);
}

/// HTML that becomes a new entry can be searched by its text: the index holds a row of the
/// new entry in which the text without its tags stands whole.
pub proof fn captured_html_is_indexed(
    t: Tables,
    after: Tables,
    targets: Seq<Target>,
    origin: Option<Seq<char>>,
    max: u64,
    now: UnixMillis,
    id: EntryId,
    i: int,
    k: int,
)
    requires
        captured(t, after, targets, origin, max, now, id),
        !t.entries.contains_key(id),
        0 <= i < targets.len(),
        targets[i].bytes.len() <= max,
        same_folded(targets[i].mime, "text/html"@),
        valid_utf8(targets[i].bytes),
        0 <= k < stripped(decode_utf8(targets[i].bytes)).len(),
        !whitespace(stripped(decode_utf8(targets[i].bytes))[k]),
    ensures
        exists|a: Seq<char>, b: Seq<char>|
            after.index.count((id, #[trigger] (a + stripped(decode_utf8(targets[i].bytes)) + b)))
                > 0,
{
    let s = stripped(decode_utf8(targets[i].bytes));
    lemma_indexed_part(targets, max, i);
    text_is_indexed_target_by_target(targets, targets[i], targets);
    let a = index_text(kept(targets.take(i), max));
    let b = seq!['\n'] + index_text(kept(targets.skip(i + 1), max));
    let text = index_text(kept(targets, max));
    assert(text =~= a + s + b);
    assert(text[a.len() + k] == s[k]);
    assert(!blank(text));
    assert(after.index.count((id, a + s + b)) > 0);
}

/// A new entry adds one row to the index at most, with the text of the targets that are
/// kept, and none where that text is blank. The rows that were there stay.
pub proof fn new_entry_is_indexed_once(
    t: Tables,
    after: Tables,
    targets: Seq<Target>,
    origin: Option<Seq<char>>,
    max: u64,
    now: UnixMillis,
    id: EntryId,
    row: (i64, Seq<char>),
)
    requires
        captured(t, after, targets, origin, max, now, id),
        !t.entries.contains_key(id),
    ensures
        row == (id, index_text(kept(targets, max))) && (exists|k: int|
            0 <= k < row.1.len() && !whitespace(#[trigger] row.1[k])) ==> after.index.count(row)
            == t.index.count(row) + 1,
        row != (id, index_text(kept(targets, max))) || (forall|k: int|
            0 <= k < row.1.len() ==> whitespace(#[trigger] row.1[k])) ==> after.index.count(row)
            == t.index.count(row),
{
    let text = index_text(kept(targets, max));
    if row == (id, text) {
        assert(row.1 == text);
        if forall|k: int| 0 <= k < row.1.len() ==> whitespace(#[trigger] row.1[k]) {
            assert(blank(text));
        }
    } else if !blank(text) {
        assert(t.index.insert((id, text)).count(row) == t.index.count(row));
    }
}

/// A new entry without a text in it is not indexed: where no target is plain text or HTML,
/// the index stays as it was.
pub proof fn capture_without_text_is_not_indexed(
    t: Tables,
    after: Tables,
    targets: Seq<Target>,
    origin: Option<Seq<char>>,
    max: u64,
    now: UnixMillis,
    id: EntryId,
)
    requires
        captured(t, after, targets, origin, max, now, id),
        forall|i: int|
            0 <= i < targets.len() ==> !same_folded((#[trigger] targets[i]).mime, "text/plain"@)
                && !same_folded(targets[i].mime, "text/plain;charset=utf-8"@) && !same_folded(
                targets[i].mime,
                "text/html"@,
            ),
    ensures
        after.index == t.index,
{
    lemma_no_index_text(targets, max);
}

proof fn lemma_no_index_text(targets: Seq<Target>, max: u64)
    requires
        forall|i: int|
            0 <= i < targets.len() ==> !same_folded((#[trigger] targets[i]).mime, "text/plain"@)
                && !same_folded(targets[i].mime, "text/plain;charset=utf-8"@) && !same_folded(
                targets[i].mime,
                "text/html"@,
            ),
    ensures
        index_text(kept(targets, max)).len() == 0,
    decreases targets.len(),
{
    if targets.len() == 0 {
        targets_are_kept_one_by_one(targets, arbitrary(), targets, max);
        assert(targets =~= Seq::empty());
    } else {
        let n = targets.len() - 1;
        let rest = targets.drop_last();
        let last = targets[n];
        assert forall|i: int| 0 <= i < rest.len() implies !same_folded(
            (#[trigger] rest[i]).mime,
            "text/plain"@,
        ) && !same_folded(rest[i].mime, "text/plain;charset=utf-8"@) && !same_folded(
            rest[i].mime,
            "text/html"@,
        ) by {
            assert(rest[i] == targets[i]);
        }
        lemma_no_index_text(rest, max);
        lemma_kept_step(targets, max, n);
        assert(targets.take(n) =~= rest);
        assert(targets.take(n + 1) =~= targets);
    }
}

} // verus!
