//! Laws of listing, searching and reading: what a row or an entry shows, told by the rows
//! of the tables alone.

use vstd::prelude::*;
use vstd::utf8::*;

use crate::content::{
    has_token_char, pattern_begins_quoted, pattern_is_empty_without_tokens, pattern_of,
    preview_is_the_first_160_characters, token_char,
};
use crate::history::{
    answers_search, are_hits_of, clamped, from_offset, is_entry, is_page, summarizes, summary_of,
};
use crate::laws::{page_is_unique, page_shows_entries, search_shows_entries};
use crate::sql::{fts_match, indexed, is_listing, live, newer, page, preview_mime, Tables};
use crate::text::{blank, whitespace};
use crate::types::{named_kind, EntryId, FullEntry, Summary, Target};

verus! {

broadcast use vstd::string::group_string_axioms;

// ---- what a row shows ----

/// Whether `shown` is the preview of a text that `bytes` encode: the text, where it has
/// at most 160 characters, and else its first 160 and an ellipsis; and nothing, where they
/// encode none.
pub open spec fn is_preview_of(bytes: Seq<u8>, shown: Option<Seq<char>>) -> bool {
    if !valid_utf8(bytes) {
        shown is None
    } else if decode_utf8(bytes).len() <= 160 {
        shown == Some(decode_utf8(bytes))
    } else {
        shown == Some(decode_utf8(bytes).take(160) + seq!['\u{2026}'])
    }
}

/// Whether the row `s` shows the entry of its id as it stands in the tables: its time, pin,
/// group, origin, number of uses, kind and size, and the beginning of its plain text, which
/// is that of its target `text/plain`, or else of its target `text/plain;charset=utf-8`.
pub open spec fn shows_its_entry(t: Tables, s: Summary) -> bool {
    let row = t.entries[s.id];
    &&& t.entries.contains_key(s.id)
    &&& row.deleted == 0
    &&& s.ts == row.ts
    &&& s.pinned == (row.pinned != 0)
    &&& s.group == row.group_id
    &&& s.origin == row.origin
    &&& s.use_count == row.use_count as u32
    &&& s.preview_kind == named_kind(row.preview_kind)
    &&& s.size_bytes == row.size_bytes as u64
    &&& if t.targets.contains_key((s.id, "text/plain"@)) {
        is_preview_of(t.targets[(s.id, "text/plain"@)], s.preview_text)
    } else if t.targets.contains_key((s.id, "text/plain;charset=utf-8"@)) {
        is_preview_of(t.targets[(s.id, "text/plain;charset=utf-8"@)], s.preview_text)
    } else {
        s.preview_text is None
    }
}

proof fn lemma_summary_shows(t: Tables, id: EntryId)
    requires
        live(t).contains(id),
    ensures
        shows_its_entry(t, summary_of(t, id)),
{
    if let Some(mime) = preview_mime(t, id) {
        preview_is_the_first_160_characters(decode_utf8(t.targets[(id, mime)]));
    }
}

/// Each row of a page shows its entry as it stands in the tables.
pub proof fn listed_row_shows_its_entry(
    t: Tables,
    offset: i64,
    limit: i64,
    group: Option<i64>,
    list: Seq<Summary>,
    i: int,
)
    requires
        is_page(t, offset, limit, group, list),
        0 <= i < list.len(),
    ensures
        shows_its_entry(t, list[i]),
        group is Some ==> list[i].group == group,
{
    page_shows_entries(t, offset, limit, group, list, i);
    let all = choose|all: Seq<EntryId>| #[trigger]
        is_listing(t, group, all) && summarizes(
            t,
            page(all, from_offset(offset), clamped(limit)),
            list,
        );
    let part = page(all, from_offset(offset), clamped(limit));
    assert(list[i] == summary_of(t, part[i]));
    lemma_summary_shows(t, part[i]);
}

/// Each row that a search answers shows its entry as it stands in the tables.
pub proof fn found_row_shows_its_entry(
    t: Tables,
    query: Seq<char>,
    limit: i64,
    list: Seq<Summary>,
    i: int,
)
    requires
        answers_search(t, query, limit, list),
        0 <= i < list.len(),
    ensures
        shows_its_entry(t, list[i]),
{
    search_shows_entries(t, query, limit, list, i);
    if blank(pattern_of(query)) {
        listed_row_shows_its_entry(t, 0, limit, None, list, i);
    } else {
        let all = choose|all: Seq<EntryId>| #[trigger]
            are_hits_of(t, pattern_of(query), all) && summarizes(
                t,
                page(all, 0, clamped(limit)),
                list,
            );
        let part = page(all, 0, clamped(limit));
        assert(list[i] == summary_of(t, part[i]));
        lemma_summary_shows(t, part[i]);
    }
}

/// An entry that is read is the one of its id as it stands in the tables, with each target
/// that is stored for it, once, and no other.
pub proof fn read_entry_is_as_stored(t: Tables, id: EntryId, e: FullEntry, mime: Seq<char>)
    requires
        is_entry(t, id, e),
    ensures
        e.id == id,
        e.ts == t.entries[id].ts,
        e.pinned == (t.entries[id].pinned != 0),
        e.group == t.entries[id].group_id,
        e.origin == t.entries[id].origin,
        e.use_count == t.entries[id].use_count as u32,
        e.preview_kind == named_kind(t.entries[id].preview_kind),
        e.size_bytes == t.entries[id].size_bytes as u64,
        t.targets.contains_key((id, mime)) ==> e.targets.contains(
            Target { mime, bytes: t.targets[(id, mime)] },
        ),
        forall|i: int|
            0 <= i < e.targets.len() ==> t.targets.contains_key(
                (id, (#[trigger] e.targets[i]).mime),
            ) && t.targets[(id, e.targets[i].mime)] == e.targets[i].bytes,
        forall|i: int, j: int|
            0 <= i < j < e.targets.len() ==> (#[trigger] e.targets[i]).mime != (
            #[trigger] e.targets[j]).mime,
{
    if t.targets.contains_key((id, mime)) {
        let x = Target { mime, bytes: t.targets[(id, mime)] };
        assert(e.targets.contains(x));
    }
    assert forall|i: int| 0 <= i < e.targets.len() implies t.targets.contains_key(
        (id, (#[trigger] e.targets[i]).mime),
    ) && t.targets[(id, e.targets[i].mime)] == e.targets[i].bytes by {
        assert(e.targets.contains(e.targets[i]));
    }
    assert forall|i: int, j: int| 0 <= i < j < e.targets.len() implies (
    #[trigger] e.targets[i]).mime != (#[trigger] e.targets[j]).mime by {
        if e.targets[i].mime == e.targets[j].mime {
            assert(e.targets[i] == e.targets[j]);
        }
    }
}

/// A row of a page agrees with the entry that is read for its id.
pub proof fn listed_row_agrees_with_its_entry(
    t: Tables,
    offset: i64,
    limit: i64,
    group: Option<i64>,
    list: Seq<Summary>,
    i: int,
    e: FullEntry,
)
    requires
        is_page(t, offset, limit, group, list),
        0 <= i < list.len(),
        is_entry(t, list[i].id, e),
    ensures
        e.id == list[i].id,
        e.ts == list[i].ts,
        e.pinned == list[i].pinned,
        e.group == list[i].group,
        e.origin == list[i].origin,
        e.use_count == list[i].use_count,
        e.preview_kind == list[i].preview_kind,
        e.size_bytes == list[i].size_bytes,
{
    listed_row_shows_its_entry(t, offset, limit, group, list, i);
}

/// A row that a search answers agrees with the entry that is read for its id.
pub proof fn found_row_agrees_with_its_entry(
    t: Tables,
    query: Seq<char>,
    limit: i64,
    list: Seq<Summary>,
    i: int,
    e: FullEntry,
)
    requires
        answers_search(t, query, limit, list),
        0 <= i < list.len(),
        is_entry(t, list[i].id, e),
    ensures
        e.id == list[i].id,
        e.ts == list[i].ts,
        e.pinned == list[i].pinned,
        e.group == list[i].group,
        e.origin == list[i].origin,
        e.use_count == list[i].use_count,
        e.preview_kind == list[i].preview_kind,
        e.size_bytes == list[i].size_bytes,
{
    found_row_shows_its_entry(t, query, limit, list, i);
}

// ---- which rows a page has ----

/// Whether the entry `k` belongs to the history, or to the group that is asked for.
pub open spec fn is_within(t: Tables, group: Option<i64>, k: i64) -> bool {
    t.entries.contains_key(k) && t.entries[k].deleted == 0 && (group is Some
        ==> t.entries[k].group_id == group)
}

/// The entries of the history, or of one group of it, that come before `id`: those with a
/// later time, and those with the same time and a higher id.
pub open spec fn coming_before(t: Tables, group: Option<i64>, id: i64) -> Set<i64> {
    Set::new(
        |k: i64|
            is_within(t, group, k) && (t.entries[k].ts > t.entries[id].ts || (t.entries[k].ts
                == t.entries[id].ts && k > id)),
    )
}

proof fn lemma_rank(t: Tables, group: Option<i64>, all: Seq<EntryId>, p: int)
    requires
        is_listing(t, group, all),
        0 <= p < all.len(),
    ensures
        coming_before(t, group, all[p]).finite(),
        coming_before(t, group, all[p]).len() == p,
{
    let first = all.take(p);
    let before = coming_before(t, group, all[p]);
    assert forall|k: i64| #[trigger] before.contains(k) <==> first.to_set().contains(k) by {
        if before.contains(k) {
            assert(all.contains(k));
            let m = all.index_of(k);
            if m > p {
                assert(newer(t, all[p], all[m]));
            }
            assert(first[m] == k);
            assert(first.contains(k));
        }
        if first.to_set().contains(k) {
            assert(first.contains(k));
            let m = first.index_of(k);
            assert(all[m] == k);
            assert(all.contains(k));
            assert(newer(t, all[m], all[p]));
        }
    }
    assert(before =~= first.to_set());
    assert(first.no_duplicates());
    first.unique_seq_to_set();
    vstd::seq_lib::seq_to_set_is_finite(first);
}

/// A row stands in a page at the place that its entry has in the history, or in the group:
/// as many entries come before it as the offset and the rows above it are together.
pub proof fn listed_row_is_at_its_place(
    t: Tables,
    offset: i64,
    limit: i64,
    group: Option<i64>,
    list: Seq<Summary>,
    i: int,
)
    requires
        is_page(t, offset, limit, group, list),
        offset >= 0,
        0 <= i < list.len(),
    ensures
        is_within(t, group, list[i].id),
        coming_before(t, group, list[i].id).finite(),
        coming_before(t, group, list[i].id).len() == offset + i,
{
    let all = choose|all: Seq<EntryId>| #[trigger]
        is_listing(t, group, all) && summarizes(
            t,
            page(all, from_offset(offset), clamped(limit)),
            list,
        );
    let part = page(all, from_offset(offset), clamped(limit));
    assert(list[i] == summary_of(t, part[i]));
    assert(part[i] == all[offset + i]);
    assert(all.contains(all[offset + i]));
    lemma_rank(t, group, all, offset + i);
}

/// A page of up to 500 rows has as many as were asked for, as far as there are so many
/// entries from the offset on.
pub proof fn page_is_as_long_as_asked(
    t: Tables,
    offset: i64,
    limit: i64,
    group: Option<i64>,
    list: Seq<Summary>,
)
    requires
        is_page(t, offset, limit, group, list),
        offset >= 0,
        1 <= limit <= 500,
    ensures
        ({
            let n = Set::new(|k: i64| is_within(t, group, k)).len();
            if n <= offset {
                list.len() == 0
            } else if n - offset <= limit {
                list.len() == n - offset
            } else {
                list.len() == limit
            }
        }),
{
    let all = choose|all: Seq<EntryId>| #[trigger]
        is_listing(t, group, all) && summarizes(
            t,
            page(all, from_offset(offset), clamped(limit)),
            list,
        );
    let whole = Set::new(|k: i64| is_within(t, group, k));
    assert forall|k: i64| #[trigger] whole.contains(k) <==> all.to_set().contains(k) by {
        assert(all.contains(k) <==> live(t).contains(k) && (group is Some ==> t.entries[k].group_id
            == group));
    }
    assert(whole =~= all.to_set());
    all.unique_seq_to_set();
}

/// What is out of range is brought into it: a negative offset counts as 0, fewer rows than
/// one as one, and more than 500 as 500.
pub proof fn page_requests_are_brought_into_range(
    t: Tables,
    offset: i64,
    limit: i64,
    group: Option<i64>,
    query: Seq<char>,
    list: Seq<Summary>,
)
    ensures
        offset < 0 ==> is_page(t, offset, limit, group, list) == is_page(t, 0, limit, group, list),
        limit < 1 ==> is_page(t, offset, limit, group, list) == is_page(t, offset, 1, group, list),
        limit > 500 ==> is_page(t, offset, limit, group, list) == is_page(
            t,
            offset,
            500,
            group,
            list,
        ),
        limit < 1 ==> answers_search(t, query, limit, list) == answers_search(t, query, 1, list),
        limit > 500 ==> answers_search(t, query, limit, list) == answers_search(
            t,
            query,
            500,
            list,
        ),
{
}

/// Pages follow each other without a gap: a page and the one behind it are together the
/// page that is as long as both.
pub proof fn pages_follow_each_other(
    t: Tables,
    offset: i64,
    m: i64,
    n: i64,
    group: Option<i64>,
    a: Seq<Summary>,
    b: Seq<Summary>,
    c: Seq<Summary>,
)
    requires
        0 <= offset,
        offset + m <= i64::MAX,
        1 <= m,
        1 <= n,
        m + n <= 500,
        is_page(t, offset, m, group, a),
        is_page(t, (offset + m) as i64, n, group, b),
        is_page(t, offset, (m + n) as i64, group, c),
    ensures
        c == a + b,
{
    let all = choose|x: Seq<EntryId>| #[trigger]
        is_listing(t, group, x) && summarizes(t, page(x, from_offset(offset), clamped(m)), a);
    let first = page(all, offset as int, m as int);
    let second = page(all, offset + m, n as int);
    let both = page(all, offset as int, m + n);
    assert(both =~= first + second);
    let x = Seq::new(second.len(), |i: int| summary_of(t, second[i]));
    assert(summarizes(t, page(all, from_offset((offset + m) as i64), clamped(n)), x));
    page_is_unique(t, (offset + m) as i64, n, group, b, x);
    let y = Seq::new(both.len(), |i: int| summary_of(t, both[i]));
    assert(summarizes(t, page(all, from_offset(offset), clamped((m + n) as i64)), y));
    page_is_unique(t, offset, (m + n) as i64, group, c, y);
    assert(c =~= a + b) by {
        assert forall|i: int| 0 <= i < c.len() implies c[i] == (a + b)[i] by {
            assert(c[i] == summary_of(t, both[i]));
            if i < a.len() {
                assert(a[i] == summary_of(t, first[i]));
            } else {
                assert(b[i - a.len()] == summary_of(t, second[i - a.len()]));
            }
        }
    }
}

// ---- which rows a search has ----

/// Whether the entry `id` is there, with a text in the index that `pattern` finds.
pub open spec fn is_hit(t: Tables, id: i64, pattern: Seq<char>) -> bool {
    &&& t.entries.contains_key(id)
    &&& t.entries[id].deleted == 0
    &&& exists|content: Seq<char>| #[trigger]
        t.index.count((id, content)) > 0 && fts_match(content, pattern)
}

proof fn lemma_hits(t: Tables, pattern: Seq<char>, all: Seq<EntryId>)
    requires
        are_hits_of(t, pattern, all),
    ensures
        forall|id: EntryId| #[trigger] all.contains(id) <==> is_hit(t, id, pattern),
        all.no_duplicates(),
{
    let matching = |content: Seq<char>| fts_match(content, pattern);
    assert forall|id: EntryId| #[trigger] all.contains(id) <==> is_hit(t, id, pattern) by {
        if is_hit(t, id, pattern) {
            let content = choose|content: Seq<char>| #[trigger]
                t.index.count((id, content)) > 0 && fts_match(content, pattern);
            assert(matching(content));
            assert(indexed(t, id, matching));
            assert(live(t).contains(id));
        }
        if all.contains(id) {
            assert(indexed(t, id, matching));
            let content = choose|content: Seq<char>| #[trigger]
                t.index.count((id, content)) > 0 && matching(content);
            assert(fts_match(content, pattern));
        }
    }
}

/// A query with a letter or a digit in it shows hits, each once, and nothing else: as many
/// as were asked for, up to 500, or all where there are fewer.
pub proof fn search_shows_the_hits(
    t: Tables,
    query: Seq<char>,
    limit: i64,
    list: Seq<Summary>,
    k: int,
)
    requires
        0 <= k < query.len(),
        ('0' <= query[k] && query[k] <= '9') || ('A' <= query[k] && query[k] <= 'Z') || ('a'
            <= query[k] && query[k] <= 'z'),
        answers_search(t, query, limit, list),
        1 <= limit <= 500,
    ensures
        forall|i: int|
            0 <= i < list.len() ==> is_hit(t, (#[trigger] list[i]).id, pattern_of(query)),
        forall|i: int, j: int|
            0 <= i < j < list.len() ==> (#[trigger] list[i]).id != (#[trigger] list[j]).id,
        list.len() <= limit,
        list.len() < limit ==> forall|id: i64| #[trigger]
            is_hit(t, id, pattern_of(query)) ==> exists|i: int|
                0 <= i < list.len() && (#[trigger] list[i]).id == id,
        Set::new(|id: i64| is_hit(t, id, pattern_of(query))).finite(),
        Set::new(|id: i64| is_hit(t, id, pattern_of(query))).len() >= limit ==> list.len() == limit,
        Set::new(|id: i64| is_hit(t, id, pattern_of(query))).len() < limit ==> list.len()
            == Set::new(|id: i64| is_hit(t, id, pattern_of(query))).len(),
{
    let pattern = pattern_of(query);
    assert(token_char(query[k]) && !whitespace(query[k]));
    assert(has_token_char(query));
    pattern_is_empty_without_tokens(query);
    pattern_begins_quoted(query);
    let all = choose|all: Seq<EntryId>| #[trigger]
        are_hits_of(t, pattern, all) && summarizes(t, page(all, 0, clamped(limit)), list);
    lemma_hits(t, pattern, all);
    let part = page(all, 0, clamped(limit));
    assert forall|i: int| 0 <= i < list.len() implies is_hit(
        t,
        (#[trigger] list[i]).id,
        pattern,
    ) by {
        assert(list[i] == summary_of(t, part[i]));
        assert(all.contains(all[i]));
    }
    assert forall|i: int, j: int| 0 <= i < j < list.len() implies (#[trigger] list[i]).id != (
    #[trigger] list[j]).id by {
        assert(list[i] == summary_of(t, part[i]));
        assert(list[j] == summary_of(t, part[j]));
        assert(part[i] == all[i] && part[j] == all[j]);
    }
    if list.len() < limit {
        assert(part =~= all);
        assert forall|id: i64| #[trigger] is_hit(t, id, pattern) implies exists|i: int|
            0 <= i < list.len() && (#[trigger] list[i]).id == id by {
            assert(all.contains(id));
            let i = all.index_of(id);
            assert(list[i] == summary_of(t, part[i]));
        }
    }
    let hits = Set::new(|id: i64| is_hit(t, id, pattern));
    assert forall|id: i64| #[trigger] hits.contains(id) <==> all.to_set().contains(id) by {
        assert(all.contains(id) <==> is_hit(t, id, pattern));
    }
    assert(hits =~= all.to_set());
    all.unique_seq_to_set();
    vstd::seq_lib::seq_to_set_is_finite(all);
}

/// A query of nothing but punctuation and white space in ASCII searches for nothing, and
/// shows the first page of the history.
pub proof fn punctuation_searches_for_nothing(
    t: Tables,
    query: Seq<char>,
    limit: i64,
    list: Seq<Summary>,
)
    requires
        forall|i: int|
            0 <= i < query.len() ==> {
                let c = #[trigger] query[i];
                c <= '\u{7f}' && !('0' <= c && c <= '9') && !('A' <= c && c <= 'Z') && !('a' <= c
                    && c <= 'z') && c != '_' && c != '-'
            },
        answers_search(t, query, limit, list),
    ensures
        is_page(t, 0, limit, None, list),
{
    assert forall|i: int| 0 <= i < query.len() implies !token_char(#[trigger] query[i]) by {}
    assert(!has_token_char(query));
    pattern_is_empty_without_tokens(query);
}

} // verus!
