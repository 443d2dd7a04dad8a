//! What the history store makes of the content of targets: the text that it
//! indexes, and the patterns that it searches the index with.

use vstd::prelude::*;
use vstd::string::*;
use vstd::utf8::*;

use crate::text::{
    alphanumeric, are_words, ascii_alphanumeric, blank, chars_of, decode, holds_only,
    is_alphanumeric, is_word, join_spaced, joining_puts_one_space_between, lemma_spaced,
    lemma_words, lemma_words_of_spaced, shortened, single_spaced, spaced, split_words, truncate,
    whitespace, words, words_are_split_at_whitespace,
};
use crate::types::{find_plain_text, plain_text, values, MimeBlob};

verus! {

broadcast use vstd::string::group_string_axioms;

/// How many characters of a text a summary shows.
pub const PREVIEW_CHARS: usize = 160;

/// Whether a tag is open after `html`: its last angle bracket opens one.
pub open spec fn in_tag(html: Seq<char>) -> bool
    decreases html.len(),
{
    if html.len() == 0 {
        false
    } else if html.last() == '<' {
        true
    } else if html.last() == '>' {
        false
    } else {
        in_tag(html.drop_last())
    }
}

/// The characters of `html` that stand outside its tags.
pub open spec fn outside_tags(html: Seq<char>) -> Seq<char>
    decreases html.len(),
{
    if html.len() == 0 {
        Seq::empty()
    } else {
        let before = outside_tags(html.drop_last());
        let c = html.last();
        if c == '<' || c == '>' || in_tag(html.drop_last()) {
            before
        } else {
            before.push(c)
        }
    }
}

/// The words of `html` outside its tags, with one space between each two.
pub open spec fn stripped(html: Seq<char>) -> Seq<char> {
    spaced(words(outside_tags(html)))
}

/// Strip the tags from `html` for the index. Good enough for search relevance;
/// not a security boundary.
pub fn strip_html(html: &str) -> (r: String)
    ensures
        r@ == stripped(html@),
{
    let x = chars_of(html);
    let mut out: Vec<char> = Vec::new();
    let mut open = false;
    let mut i: usize = 0;
    while i < x.len()
        invariant
            i <= x.len(),
            x@ == html@,
            open == in_tag(x@.take(i as int)),
            out@ == outside_tags(x@.take(i as int)),
        decreases x.len() - i,
    {
        let c = x[i];
        assert(x@.take(i + 1).drop_last() == x@.take(i as int));
        assert(x@.take(i + 1).last() == c);
        if c == '<' {
            open = true;
        } else if c == '>' {
            open = false;
        } else if !open {
            out.push(c);
        }
        i += 1;
    }
    assert(x@.take(x@.len() as int) == x@);
    let parts = split_words(&out);
    join_spaced(&parts)
}

/// Whether `c` is no angle bracket.
pub open spec fn no_bracket(c: char) -> bool {
    c != '<' && c != '>'
}

proof fn lemma_outside_tags(html: Seq<char>)
    ensures
        holds_only(outside_tags(html), |c: char| no_bracket(c)),
        holds_only(html, |c: char| no_bracket(c)) ==> outside_tags(html) == html && !in_tag(html),
    decreases html.len(),
{
    if html.len() > 0 {
        let rest = html.drop_last();
        let c = html.last();
        lemma_outside_tags(rest);
        let out = outside_tags(html);
        let before = outside_tags(rest);
        assert forall|i: int| 0 <= i < out.len() implies no_bracket(#[trigger] out[i]) by {
            if i < before.len() {
                assert(out[i] == before[i]);
                assert(no_bracket(before[i]));
            }
        }
        if holds_only(html, |c: char| no_bracket(c)) {
            assert(no_bracket(html[html.len() - 1]));
            assert forall|i: int| 0 <= i < rest.len() implies no_bracket(#[trigger] rest[i]) by {
                assert(rest[i] == html[i]);
                assert(no_bracket(html[i]));
            }
            assert(rest.push(c) =~= html);
        }
    }
}

proof fn lemma_open_tag(before: Seq<char>, after: Seq<char>)
    requires
        forall|i: int| 0 <= i < after.len() ==> #[trigger] after[i] != '>',
    ensures
        in_tag(before.push('<') + after),
        outside_tags(before.push('<') + after) == outside_tags(before),
    decreases after.len(),
{
    let html = before.push('<') + after;
    if after.len() == 0 {
        assert(html =~= before.push('<'));
        assert(html.drop_last() =~= before);
    } else {
        let rest = after.drop_last();
        assert forall|i: int| 0 <= i < rest.len() implies #[trigger] rest[i] != '>' by {
            assert(rest[i] == after[i]);
        }
        lemma_open_tag(before, rest);
        assert(html.drop_last() =~= before.push('<') + rest);
        assert(html.last() == after[after.len() - 1]);
    }
}

/// What is left of `html` without its tags has no angle bracket and no white space
/// but single spaces between words, and nothing is left to strip from it. Text
/// without angle brackets only has its white space made single spaces.
pub proof fn stripped_is_clean(html: Seq<char>)
    ensures
        forall|i: int| 0 <= i < stripped(html).len() ==> no_bracket(#[trigger] stripped(html)[i]),
        single_spaced(stripped(html)),
        stripped(stripped(html)) == stripped(html),
        (forall|i: int| 0 <= i < html.len() ==> no_bracket(#[trigger] html[i])) ==> stripped(html)
            == spaced(words(html)),
{
    let kind = |c: char| no_bracket(c);
    let text = outside_tags(html);
    lemma_outside_tags(html);
    lemma_words(text, kind);
    lemma_spaced(words(text), kind);
    lemma_words_of_spaced(words(text));
    let r = stripped(html);
    assert forall|i: int| 0 <= i < r.len() implies no_bracket(#[trigger] r[i]) by {
        assert(kind(r[i]));
    }
    lemma_outside_tags(r);
    if forall|i: int| 0 <= i < html.len() ==> no_bracket(#[trigger] html[i]) {
        assert(holds_only(html, kind));
    }
}

/// Text after a tag that is never closed is dropped.
pub proof fn open_tag_drops_the_rest(before: Seq<char>, after: Seq<char>)
    requires
        forall|i: int| 0 <= i < after.len() ==> #[trigger] after[i] != '>',
    ensures
        stripped(before.push('<') + after) == stripped(before),
{
    lemma_open_tag(before, after);
}

/// Whether `c` may stand in a search token: a letter, a digit, `_` or `-`.
pub open spec fn token_char(c: char) -> bool {
    if c <= '\u{7f}' {
        ascii_alphanumeric(c) || c == '_' || c == '-'
    } else {
        alphanumeric(c)
    }
}

/// The characters of a word that may stand in a search token.
pub open spec fn cleaned(word: Seq<char>) -> Seq<char>
    decreases word.len(),
{
    if word.len() == 0 {
        Seq::empty()
    } else if token_char(word.last()) {
        cleaned(word.drop_last()).push(word.last())
    } else {
        cleaned(word.drop_last())
    }
}

/// A search token that matches the words with this beginning.
pub open spec fn quoted(clean: Seq<char>) -> Seq<char> {
    seq!['"'] + clean + seq!['"', '*']
}

/// The search tokens for `list`: one for each word that has a character to
/// search for.
pub open spec fn tokens(list: Seq<Seq<char>>) -> Seq<Seq<char>>
    decreases list.len(),
{
    if list.len() == 0 {
        Seq::empty()
    } else {
        let before = tokens(list.drop_last());
        let clean = cleaned(list.last());
        if clean.len() == 0 {
            before
        } else {
            before.push(quoted(clean))
        }
    }
}

/// The search pattern for what a user typed.
pub open spec fn pattern_of(query: Seq<char>) -> Seq<char> {
    spaced(tokens(words(query)))
}

fn clean_word(word: &Vec<char>) -> (r: Vec<char>)
    ensures
        r@ == cleaned(word@),
{
    let mut out: Vec<char> = Vec::new();
    let mut i: usize = 0;
    while i < word.len()
        invariant
            i <= word.len(),
            out@ == cleaned(word@.take(i as int)),
        decreases word.len() - i,
    {
        let c = word[i];
        assert(word@.take(i + 1).drop_last() == word@.take(i as int));
        assert(word@.take(i + 1).last() == c);
        if is_alphanumeric(c) || c == '_' || c == '-' {
            out.push(c);
        }
        i += 1;
    }
    assert(word@.take(word@.len() as int) == word@);
    out
}

fn quote(clean: &Vec<char>) -> (r: Vec<char>)
    ensures
        r@ == quoted(clean@),
{
    let mut out: Vec<char> = Vec::new();
    out.push('"');
    let mut i: usize = 0;
    while i < clean.len()
        invariant
            i <= clean.len(),
            out@ == seq!['"'] + clean@.take(i as int),
        decreases clean.len() - i,
    {
        out.push(clean[i]);
        assert(clean@.take(i + 1) == clean@.take(i as int).push(clean@[i as int]));
        i += 1;
    }
    assert(clean@.take(clean@.len() as int) == clean@);
    out.push('"');
    out.push('*');
    assert(out@ == quoted(clean@));
    out
}

/// Escape a user query into a pattern for the full-text index: each word is
/// wrapped in double quotes, so that punctuation cannot break the query.
pub fn sanitize_fts(query: &str) -> (r: String)
    ensures
        r@ == pattern_of(query@),
{
    let x = chars_of(query);
    let list = split_words(&x);
    let ghost view = |w: Vec<char>| w@;
    let ghost all = list@.map_values(view);
    let mut parts: Vec<Vec<char>> = Vec::new();
    assert(parts@.map_values(view) == tokens(all.take(0)));
    let mut i: usize = 0;
    while i < list.len()
        invariant
            i <= list.len(),
            view == (|w: Vec<char>| w@),
            all == list@.map_values(view),
            parts@.map_values(view) == tokens(all.take(i as int)),
        decreases list.len() - i,
    {
        let clean = clean_word(&list[i]);
        assert(all.take(i + 1).drop_last() == all.take(i as int));
        assert(all.take(i + 1).last() == list@[i as int]@);
        if clean.len() > 0 {
            let ghost before = parts@;
            let token = quote(&clean);
            parts.push(token);
            assert(parts@.map_values(view) == before.map_values(view).push(token@));
        }
        i += 1;
    }
    assert(all.take(all.len() as int) == all);
    join_spaced(&parts)
}

proof fn lemma_spaced_head(parts: Seq<Seq<char>>)
    requires
        parts.len() > 0,
        parts[0].len() > 0,
    ensures
        spaced(parts).len() > 0,
        spaced(parts)[0] == parts[0][0],
    decreases parts.len(),
{
    if parts.len() > 1 {
        lemma_spaced_head(parts.drop_last());
        assert(parts.drop_last()[0] == parts[0]);
    }
}

proof fn lemma_cleaned(word: Seq<char>)
    ensures
        forall|i: int| 0 <= i < cleaned(word).len() ==> token_char(#[trigger] cleaned(word)[i]),
    decreases word.len(),
{
    if word.len() > 0 {
        let before = cleaned(word.drop_last());
        lemma_cleaned(word.drop_last());
        assert forall|i: int| 0 <= i < cleaned(word).len() implies token_char(
            #[trigger] cleaned(word)[i],
        ) by {
            if i < before.len() {
                assert(cleaned(word)[i] == before[i]);
            }
        }
    }
}

/// Every search token is a quoted run of token characters with a star behind
/// it, so nothing that a user types can end the quotation.
pub proof fn tokens_are_quoted(list: Seq<Seq<char>>)
    ensures
        forall|k: int|
            0 <= k < tokens(list).len() ==> exists|clean: Seq<char>|
                #[trigger] tokens(list)[k] == #[trigger] quoted(clean) && clean.len() > 0
                    && forall|i: int| 0 <= i < clean.len() ==> token_char(#[trigger] clean[i]),
    decreases list.len(),
{
    if list.len() > 0 {
        tokens_are_quoted(list.drop_last());
        let clean = cleaned(list.last());
        lemma_cleaned(list.last());
        assert forall|k: int| 0 <= k < tokens(list).len() implies exists|clean: Seq<char>|
            #[trigger] tokens(list)[k] == #[trigger] quoted(clean) && clean.len() > 0 && forall|
                i: int,
            |
                0 <= i < clean.len() ==> token_char(#[trigger] clean[i]) by {
            if k < tokens(list.drop_last()).len() {
                assert(tokens(list)[k] == tokens(list.drop_last())[k]);
            } else {
                assert(tokens(list)[k] == quoted(clean));
            }
        }
    }
}

/// A search pattern is blank only where there is no token to search for, and
/// begins with a quoted string otherwise.
pub proof fn pattern_begins_quoted(query: Seq<char>)
    ensures
        blank(pattern_of(query)) <==> tokens(words(query)).len() == 0,
        !blank(pattern_of(query)) ==> pattern_of(query).len() > 0 && pattern_of(query)[0] == '"',
{
    let list = tokens(words(query));
    if list.len() > 0 {
        tokens_are_quoted(words(query));
        assert(list[0].len() > 0 && list[0][0] == '"');
        lemma_spaced_head(list);
        assert(!whitespace(pattern_of(query)[0]));
    }
}

proof fn lemma_cleaned_is_word(word: Seq<char>)
    requires
        is_word(word),
    ensures
        forall|i: int| 0 <= i < cleaned(word).len() ==> !whitespace(#[trigger] cleaned(word)[i]),
    decreases word.len(),
{
    if word.len() > 0 {
        let rest = word.drop_last();
        let before = cleaned(rest);
        if rest.len() > 0 {
            assert forall|i: int| 0 <= i < rest.len() implies !whitespace(#[trigger] rest[i]) by {
                assert(rest[i] == word[i]);
            }
            lemma_cleaned_is_word(rest);
        }
        assert(!whitespace(word[word.len() - 1]));
        assert forall|i: int| 0 <= i < cleaned(word).len() implies !whitespace(
            #[trigger] cleaned(word)[i],
        ) by {
            if i < before.len() {
                assert(cleaned(word)[i] == before[i]);
            }
        }
    }
}

/// A quoted run of token characters without white space is a word.
spec fn is_token(token: Seq<char>) -> bool {
    exists|clean: Seq<char>|
        token == #[trigger] quoted(clean) && is_word(clean) && holds_only(
            clean,
            |c: char| token_char(c),
        )
}

proof fn lemma_tokens(list: Seq<Seq<char>>)
    requires
        are_words(list),
    ensures
        forall|k: int| 0 <= k < tokens(list).len() ==> is_token(#[trigger] tokens(list)[k]),
    decreases list.len(),
{
    if list.len() > 0 {
        let rest = list.drop_last();
        assert forall|k: int| 0 <= k < rest.len() implies is_word(#[trigger] rest[k]) by {
            assert(rest[k] == list[k]);
        }
        lemma_tokens(rest);
        assert(is_word(list[list.len() - 1]));
        let clean = cleaned(list.last());
        lemma_cleaned(list.last());
        lemma_cleaned_is_word(list.last());
        assert forall|k: int| 0 <= k < tokens(list).len() implies is_token(
            #[trigger] tokens(list)[k],
        ) by {
            if k < tokens(rest).len() {
                assert(tokens(list)[k] == tokens(rest)[k]);
            } else {
                assert(tokens(list)[k] == quoted(clean));
            }
        }
    }
}

proof fn lemma_cleaned_run(clean: Seq<char>)
    requires
        holds_only(clean, |c: char| token_char(c)),
    ensures
        cleaned(seq!['"'] + clean) == clean,
        cleaned(quoted(clean)) == clean,
    decreases clean.len(),
{
    let open = seq!['"'] + clean;
    if clean.len() > 0 {
        let rest = clean.drop_last();
        assert forall|i: int| 0 <= i < rest.len() implies token_char(#[trigger] rest[i]) by {
            assert(rest[i] == clean[i]);
            assert(token_char(clean[i]));
        }
        lemma_cleaned_run(rest);
        assert(open.drop_last() =~= seq!['"'] + rest);
        assert(token_char(clean[clean.len() - 1]));
        assert(open.last() == clean.last());
        assert(rest.push(clean.last()) =~= clean);
    } else {
        assert(open.drop_last() =~= Seq::empty());
        assert(open.last() == '"');
        assert(cleaned(Seq::<char>::empty()) =~= clean);
    }
    let whole = quoted(clean);
    assert(whole.last() == '*');
    let inner = whole.drop_last();
    assert(inner.last() == '"');
    assert(inner.drop_last() =~= open);
    assert(cleaned(inner) == cleaned(open));
}

proof fn lemma_tokens_of_tokens(list: Seq<Seq<char>>)
    requires
        forall|k: int| 0 <= k < list.len() ==> is_token(#[trigger] list[k]),
    ensures
        are_words(list),
        tokens(list) == list,
    decreases list.len(),
{
    if list.len() > 0 {
        let rest = list.drop_last();
        assert forall|k: int| 0 <= k < rest.len() implies is_token(#[trigger] rest[k]) by {
            assert(rest[k] == list[k]);
        }
        lemma_tokens_of_tokens(rest);
        let token = list[list.len() - 1];
        assert(is_token(token));
        let clean = choose|clean: Seq<char>|
            token == #[trigger] quoted(clean) && is_word(clean) && holds_only(
                clean,
                |c: char| token_char(c),
            );
        lemma_cleaned_run(clean);
        assert(is_word(token)) by {
            assert forall|i: int| 0 <= i < token.len() implies !whitespace(#[trigger] token[i]) by {
                if 0 < i < token.len() - 2 {
                    assert(token[i] == clean[i - 1]);
                }
            }
        }
        assert forall|k: int| 0 <= k < list.len() implies is_word(#[trigger] list[k]) by {
            if k < rest.len() {
                assert(list[k] == rest[k]);
            }
        }
        assert(rest.push(token) =~= list);
    }
}

/// A search pattern is sanitized to itself.
pub proof fn pattern_is_a_fixed_point(query: Seq<char>)
    ensures
        pattern_of(pattern_of(query)) == pattern_of(query),
{
    let list = tokens(words(query));
    lemma_words(query, |c: char| true);
    lemma_tokens(words(query));
    lemma_tokens_of_tokens(list);
    lemma_words_of_spaced(list);
}

/// Whether `s` has a character to search for.
pub open spec fn has_token_char(s: Seq<char>) -> bool {
    exists|i: int| 0 <= i < s.len() && !whitespace(#[trigger] s[i]) && token_char(s[i])
}

proof fn lemma_cleaned_len(word: Seq<char>)
    ensures
        cleaned(word).len() > 0 <==> exists|i: int|
            0 <= i < word.len() && token_char(#[trigger] word[i]),
    decreases word.len(),
{
    if word.len() > 0 {
        let rest = word.drop_last();
        lemma_cleaned_len(rest);
        if cleaned(word).len() > 0 {
            if token_char(word.last()) {
                assert(token_char(word[word.len() - 1]));
            } else {
                let i = choose|i: int| 0 <= i < rest.len() && token_char(#[trigger] rest[i]);
                assert(token_char(word[i]));
            }
        }
        if exists|i: int| 0 <= i < word.len() && token_char(#[trigger] word[i]) {
            let i = choose|i: int| 0 <= i < word.len() && token_char(#[trigger] word[i]);
            if i < rest.len() {
                assert(token_char(rest[i]));
            }
        }
    }
}

proof fn lemma_tokens_len(s: Seq<char>)
    ensures
        tokens(words(s)).len() > 0 <==> has_token_char(s),
    decreases s.len(),
{
    if s.len() > 0 {
        let rest = s.drop_last();
        let c = s.last();
        let before = words(rest);
        lemma_tokens_len(rest);
        lemma_words(rest, |c: char| true);
        if has_token_char(rest) {
            let i = choose|i: int|
                0 <= i < rest.len() && !whitespace(#[trigger] rest[i]) && token_char(rest[i]);
            assert(s[i] == rest[i]);
        }
        if has_token_char(s) {
            let i = choose|i: int|
                0 <= i < s.len() && !whitespace(#[trigger] s[i]) && token_char(s[i]);
            if i < rest.len() {
                assert(rest[i] == s[i]);
            }
        }
        assert(s[s.len() - 1] == c);
        assert(has_token_char(s) <==> has_token_char(rest) || (!whitespace(c) && token_char(c)));
        if !whitespace(c) {
            let now = words(s);
            if s.len() == 1 || whitespace(s[s.len() - 2]) {
                assert(now.drop_last() =~= before);
                lemma_cleaned_len(seq![c]);
                assert(seq![c][0] == c);
            } else {
                assert(rest.last() == s[s.len() - 2]);
                let w = before.last();
                assert(now.drop_last() =~= before.drop_last());
                assert(now.last() == w.push(c));
                assert(w.push(c).drop_last() =~= w);
            }
        }
    }
}

/// A search pattern is empty if and only if there is nothing to search for.
pub proof fn pattern_is_empty_without_tokens(query: Seq<char>)
    ensures
        pattern_of(query).len() == 0 <==> !has_token_char(query),
{
    lemma_tokens_len(query);
    pattern_begins_quoted(query);
}

/// The text that `bytes` encode, or nothing where they are not valid UTF-8.
pub open spec fn text_or_empty(bytes: Seq<u8>) -> Seq<char> {
    if valid_utf8(bytes) {
        decode_utf8(bytes)
    } else {
        Seq::empty()
    }
}

/// The beginning of the plain text among `targets`, for display.
pub open spec fn preview_of(plain: Option<Seq<char>>) -> Option<Seq<char>> {
    match plain {
        Some(s) => Some(shortened(s, PREVIEW_CHARS as int)),
        None => None,
    }
}

/// The beginning of the first plain-text target, for display.
pub fn preview_text_of(targets: &[MimeBlob]) -> (r: Option<String>)
    ensures
        match r {
            Some(s) => preview_of(plain_text(values(targets@))) == Some(s@),
            None => preview_of(plain_text(values(targets@))) is None,
        },
{
    match find_plain_text(targets) {
        Some(s) => Some(truncate(s, PREVIEW_CHARS)),
        None => None,
    }
}

/// The text that `bytes` encode, or nothing where they are not valid UTF-8.
pub(crate) fn decode_or_empty(bytes: &[u8]) -> (r: &str)
    ensures
        r@ == text_or_empty(bytes@),
{
    match decode(bytes) {
        Some(s) => s,
        None => {
            proof {
                reveal_strlit("");
            }
            assert(""@ =~= Seq::<char>::empty());
            ""
        },
    }
}

// ---- laws of search patterns and of stripped text ----

proof fn lemma_cleaned_whole(w: Seq<char>)
    requires
        holds_only(w, |c: char| token_char(c)),
    ensures
        cleaned(w) == w,
    decreases w.len(),
{
    if w.len() > 0 {
        let rest = w.drop_last();
        assert forall|i: int| 0 <= i < rest.len() implies token_char(#[trigger] rest[i]) by {
            assert(rest[i] == w[i]);
            assert(token_char(w[i]));
        }
        lemma_cleaned_whole(rest);
        assert(token_char(w[w.len() - 1]));
        assert(rest.push(w.last()) =~= w);
    } else {
        assert(w =~= Seq::empty());
    }
}

proof fn lemma_tokens_append(a: Seq<Seq<char>>, b: Seq<Seq<char>>)
    ensures
        tokens(a + b) == tokens(a) + tokens(b),
    decreases b.len(),
{
    if b.len() == 0 {
        assert(a + b =~= a);
        assert(tokens(a) + tokens(b) =~= tokens(a));
    } else {
        lemma_tokens_append(a, b.drop_last());
        assert((a + b).drop_last() =~= a + b.drop_last());
        assert((a + b).last() == b.last());
        assert(tokens(a + b) =~= tokens(a) + tokens(b));
    }
}

/// A word is searched for as it was typed: where it is made of the letters `A` to `Z` and
/// `a` to `z`, the digits `0` to `9`, `_`, `-`, and letters and digits beyond ASCII, the
/// pattern is a double quote, the word, a double quote and a star.
pub proof fn typed_word_is_searched_whole(w: Seq<char>)
    requires
        w.len() > 0,
        forall|i: int|
            0 <= i < w.len() ==> {
                let c = #[trigger] w[i];
                ||| '0' <= c && c <= '9'
                ||| 'A' <= c && c <= 'Z'
                ||| 'a' <= c && c <= 'z'
                ||| c == '_'
                ||| c == '-'
                ||| c > '\u{7f}' && alphanumeric(c) && !whitespace(c)
            },
    ensures
        pattern_of(w) == seq!['"'] + w + seq!['"', '*'],
{
    words_are_split_at_whitespace(w, ' ', w);
    assert(words(w) == seq![w]);
    lemma_cleaned_whole(w);
    let list = seq![w];
    assert(list.drop_last() =~= Seq::empty());
    assert(list.last() == w);
    assert(tokens(list.drop_last()) =~= Seq::empty());
    assert(tokens(list) =~= seq![quoted(w)]);
    joining_puts_one_space_between(list, quoted(w), list);
}

/// A query is searched for word by word: white space in it separates what is searched
/// for, and the patterns of both sides stand in the pattern with one space between them.
pub proof fn pattern_goes_word_by_word(a: Seq<char>, c: char, b: Seq<char>)
    requires
        whitespace(c),
    ensures
        pattern_of(Seq::empty()).len() == 0,
        pattern_of(b).len() == 0 ==> pattern_of(a + seq![c] + b) == pattern_of(a),
        pattern_of(a).len() == 0 ==> pattern_of(a + seq![c] + b) == pattern_of(b),
        pattern_of(a).len() > 0 && pattern_of(b).len() > 0 ==> pattern_of(a + seq![c] + b)
            == pattern_of(a) + seq![' '] + pattern_of(b),
{
    words_are_split_at_whitespace(a, c, b);
    lemma_tokens_append(words(a), words(b));
    pattern_begins_quoted(a);
    pattern_begins_quoted(b);
    let x = tokens(words(a));
    let y = tokens(words(b));
    if x.len() == 0 {
        assert(x + y =~= y);
    } else if y.len() == 0 {
        assert(x + y =~= x);
    } else {
        assert(!blank(pattern_of(a)) && !blank(pattern_of(b)));
        joining_puts_one_space_between(x, a, y);
    }
    assert(tokens(words(Seq::<char>::empty())) =~= Seq::empty());
}

/// The word that the last character of `s` belongs to, or nothing.
spec fn open_word(s: Seq<char>) -> Seq<char> {
    if s.len() == 0 || whitespace(s.last()) {
        Seq::empty()
    } else {
        words(s).last()
    }
}

/// The words of `s` before its open one.
spec fn closed_words(s: Seq<char>) -> Seq<Seq<char>> {
    if s.len() == 0 || whitespace(s.last()) {
        words(s)
    } else {
        words(s).drop_last()
    }
}

proof fn lemma_open_word(s: Seq<char>, d: char)
    ensures
        open_word(s.push(d)) == if whitespace(d) {
            Seq::empty()
        } else {
            open_word(s).push(d)
        },
        closed_words(s.push(d)) == if whitespace(d) {
            words(s)
        } else {
            closed_words(s)
        },
        tokens(words(s)) == if cleaned(open_word(s)).len() == 0 {
            tokens(closed_words(s))
        } else {
            tokens(closed_words(s)).push(quoted(cleaned(open_word(s))))
        },
{
    let now = s.push(d);
    assert(now.drop_last() =~= s);
    assert(now.last() == d);
    lemma_words(s, |c: char| true);
    if s.len() > 0 {
        assert(now[now.len() - 2] == s.last());
    }
    if !whitespace(d) {
        if s.len() == 0 || whitespace(s.last()) {
            assert(words(now) == words(s).push(seq![d]));
            assert(Seq::<char>::empty().push(d) =~= seq![d]);
            assert(words(now).drop_last() =~= words(s));
        } else {
            assert(words(now).drop_last() =~= words(s).drop_last());
        }
    }
}

proof fn lemma_dropped_char(a: Seq<char>, c: char, b: Seq<char>)
    requires
        !whitespace(c),
        !token_char(c),
    ensures
        cleaned(open_word(a.push(c) + b)) == cleaned(open_word(a + b)),
        tokens(closed_words(a.push(c) + b)) == tokens(closed_words(a + b)),
    decreases b.len(),
{
    if b.len() == 0 {
        assert(a.push(c) + b =~= a.push(c));
        assert(a + b =~= a);
        lemma_open_word(a, c);
        let w = open_word(a);
        assert(w.push(c).drop_last() =~= w);
    } else {
        let rest = b.drop_last();
        let d = b.last();
        lemma_dropped_char(a, c, rest);
        let x = a.push(c) + rest;
        let y = a + rest;
        assert(a.push(c) + b =~= x.push(d));
        assert(a + b =~= y.push(d));
        lemma_open_word(x, d);
        lemma_open_word(y, d);
        assert(open_word(x).push(d).drop_last() =~= open_word(x));
        assert(open_word(y).push(d).drop_last() =~= open_word(y));
    }
}

/// Any other character is as if it had not been typed, wherever it stands: an ASCII
/// character that is neither a letter nor a digit, nor `_`, `-` or white space, and one
/// beyond ASCII that is none of these either.
pub proof fn other_characters_are_not_searched(a: Seq<char>, c: char, b: Seq<char>)
    requires
        !whitespace(c),
        c <= '\u{7f}' ==> !('0' <= c && c <= '9') && !('A' <= c && c <= 'Z') && !('a' <= c && c
            <= 'z') && c != '_' && c != '-',
        c > '\u{7f}' ==> !alphanumeric(c),
    ensures
        pattern_of(a + seq![c] + b) == pattern_of(a + b),
{
    assert(a + seq![c] + b =~= a.push(c) + b);
    lemma_dropped_char(a, c, b);
    lemma_open_word(a.push(c) + b, ' ');
    lemma_open_word(a + b, ' ');
}

proof fn lemma_outside_append(p: Seq<char>, q: Seq<char>)
    requires
        !in_tag(p),
    ensures
        in_tag(p + q) == in_tag(q),
        outside_tags(p + q) == outside_tags(p) + outside_tags(q),
    decreases q.len(),
{
    if q.len() == 0 {
        assert(p + q =~= p);
        assert(outside_tags(p) + outside_tags(q) =~= outside_tags(p));
    } else {
        lemma_outside_append(p, q.drop_last());
        assert((p + q).drop_last() =~= p + q.drop_last());
        assert((p + q).last() == q.last());
        assert(outside_tags(p + q) =~= outside_tags(p) + outside_tags(q));
    }
}

proof fn lemma_no_tag_open(a: Seq<char>, k: int)
    requires
        0 <= k <= a.len(),
        k > 0 ==> a[k - 1] == '>',
        forall|i: int| k <= i < a.len() ==> #[trigger] a[i] != '<',
    ensures
        !in_tag(a),
    decreases a.len(),
{
    if a.len() > k {
        let rest = a.drop_last();
        assert(a[a.len() - 1] != '<');
        assert forall|i: int| k <= i < rest.len() implies #[trigger] rest[i] != '<' by {
            assert(rest[i] == a[i]);
        }
        lemma_no_tag_open(rest, k);
    }
}

/// A tag is left out, and what stands before and behind it is not: with no tag open after
/// `a`, where all from position `k` on is free of opening brackets and a closing one or
/// nothing stands before it, the text with a tag put in is stripped to the same as without
/// it. So is the text with a closing bracket put in.
pub proof fn tags_alone_are_left_out(a: Seq<char>, k: int, tag: Seq<char>, b: Seq<char>)
    requires
        0 <= k <= a.len(),
        k > 0 ==> a[k - 1] == '>',
        forall|i: int| k <= i < a.len() ==> #[trigger] a[i] != '<',
        forall|i: int| 0 <= i < tag.len() ==> #[trigger] tag[i] != '>',
    ensures
        stripped(a + seq!['<'] + tag + seq!['>'] + b) == stripped(a + b),
        stripped(a + seq!['>'] + b) == stripped(a + b),
{
    lemma_no_tag_open(a, k);
    lemma_outside_append(a, b);
    let whole = seq!['<'] + tag + seq!['>'];
    lemma_open_tag(Seq::empty(), tag);
    assert(whole.drop_last() =~= Seq::<char>::empty().push('<') + tag);
    assert(whole.last() == '>');
    assert(outside_tags(whole) == outside_tags(Seq::empty()));
    lemma_outside_append(a, whole);
    assert(outside_tags(a + whole) =~= outside_tags(a));
    lemma_outside_append(a + whole, b);
    assert(a + whole + b =~= a + seq!['<'] + tag + seq!['>'] + b);
    let close = seq!['>'];
    assert(close.last() == '>');
    assert(close.drop_last() =~= Seq::empty());
    assert(outside_tags(close) == outside_tags(Seq::empty()));
    lemma_outside_append(a, close);
    assert(outside_tags(a + close) =~= outside_tags(a));
    lemma_outside_append(a + close, b);
}

/// The bytes of a text are shown as that text, and bytes that are not valid UTF-8 as
/// nothing.
pub proof fn bytes_are_shown_as_text(bytes: Seq<u8>)
    ensures
        valid_utf8(bytes) ==> text_or_empty(bytes) == decode_utf8(bytes),
        !valid_utf8(bytes) ==> text_or_empty(bytes).len() == 0,
{
}

/// A preview is the text itself where it has at most 160 characters, and else its first
/// 160 characters and an ellipsis. Without a text there is none.
pub proof fn preview_is_the_first_160_characters(s: Seq<char>)
    ensures
        preview_of(None) is None,
        s.len() <= 160 ==> preview_of(Some(s)) == Some(s),
        s.len() > 160 ==> preview_of(Some(s)) == Some(s.take(160) + seq!['\u{2026}']),
{
    if s.len() > 160 {
        assert(s.take(160).push('\u{2026}') =~= s.take(160) + seq!['\u{2026}']);
    }
}

} // verus!
