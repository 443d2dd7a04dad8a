//! Text primitives: ASCII case folding, searching, word splitting, UTF-8
//! decoding and decimal numbers, over the characters of a string.

use vstd::prelude::*;
use vstd::string::*;
use vstd::utf8::*;

verus! {

broadcast use vstd::string::group_string_axioms;

/// `String::push` appends one character.
pub assume_specification[ String::push ](s: &mut String, c: char)
    ensures
        final(s)@ == old(s)@.push(c),
;

/// The characters of `s`, in order.
pub fn chars_of(s: &str) -> (r: Vec<char>)
    ensures
        r@ == s@,
{
    let mut out: Vec<char> = Vec::new();
    for c in it: s.chars()
        invariant
            out@ == s@.take(it.index()),
            it.seq() == s@,
    {
        out.push(c);
        assert(s@.take(it.index() + 1) == s@.take(it.index()).push(s@[it.index()]));
    }
    assert(s@.take(s@.len() as int) == s@);
    out
}

/// The string whose characters are `chars`.
pub fn string_of(chars: &Vec<char>) -> (r: String)
    ensures
        r@ == chars@,
{
    let mut out = String::new();
    let mut i: usize = 0;
    while i < chars.len()
        invariant
            i <= chars.len(),
            out@ == chars@.take(i as int),
        decreases chars.len() - i,
    {
        out.push(chars[i]);
        assert(chars@.take(i + 1) == chars@.take(i as int).push(chars@[i as int]));
        i += 1;
    }
    assert(chars@.take(chars@.len() as int) == chars@);
    out
}

/// `c`, with an ASCII capital letter replaced by its small letter.
pub open spec fn ascii_lower(c: char) -> char {
    if 'A' <= c && c <= 'Z' {
        ((c as u8 + 32) as u8) as char
    } else {
        c
    }
}

/// Every character of `s` folded by [`ascii_lower`].
pub open spec fn folded(s: Seq<char>) -> Seq<char> {
    s.map_values(|c: char| ascii_lower(c))
}

/// Whether `a` and `b` are the same text up to the case of ASCII letters.
pub open spec fn same_folded(a: Seq<char>, b: Seq<char>) -> bool {
    folded(a) == folded(b)
}

fn lower_char(c: char) -> (r: char)
    ensures
        r == ascii_lower(c),
{
    if 'A' <= c && c <= 'Z' {
        ((c as u8) + 32) as char
    } else {
        c
    }
}

/// `s` with its ASCII letters in small case.
pub fn to_ascii_lowercase(s: &str) -> (r: String)
    ensures
        r@ == folded(s@),
{
    let mut out = String::new();
    for c in it: s.chars()
        invariant
            out@ == folded(s@.take(it.index())),
            it.seq() == s@,
    {
        out.push(lower_char(c));
        assert(folded(s@.take(it.index() + 1)) == folded(s@.take(it.index())).push(
            ascii_lower(s@[it.index()]),
        ));
    }
    assert(s@.take(s@.len() as int) == s@);
    out
}

/// Whether two texts are equal, character by character.
pub fn same_text(a: &str, b: &str) -> (r: bool)
    ensures
        r == (a@ == b@),
{
    let x = chars_of(a);
    let y = chars_of(b);
    if x.len() != y.len() {
        return false;
    }
    let mut i: usize = 0;
    while i < x.len()
        invariant
            i <= x.len(),
            x@ == a@,
            y@ == b@,
            x.len() == y.len(),
            forall|j: int| 0 <= j < i ==> x@[j] == y@[j],
        decreases x.len() - i,
    {
        if x[i] != y[i] {
            return false;
        }
        i += 1;
    }
    assert(a@ =~= b@);
    true
}

/// Whether `a` and `b` are equal up to the case of ASCII letters.
pub fn eq_ignore_ascii_case(a: &str, b: &str) -> (r: bool)
    ensures
        r == same_folded(a@, b@),
{
    let x = to_ascii_lowercase(a);
    let y = to_ascii_lowercase(b);
    same_text(x.as_str(), y.as_str())
}

/// Whether `s` begins with `prefix`.
pub fn starts_with(s: &str, prefix: &str) -> (r: bool)
    ensures
        r == prefix@.is_prefix_of(s@),
{
    let x = chars_of(s);
    let y = chars_of(prefix);
    if x.len() < y.len() {
        return false;
    }
    let mut i: usize = 0;
    while i < y.len()
        invariant
            i <= y.len() <= x.len(),
            x@ == s@,
            y@ == prefix@,
            forall|j: int| 0 <= j < i ==> x@[j] == y@[j],
        decreases y.len() - i,
    {
        if x[i] != y[i] {
            assert(s@.subrange(0, prefix@.len() as int)[i as int] == s@[i as int]);
            return false;
        }
        i += 1;
    }
    assert(s@.subrange(0, prefix@.len() as int) =~= prefix@);
    true
}

/// Whether `needle` stands in `s` at position `at`.
pub open spec fn found_at(s: Seq<char>, needle: Seq<char>, at: int) -> bool {
    &&& 0 <= at
    &&& at + needle.len() <= s.len()
    &&& s.subrange(at, at + needle.len()) == needle
}

/// Whether `needle` stands anywhere in `s`.
pub open spec fn has_text(s: Seq<char>, needle: Seq<char>) -> bool {
    exists|at: int| found_at(s, needle, at)
}

/// Whether `needle` stands anywhere in `s`.
pub fn contains(s: &str, needle: &str) -> (r: bool)
    ensures
        r == has_text(s@, needle@),
{
    let x = chars_of(s);
    let y = chars_of(needle);
    if x.len() < y.len() {
        return false;
    }
    let last: usize = x.len() - y.len();
    let mut at: usize = 0;
    loop
        invariant
            at <= last,
            last == x.len() - y.len(),
            y.len() <= x.len(),
            x@ == s@,
            y@ == needle@,
            forall|k: int| 0 <= k < at ==> !found_at(s@, needle@, k),
        decreases last - at,
    {
        let mut i: usize = 0;
        let mut hit = true;
        while i < y.len() && hit
            invariant
                i <= y.len(),
                at <= last,
                last == x.len() - y.len(),
                y.len() <= x.len(),
                hit ==> forall|j: int| 0 <= j < i ==> x@[at + j] == y@[j],
                !hit ==> exists|j: int| 0 <= j < y.len() && x@[at + j] != y@[j],
            decreases y.len() - i,
        {
            if x[at + i] != y[i] {
                hit = false;
            }
            i += 1;
        }
        if hit {
            assert(s@.subrange(at as int, at + needle@.len()) =~= needle@);
            assert(found_at(s@, needle@, at as int));
            return true;
        }
        proof {
            let j = choose|j: int| 0 <= j < y.len() && x@[at + j] != y@[j];
            assert(s@.subrange(at as int, at + needle@.len())[j] == s@[at + j]);
            assert(!found_at(s@, needle@, at as int));
        }
        if at == last {
            assert(forall|k: int| found_at(s@, needle@, k) ==> k <= last);
            return false;
        }
        at += 1;
    }
}

/// Whether `c` is white space, that is, has the Unicode property `White_Space`.
pub open spec fn whitespace(c: char) -> bool {
    ||| '\u{9}' <= c && c <= '\u{d}'
    ||| c == '\u{20}'
    ||| c == '\u{85}'
    ||| c == '\u{a0}'
    ||| c == '\u{1680}'
    ||| '\u{2000}' <= c && c <= '\u{200a}'
    ||| c == '\u{2028}'
    ||| c == '\u{2029}'
    ||| c == '\u{202f}'
    ||| c == '\u{205f}'
    ||| c == '\u{3000}'
}

/// Whether `c` is white space.
pub fn is_whitespace(c: char) -> (r: bool)
    ensures
        r == whitespace(c),
{
    ('\u{9}' <= c && c <= '\u{d}') || c == '\u{20}' || c == '\u{85}' || c == '\u{a0}' || c
        == '\u{1680}' || ('\u{2000}' <= c && c <= '\u{200a}') || c == '\u{2028}' || c == '\u{2029}'
        || c == '\u{202f}' || c == '\u{205f}' || c == '\u{3000}'
}

/// Whether `s` holds nothing but white space.
pub open spec fn blank(s: Seq<char>) -> bool {
    forall|i: int| 0 <= i < s.len() ==> whitespace(#[trigger] s[i])
}

/// Whether `s` holds nothing but white space.
pub fn is_blank(s: &str) -> (r: bool)
    ensures
        r == blank(s@),
{
    let x = chars_of(s);
    let mut i: usize = 0;
    while i < x.len()
        invariant
            i <= x.len(),
            x@ == s@,
            forall|j: int| 0 <= j < i ==> whitespace(#[trigger] x@[j]),
        decreases x.len() - i,
    {
        if !is_whitespace(x[i]) {
            assert(!whitespace(s@[i as int]));
            return false;
        }
        i += 1;
    }
    true
}

/// The words of `s`: its maximal runs of characters that are not white space.
pub open spec fn words(s: Seq<char>) -> Seq<Seq<char>>
    decreases s.len(),
{
    if s.len() == 0 {
        Seq::empty()
    } else {
        let before = words(s.drop_last());
        if whitespace(s.last()) {
            before
        } else if s.len() == 1 || whitespace(s[s.len() - 2]) {
            before.push(seq![s.last()])
        } else {
            before.drop_last().push(before.last().push(s.last()))
        }
    }
}

/// The words of `s`, each as a list of characters.
pub(crate) fn split_words(s: &Vec<char>) -> (r: Vec<Vec<char>>)
    ensures
        r@.map_values(|w: Vec<char>| w@) == words(s@),
{
    let mut out: Vec<Vec<char>> = Vec::new();
    let mut cur: Vec<char> = Vec::new();
    let mut i: usize = 0;
    let ghost view = |w: Vec<char>| w@;
    assert(out@.map_values(view) == words(s@.take(0)));
    while i < s.len()
        invariant
            i <= s.len(),
            view == (|w: Vec<char>| w@),
            (i > 0 && !whitespace(s@[i - 1])) <==> cur@.len() > 0,
            cur@.len() == 0 ==> words(s@.take(i as int)) == out@.map_values(view),
            cur@.len() > 0 ==> words(s@.take(i as int)) == out@.map_values(view).push(cur@),
        decreases s.len() - i,
    {
        let ghost before = s@.take(i as int);
        let ghost now = s@.take(i + 1);
        let c = s[i];
        assert(now.drop_last() == before);
        assert(now.last() == c);
        assert(i > 0 ==> now[now.len() - 2] == s@[i - 1]);
        if is_whitespace(c) {
            if cur.len() > 0 {
                let ghost old_out = out@;
                let ghost old_cur = cur@;
                out.push(cur);
                cur = Vec::new();
                assert(out@.map_values(view) == old_out.map_values(view).push(old_cur));
            }
        } else {
            let ghost old_cur = cur@;
            cur.push(c);
            proof {
                if old_cur.len() == 0 {
                    assert(cur@ == seq![c]);
                } else {
                    assert(out@.map_values(view).push(old_cur).drop_last() == out@.map_values(
                        view,
                    ));
                }
            }
        }
        i += 1;
    }
    assert(s@.take(s@.len() as int) == s@);
    if cur.len() > 0 {
        let ghost old_out = out@;
        let ghost old_cur = cur@;
        out.push(cur);
        assert(out@.map_values(view) == old_out.map_values(view).push(old_cur));
    }
    out
}

/// The pieces of `parts` in order, with one space between each two.
pub open spec fn spaced(parts: Seq<Seq<char>>) -> Seq<char>
    decreases parts.len(),
{
    if parts.len() == 0 {
        Seq::empty()
    } else if parts.len() == 1 {
        parts[0]
    } else {
        spaced(parts.drop_last()).push(' ') + parts.last()
    }
}

/// The pieces of `parts` in order, with one space between each two.
pub(crate) fn join_spaced(parts: &Vec<Vec<char>>) -> (r: String)
    ensures
        r@ == spaced(parts@.map_values(|w: Vec<char>| w@)),
{
    let ghost view = |w: Vec<char>| w@;
    let ghost all = parts@.map_values(view);
    let mut out = String::new();
    let mut i: usize = 0;
    while i < parts.len()
        invariant
            i <= parts.len(),
            view == (|w: Vec<char>| w@),
            all == parts@.map_values(view),
            out@ == spaced(all.take(i as int)),
        decreases parts.len() - i,
    {
        assert(all.take(i + 1).drop_last() == all.take(i as int));
        if i > 0 {
            out.push(' ');
        }
        let piece = string_of(&parts[i]);
        out.append(piece.as_str());
        assert(piece@ == all[i as int]);
        if i == 0 {
            assert(out@ == all[0]);
        }
        i += 1;
    }
    assert(all.take(all.len() as int) == all);
    out
}

/// Whether `w` is a word: it has characters, and none of them is white space.
pub open spec fn is_word(w: Seq<char>) -> bool {
    &&& w.len() > 0
    &&& forall|i: int| 0 <= i < w.len() ==> !whitespace(#[trigger] w[i])
}

/// Whether `parts` are words.
pub open spec fn are_words(parts: Seq<Seq<char>>) -> bool {
    forall|k: int| 0 <= k < parts.len() ==> is_word(#[trigger] parts[k])
}

/// Whether all characters of `s` are of one kind.
pub open spec fn holds_only(s: Seq<char>, kind: spec_fn(char) -> bool) -> bool {
    forall|i: int| 0 <= i < s.len() ==> kind(#[trigger] s[i])
}

/// Whether the white space in `s` is single spaces between other characters.
pub open spec fn single_spaced(s: Seq<char>) -> bool {
    forall|i: int|
        0 <= i < s.len() && whitespace(#[trigger] s[i]) ==> s[i] == ' ' && 0 < i < s.len() - 1
            && !whitespace(s[i - 1]) && !whitespace(s[i + 1])
}

/// The words of a text are words, made of its characters, and its last character
/// belongs to the last of them unless it is white space.
pub proof fn lemma_words(s: Seq<char>, kind: spec_fn(char) -> bool)
    requires
        holds_only(s, kind),
    ensures
        are_words(words(s)),
        forall|k: int| 0 <= k < words(s).len() ==> holds_only(#[trigger] words(s)[k], kind),
        s.len() > 0 && !whitespace(s.last()) ==> words(s).len() > 0,
    decreases s.len(),
{
    if s.len() > 0 {
        let rest = s.drop_last();
        let c = s.last();
        let before = words(rest);
        lemma_words(rest, kind);
        assert(kind(c)) by {
            assert(c == s[s.len() - 1]);
        }
        if !whitespace(c) {
            if s.len() > 1 && !whitespace(s[s.len() - 2]) {
                assert(rest.last() == s[s.len() - 2]);
                let w = before.last().push(c);
                assert(is_word(before[before.len() - 1]));
                assert(is_word(w)) by {
                    assert forall|i: int| 0 <= i < w.len() implies !whitespace(#[trigger] w[i]) by {
                        if i < w.len() - 1 {
                            assert(w[i] == before.last()[i]);
                        }
                    }
                }
                assert(holds_only(w, kind)) by {
                    assert(holds_only(before[before.len() - 1], kind));
                    assert forall|i: int| 0 <= i < w.len() implies kind(#[trigger] w[i]) by {
                        if i < w.len() - 1 {
                            assert(w[i] == before.last()[i]);
                        }
                    }
                }
                assert forall|k: int| 0 <= k < words(s).len() implies is_word(
                    #[trigger] words(s)[k],
                ) && holds_only(words(s)[k], kind) by {
                    if k < before.len() - 1 {
                        assert(words(s)[k] == before[k]);
                    }
                }
            } else {
                assert forall|k: int| 0 <= k < words(s).len() implies is_word(
                    #[trigger] words(s)[k],
                ) && holds_only(words(s)[k], kind) by {
                    if k < before.len() {
                        assert(words(s)[k] == before[k]);
                    } else {
                        assert(words(s)[k] == seq![c]);
                    }
                }
            }
        }
    }
}

proof fn lemma_words_append(a: Seq<char>, w: Seq<char>)
    requires
        a.len() == 0 || whitespace(a.last()),
        is_word(w),
    ensures
        words(a + w) == words(a).push(w),
    decreases w.len(),
{
    let s = a + w;
    let c = w.last();
    assert(s.last() == c);
    assert(!whitespace(c)) by {
        assert(c == w[w.len() - 1]);
    }
    if w.len() == 1 {
        assert(s.drop_last() =~= a);
        assert(a.len() > 0 ==> s[s.len() - 2] == a.last());
        assert(seq![c] =~= w);
    } else {
        let head = w.drop_last();
        assert(is_word(head)) by {
            assert forall|i: int| 0 <= i < head.len() implies !whitespace(#[trigger] head[i]) by {
                assert(head[i] == w[i]);
            }
        }
        lemma_words_append(a, head);
        assert(s.drop_last() =~= a + head);
        assert(s[s.len() - 2] == w[w.len() - 2]);
        assert(words(a).push(head).drop_last() =~= words(a));
        assert(head.push(c) =~= w);
    }
}

/// Words that are joined by spaces are the words of what they make.
pub proof fn lemma_words_of_spaced(parts: Seq<Seq<char>>)
    requires
        are_words(parts),
    ensures
        words(spaced(parts)) == parts,
    decreases parts.len(),
{
    if parts.len() == 1 {
        assert(is_word(parts[0]));
        lemma_words_append(Seq::empty(), parts[0]);
        assert(Seq::<char>::empty() + parts[0] =~= parts[0]);
        assert(words(Seq::<char>::empty()).push(parts[0]) =~= parts);
    } else if parts.len() > 1 {
        let rest = parts.drop_last();
        assert(are_words(rest)) by {
            assert forall|k: int| 0 <= k < rest.len() implies is_word(#[trigger] rest[k]) by {
                assert(rest[k] == parts[k]);
            }
        }
        lemma_words_of_spaced(rest);
        assert(is_word(parts[parts.len() - 1]));
        let head = spaced(rest).push(' ');
        assert(head.drop_last() =~= spaced(rest));
        lemma_words_append(head, parts.last());
        assert(rest.push(parts.last()) =~= parts);
    }
}

/// Words that are joined by spaces have single spaces between them, and else the
/// characters of the words.
pub proof fn lemma_spaced(parts: Seq<Seq<char>>, kind: spec_fn(char) -> bool)
    requires
        are_words(parts),
        forall|k: int| 0 <= k < parts.len() ==> holds_only(#[trigger] parts[k], kind),
        kind(' '),
    ensures
        holds_only(spaced(parts), kind),
        single_spaced(spaced(parts)),
        parts.len() > 0 ==> spaced(parts).len() > 0 && !whitespace(spaced(parts).last()),
    decreases parts.len(),
{
    let s = spaced(parts);
    if parts.len() > 0 {
        let w = parts.last();
        assert(is_word(parts[parts.len() - 1]) && holds_only(parts[parts.len() - 1], kind));
        assert(!whitespace(w[w.len() - 1]));
        if parts.len() > 1 {
            let rest = parts.drop_last();
            assert forall|k: int| 0 <= k < rest.len() implies is_word(#[trigger] rest[k])
                && holds_only(rest[k], kind) by {
                assert(rest[k] == parts[k]);
            }
            lemma_spaced(rest, kind);
            let head = spaced(rest);
            let n = head.len() as int;
            assert forall|i: int| 0 <= i < s.len() implies kind(#[trigger] s[i]) by {
                if i < n {
                    assert(s[i] == head[i]);
                } else if i > n {
                    assert(s[i] == w[i - n - 1]);
                }
            }
            assert forall|i: int| 0 <= i < s.len() && whitespace(#[trigger] s[i]) implies s[i]
                == ' ' && 0 < i < s.len() - 1 && !whitespace(s[i - 1]) && !whitespace(s[i + 1]) by {
                if i < n {
                    assert(s[i] == head[i]);
                    assert(s[i - 1] == head[i - 1] && s[i + 1] == head[i + 1]);
                } else if i == n {
                    assert(s[i - 1] == head.last());
                    assert(s[i + 1] == w[0]);
                } else {
                    assert(s[i] == w[i - n - 1]);
                }
            }
            assert(s.last() == w[w.len() - 1]);
        }
    }
}

/// The first `n` characters of `s`, followed by an ellipsis if more were there.
pub open spec fn shortened(s: Seq<char>, n: int) -> Seq<char> {
    if s.len() <= n {
        s
    } else {
        s.take(n).push('\u{2026}')
    }
}

/// Shorten `s` to its first `n` characters and an ellipsis; a text of at most
/// `n` characters stays as it is.
pub fn truncate(s: &str, n: usize) -> (r: String)
    ensures
        r@ == shortened(s@, n as int),
{
    let x = chars_of(s);
    if x.len() <= n {
        s.to_owned()
    } else {
        let mut out = String::new();
        let mut i: usize = 0;
        while i < n
            invariant
                i <= n < x.len(),
                x@ == s@,
                out@ == s@.take(i as int),
            decreases n - i,
        {
            out.push(x[i]);
            assert(s@.take(i + 1) == s@.take(i as int).push(s@[i as int]));
            i += 1;
        }
        out.push('\u{2026}');
        out
    }
}

/// `std::str::from_utf8`: the text that `bytes` encode, or `None` where they
/// are not valid UTF-8.
#[verifier::external_body]
pub(crate) fn decode(bytes: &[u8]) -> (r: Option<&str>)
    ensures
        match r {
            Some(s) => valid_utf8(bytes@) && s@ == decode_utf8(bytes@),
            None => !valid_utf8(bytes@),
        },
{
    std::str::from_utf8(bytes).ok()
}

/// The text that `String::from_utf8_lossy` makes of `bytes`, with U+FFFD in
/// place of what is not valid UTF-8.
pub uninterp spec fn lossy_text(bytes: Seq<u8>) -> Seq<char>;

/// `String::from_utf8_lossy`: on valid UTF-8 the text that `bytes` encode, and
/// always [`lossy_text`].
#[verifier::external_body]
pub(crate) fn decode_lossy(bytes: &[u8]) -> (r: String)
    ensures
        r@ == lossy_text(bytes@),
        valid_utf8(bytes@) ==> r@ == decode_utf8(bytes@),
{
    String::from_utf8_lossy(bytes).into_owned()
}

/// What `str::to_lowercase` makes of `s`: the Unicode small-case mapping.
pub uninterp spec fn unicode_lower(s: Seq<char>) -> Seq<char>;

/// Whether `s` holds only ASCII characters.
pub open spec fn ascii_only(s: Seq<char>) -> bool {
    forall|i: int| 0 <= i < s.len() ==> #[trigger] s[i] <= '\u{7f}'
}

/// `s` in small letters.
pub open spec fn lower(s: Seq<char>) -> Seq<char> {
    if ascii_only(s) {
        folded(s)
    } else {
        unicode_lower(s)
    }
}

/// `str::to_lowercase`, under the name [`unicode_lower`]. On ASCII text it
/// changes the letters `A` to `Z` and nothing else.
#[verifier::external_body]
pub(crate) fn to_lowercase(s: &str) -> (r: String)
    ensures
        r@ == unicode_lower(s@),
        ascii_only(s@) ==> r@ == folded(s@),
{
    s.to_lowercase()
}

/// What `char::is_alphanumeric` says of `c`.
pub uninterp spec fn alphanumeric(c: char) -> bool;

/// Whether `c` is an ASCII letter or digit.
pub open spec fn ascii_alphanumeric(c: char) -> bool {
    ('0' <= c && c <= '9') || ('A' <= c && c <= 'Z') || ('a' <= c && c <= 'z')
}

/// `char::is_alphanumeric`, under the name [`alphanumeric`]. Of the ASCII
/// characters the letters and digits are alphanumeric, and no others.
#[verifier::external_body]
pub(crate) fn is_alphanumeric(c: char) -> (r: bool)
    ensures
        r == alphanumeric(c),
        c <= '\u{7f}' ==> r == ascii_alphanumeric(c),
{
    c.is_alphanumeric()
}

/// The decimal digit `d`.
pub open spec fn digit(d: nat) -> char {
    ((('0' as u8) + d) as u8) as char
}

/// `n` in decimal, without leading zeros.
pub open spec fn digits(n: nat) -> Seq<char>
    decreases n,
{
    if n < 10 {
        seq![digit(n)]
    } else {
        digits(n / 10).push(digit(n % 10))
    }
}

/// `n` in decimal, with a minus sign where it is negative.
pub open spec fn decimal(n: int) -> Seq<char> {
    if n < 0 {
        seq!['-'] + digits((-n) as nat)
    } else {
        digits(n as nat)
    }
}

/// The last character of `s` counts most where `s` is read from behind.
proof fn lemma_reverse_push<A>(s: Seq<A>, a: A)
    ensures
        s.push(a).reverse() == seq![a] + s.reverse(),
{
    assert(s.push(a).reverse() =~= seq![a] + s.reverse());
}

/// `n` in decimal.
pub fn u64_text(n: u64) -> (r: String)
    ensures
        r@ == digits(n as nat),
{
    let mut rev: Vec<char> = Vec::new();
    let mut rest: u64 = n;
    assert(rev@.reverse() == Seq::<char>::empty());
    assert(digits(n as nat) + rev@.reverse() == digits(n as nat));
    while rest >= 10
        invariant
            digits(rest as nat) + rev@.reverse() == digits(n as nat),
        decreases rest,
    {
        let d: char = (48 + (rest % 10) as u8) as char;
        assert(d == digit((rest % 10) as nat));
        let ghost before = rev@;
        rev.push(d);
        proof {
            lemma_reverse_push(before, d);
            assert(digits(rest as nat) == digits((rest / 10) as nat).push(d));
            assert(digits((rest / 10) as nat) + (seq![d] + before.reverse()) == digits(
                (rest / 10) as nat,
            ).push(d) + before.reverse());
        }
        rest = rest / 10;
    }
    let d: char = (48 + rest as u8) as char;
    assert(d == digit(rest as nat));
    let ghost before = rev@;
    rev.push(d);
    proof {
        lemma_reverse_push(before, d);
        assert(digits(rest as nat) == seq![d]);
    }
    let mut out = String::new();
    let mut k: usize = rev.len();
    while k > 0
        invariant
            k <= rev.len(),
            out@ == rev@.reverse().take(rev.len() - k),
        decreases k,
    {
        k -= 1;
        out.push(rev[k]);
        assert(rev@.reverse().take(rev.len() - k) == rev@.reverse().take(rev.len() - k - 1).push(
            rev@[k as int],
        ));
    }
    assert(rev@.reverse().take(rev.len() as int) == rev@.reverse());
    out
}

/// `n` in decimal.
pub fn i64_text(n: i64) -> (r: String)
    ensures
        r@ == decimal(n as int),
{
    if n < 0 {
        let size: u64 = if n == i64::MIN {
            9_223_372_036_854_775_808
        } else {
            (-n) as u64
        };
        let mut out = String::new();
        out.push('-');
        let body = u64_text(size);
        out.append(body.as_str());
        assert(out@ == seq!['-'] + digits(size as nat));
        out
    } else {
        u64_text(n as u64)
    }
}

/// Whether `s` holds nothing but decimal digits.
pub open spec fn all_digits(s: Seq<char>) -> bool {
    forall|i: int| 0 <= i < s.len() ==> '0' <= #[trigger] s[i] && s[i] <= '9'
}

/// The number that the digits `s` stand for.
pub open spec fn digits_value(s: Seq<char>) -> nat
    decreases s.len(),
{
    if s.len() == 0 {
        0
    } else {
        digits_value(s.drop_last()) * 10 + (s.last() as u8 - '0' as u8) as nat
    }
}

/// `s` without its sign.
pub open spec fn unsigned_part(s: Seq<char>) -> Seq<char> {
    if s.len() > 0 && (s[0] == '-' || s[0] == '+') {
        s.skip(1)
    } else {
        s
    }
}

/// The 64-bit integer that `s` stands for in decimal: an optional sign, then
/// digits. `None` where `s` has another form or the number does not fit.
pub open spec fn parsed(s: Seq<char>) -> Option<int> {
    let body = unsigned_part(s);
    let size = digits_value(body);
    let value = if s.len() > 0 && s[0] == '-' { -size } else { size as int };
    if body.len() > 0 && all_digits(body) && i64::MIN <= value <= i64::MAX {
        Some(value)
    } else {
        None
    }
}

/// More digits make no smaller number.
proof fn lemma_digits_value_monotonic(s: Seq<char>, n: int)
    requires
        0 <= n <= s.len(),
        all_digits(s),
    ensures
        digits_value(s.take(n)) <= digits_value(s),
    decreases s.len(),
{
    if n == s.len() {
        assert(s.take(n) == s);
    } else {
        lemma_digits_value_monotonic(s.drop_last(), n);
        assert(s.drop_last().take(n) == s.take(n));
    }
}

/// The 64-bit integer that `s` stands for in decimal.
pub fn parse_i64(s: &str) -> (r: Option<i64>)
    ensures
        match r {
            Some(n) => parsed(s@) == Some(n as int),
            None => parsed(s@) is None,
        },
{
    let x = chars_of(s);
    let signed = x.len() > 0 && (x[0] == '-' || x[0] == '+');
    let negative = x.len() > 0 && x[0] == '-';
    let start: usize = if signed {
        1
    } else {
        0
    };
    let ghost body = unsigned_part(s@);
    assert(body =~= x@.skip(start as int));
    if x.len() == start {
        return None;
    }
    let mut size: u128 = 0;
    let mut i: usize = start;
    assert(body.take(0) =~= Seq::<char>::empty());
    while i < x.len()
        invariant
            start <= i <= x.len(),
            x@ == s@,
            negative == (s@.len() > 0 && s@[0] == '-'),
            body == x@.skip(start as int),
            body == unsigned_part(s@),
            forall|j: int| 0 <= j < i - start ==> '0' <= #[trigger] body[j] && body[j] <= '9',
            size == digits_value(body.take(i - start)),
            size <= 9_223_372_036_854_775_808,
        decreases x.len() - i,
    {
        let c = x[i];
        assert(c == body[i - start]);
        if !('0' <= c && c <= '9') {
            return None;
        }
        let d: u128 = (c as u8 - 48) as u128;
        assert(body.take(i - start + 1).drop_last() =~= body.take(i - start));
        size = size * 10 + d;
        if size > 9_223_372_036_854_775_808 {
            proof {
                if all_digits(body) {
                    lemma_digits_value_monotonic(body, i - start + 1);
                }
            }
            return None;
        }
        i += 1;
    }
    assert(body.take(body.len() as int) =~= body);
    assert(all_digits(body));
    if negative {
        if size == 9_223_372_036_854_775_808 {
            Some(i64::MIN)
        } else {
            Some(-(size as i64))
        }
    } else if size == 9_223_372_036_854_775_808 {
        None
    } else {
        Some(size as i64)
    }
}

/// The digits of a number stand for that number.
proof fn lemma_digits_value(n: nat)
    ensures
        all_digits(digits(n)),
        digits(n).len() > 0,
        digits_value(digits(n)) == n,
    decreases n,
{
    if n < 10 {
        assert(digits(n).drop_last() =~= Seq::<char>::empty());
        assert(digits_value(digits(n).drop_last()) == 0);
        assert(digits(n).last() == digit(n));
    } else {
        lemma_digits_value(n / 10);
        assert(digits(n).drop_last() =~= digits(n / 10));
        assert(digits(n).last() == digit(n % 10));
    }
}

/// Reading the decimal text of a 64-bit integer gives the integer back.
pub proof fn decimal_round_trip(n: i64)
    ensures
        parsed(decimal(n as int)) == Some(n as int),
{
    let size: nat = if n < 0 { (-n) as nat } else { n as nat };
    lemma_digits_value(size);
    if n < 0 {
        assert(decimal(n as int).skip(1) =~= digits(size));
    } else {
        assert(decimal(n as int) == digits(size));
        assert('0' <= digits(size)[0] && digits(size)[0] <= '9');
    }
}

// ---- laws of text ----

/// ASCII case is all that folding removes: two texts are the same up to case if and
/// only if they are equally long, and any two characters at one place are equal or
/// the two cases of one of the letters `A` to `Z`.
pub proof fn folding_forgets_only_ascii_case(a: Seq<char>, b: Seq<char>)
    ensures
        same_folded(a, b) <==> a.len() == b.len() && forall|i: int|
            0 <= i < a.len() ==> {
                ||| #[trigger] a[i] == b[i]
                ||| 'A' <= a[i] && a[i] <= 'Z' && b[i] as int == a[i] as int + 32
                ||| 'A' <= b[i] && b[i] <= 'Z' && a[i] as int == b[i] as int + 32
            },
{
    assert(folded(a).len() == a.len() && folded(b).len() == b.len());
    assert forall|i: int| 0 <= i < a.len() && i < b.len() implies (folded(a)[i] == folded(b)[i])
        == {
        ||| #[trigger] a[i] == b[i]
        ||| 'A' <= a[i] && a[i] <= 'Z' && b[i] as int == a[i] as int + 32
        ||| 'A' <= b[i] && b[i] <= 'Z' && a[i] as int == b[i] as int + 32
    } by {
        assert(folded(a)[i] == ascii_lower(a[i]));
        assert(folded(b)[i] == ascii_lower(b[i]));
    }
    if same_folded(a, b) {
        assert forall|i: int| 0 <= i < a.len() implies {
            ||| #[trigger] a[i] == b[i]
            ||| 'A' <= a[i] && a[i] <= 'Z' && b[i] as int == a[i] as int + 32
            ||| 'A' <= b[i] && b[i] <= 'Z' && a[i] as int == b[i] as int + 32
        } by {
            assert(folded(a)[i] == folded(b)[i]);
        }
    } else if a.len() == b.len() && (forall|i: int|
        0 <= i < a.len() ==> {
            ||| #[trigger] a[i] == b[i]
            ||| 'A' <= a[i] && a[i] <= 'Z' && b[i] as int == a[i] as int + 32
            ||| 'A' <= b[i] && b[i] <= 'Z' && a[i] as int == b[i] as int + 32
        }) {
        assert forall|i: int| 0 <= i < a.len() implies folded(a)[i] == folded(b)[i] by {
            assert(a[i] == a[i]);
        }
        assert(folded(a) =~= folded(b));
    }
}

/// Folded text is in small letters: it is as long as the text, the same text up to
/// ASCII case, and has none of the letters `A` to `Z`.
pub proof fn folded_has_no_capitals(s: Seq<char>, i: int)
    requires
        0 <= i < s.len(),
    ensures
        folded(s).len() == s.len(),
        !('A' <= folded(s)[i] && folded(s)[i] <= 'Z'),
        same_folded(folded(s), s),
        !('A' <= s[i] && s[i] <= 'Z') ==> folded(s)[i] == s[i],
        'A' <= s[i] && s[i] <= 'Z' ==> folded(s)[i] as int == s[i] as int + 32,
{
    assert(folded(folded(s)) =~= folded(s));
}

/// A text stands in another one if and only if that one is made of something, the
/// text, and something.
pub proof fn contained_text_is_a_part(s: Seq<char>, needle: Seq<char>)
    ensures
        has_text(s, needle) <==> exists|a: Seq<char>, b: Seq<char>|
            s == #[trigger] (a + needle + b),
{
    if has_text(s, needle) {
        let at = choose|at: int| found_at(s, needle, at);
        let a = s.take(at);
        let b = s.skip(at + needle.len());
        assert(s.subrange(at, at + needle.len()) == needle);
        assert(s =~= a + needle + b) by {
            assert forall|i: int| 0 <= i < s.len() implies s[i] == (a + needle + b)[i] by {
                if at <= i < at + needle.len() {
                    assert(s.subrange(at, at + needle.len())[i - at] == s[i]);
                }
            }
        }
    }
    if exists|a: Seq<char>, b: Seq<char>| s == #[trigger] (a + needle + b) {
        let (a, b) = choose|a: Seq<char>, b: Seq<char>| s == #[trigger] (a + needle + b);
        let at = a.len() as int;
        assert(s.subrange(at, at + needle.len()) =~= needle);
        assert(found_at(s, needle, at));
    }
}

/// White space are the code points 9 to 13, 32, 133, 160, 5760, 8192 to 8202, 8232,
/// 8233, 8239, 8287 and 12288, and no others.
pub proof fn whitespace_is_unicode_white_space(c: char)
    ensures
        whitespace(c) <==> {
            let n = c as int;
            ||| 9 <= n <= 13
            ||| n == 32 || n == 133 || n == 160 || n == 5760
            ||| 8192 <= n <= 8202
            ||| n == 8232 || n == 8233 || n == 8239 || n == 8287 || n == 12288
        },
{
}

proof fn lemma_words_split(a: Seq<char>, c: char, b: Seq<char>)
    requires
        whitespace(c),
    ensures
        words(a.push(c) + b) == words(a) + words(b),
    decreases b.len(),
{
    let s = a.push(c) + b;
    if b.len() == 0 {
        assert(s =~= a.push(c));
        assert(s.drop_last() =~= a);
        assert(words(a) + words(b) =~= words(a));
    } else {
        let rest = b.drop_last();
        lemma_words_split(a, c, rest);
        assert(s.drop_last() =~= a.push(c) + rest);
        assert(s.last() == b.last());
        let before = words(a) + words(rest);
        if whitespace(b.last()) {
        } else if b.len() == 1 {
            assert(s[s.len() - 2] == c);
            assert(rest =~= Seq::empty());
            assert(words(a) + words(b) =~= before.push(seq![b.last()]));
        } else {
            assert(s[s.len() - 2] == b[b.len() - 2]);
            if whitespace(b[b.len() - 2]) {
                assert(words(a) + words(b) =~= before.push(seq![b.last()]));
            } else {
                lemma_words(rest, |c: char| true);
                assert(rest.last() == b[b.len() - 2]);
                assert(words(rest).len() > 0);
                assert(before.last() == words(rest).last());
                assert(words(a) + words(b) =~= before.drop_last().push(
                    before.last().push(b.last()),
                ));
            }
        }
    }
}

/// What the words of a text are: nothing has no words, characters that are not white
/// space are one word, and white space separates the words before it from the words
/// behind it.
pub proof fn words_are_split_at_whitespace(a: Seq<char>, c: char, b: Seq<char>)
    ensures
        words(Seq::empty()) == Seq::<Seq<char>>::empty(),
        a.len() > 0 && (forall|i: int| 0 <= i < a.len() ==> !whitespace(#[trigger] a[i]))
            ==> words(a) == seq![a],
        whitespace(c) ==> words(a + seq![c] + b) == words(a) + words(b),
{
    if a.len() > 0 && (forall|i: int| 0 <= i < a.len() ==> !whitespace(#[trigger] a[i])) {
        lemma_words_append(Seq::empty(), a);
        assert(Seq::<char>::empty() + a =~= a);
        assert(words(Seq::<char>::empty()).push(a) =~= seq![a]);
    }
    if whitespace(c) {
        lemma_words_split(a, c, b);
        assert(a + seq![c] + b =~= a.push(c) + b);
    }
}

/// A text is blank if and only if it has no words.
pub proof fn blank_text_has_no_words(s: Seq<char>)
    ensures
        blank(s) <==> words(s).len() == 0,
        (exists|i: int| 0 <= i < s.len() && !whitespace(#[trigger] s[i])) ==> !blank(s),
    decreases s.len(),
{
    if s.len() > 0 {
        let rest = s.drop_last();
        blank_text_has_no_words(rest);
        if blank(rest) && whitespace(s.last()) {
            assert forall|i: int| 0 <= i < s.len() implies whitespace(#[trigger] s[i]) by {
                if i < rest.len() {
                    assert(rest[i] == s[i]);
                }
            }
        }
        if blank(s) {
            assert(whitespace(s[s.len() - 1]));
            assert forall|i: int| 0 <= i < rest.len() implies whitespace(#[trigger] rest[i]) by {
                assert(rest[i] == s[i]);
            }
        }
        lemma_words(rest, |c: char| true);
        lemma_words(s, |c: char| true);
    }
}

/// Joining by spaces is what its name says: no piece gives nothing, one piece itself,
/// and two lists of pieces the text of the one, a space, and the text of the other.
pub proof fn joining_puts_one_space_between(a: Seq<Seq<char>>, w: Seq<char>, b: Seq<Seq<char>>)
    ensures
        spaced(Seq::empty()) == Seq::<char>::empty(),
        spaced(seq![w]) == w,
        a.len() > 0 && b.len() > 0 ==> spaced(a + b) == spaced(a) + seq![' '] + spaced(b),
    decreases b.len(),
{
    if a.len() > 0 && b.len() > 0 {
        let rest = b.drop_last();
        assert((a + b).drop_last() =~= a + rest);
        assert((a + b).last() == b.last());
        if rest.len() == 0 {
            assert(a + rest =~= a);
            assert(b[0] == b.last());
            assert(spaced(a).push(' ') + b.last() =~= spaced(a) + seq![' '] + spaced(b));
        } else {
            joining_puts_one_space_between(a, w, rest);
            assert(spaced(a + b) =~= spaced(a) + seq![' '] + spaced(b));
        }
    }
}

/// A text that is short enough is not shortened; of a longer one the first characters
/// are left, all of them as they were, and one ellipsis behind them.
pub proof fn shortening_keeps_the_beginning(s: Seq<char>, n: nat)
    ensures
        s.len() <= n ==> shortened(s, n as int) == s,
        s.len() > n ==> {
            &&& shortened(s, n as int).len() == n + 1
            &&& forall|i: int| 0 <= i < n ==> #[trigger] shortened(s, n as int)[i] == s[i]
            &&& shortened(s, n as int)[n as int] == '\u{2026}'
        },
{
}

/// Decimal numbers are written as everyone writes them: a digit is itself, a further
/// digit is put behind the others, and a negative number has a minus sign before it.
pub proof fn decimal_is_positional(n: nat, d: nat)
    requires
        d < 10,
    ensures
        digits(d).len() == 1,
        digits(d)[0] as int == 48 + d,
        n > 0 ==> digits(10 * n + d).len() == digits(n).len() + 1,
        n > 0 ==> digits(10 * n + d) == digits(n).push(digits(d)[0]),
        decimal(n as int) == digits(n),
        n > 0 ==> decimal(-(n as int)) == seq!['-'] + digits(n),
{
    if n > 0 {
        assert((10 * n + d) / 10 == n && (10 * n + d) % 10 == d);
    }
}

proof fn lemma_digits_value_push(s: Seq<char>, c: char)
    ensures
        digits_value(s.push(c)) == digits_value(s) * 10 + (c as u8 - '0' as u8) as nat,
{
    assert(s.push(c).drop_last() =~= s);
}

/// Reading a number goes digit by digit: one digit is its value, and a digit behind a
/// number without a minus sign makes it ten times as much and the digit more.
pub proof fn parsing_is_positional(s: Seq<char>, c: char)
    requires
        '0' <= c,
        c <= '9',
    ensures
        parsed(seq![c]) == Some(c as int - 48),
        parsed(s) matches Some(v) ==> (s[0] != '-' && 10 * v + (c as int - 48) <= i64::MAX
            ==> parsed(s.push(c)) == Some(10 * v + (c as int - 48))),
        parsed(s) matches Some(v) ==> (s[0] == '-' && 10 * v - (c as int - 48) >= i64::MIN
            ==> parsed(s.push(c)) == Some(10 * v - (c as int - 48))),
{
    let one = seq![c];
    assert(one.drop_last() =~= Seq::empty());
    assert(digits_value(one.drop_last()) == 0);
    assert(unsigned_part(one) == one);
    if parsed(s) is Some {
        let body = unsigned_part(s);
        assert(s.len() > 0);
        assert(unsigned_part(s.push(c)) =~= body.push(c));
        lemma_digits_value_push(body, c);
        assert(all_digits(body.push(c)));
        assert(s.push(c)[0] == s[0]);
    }
}

/// What is not a sign and digits is not a number: nothing is not one, and neither is a
/// text with another character behind its first.
pub proof fn parsing_refuses_other_text(s: Seq<char>, i: int)
    ensures
        parsed(Seq::empty()) is None,
        0 <= i < s.len() && !('0' <= s[i] && s[i] <= '9') && (i > 0 || (s[0] != '-' && s[0] != '+'))
            ==> parsed(s) is None,
{
    if 0 <= i < s.len() && !('0' <= s[i] && s[i] <= '9') && (i > 0 || (s[0] != '-' && s[0]
        != '+')) {
        let body = unsigned_part(s);
        let k = if s[0] == '-' || s[0] == '+' { i - 1 } else { i };
        assert(body[k] == s[i]);
    }
}

/// A sign stands before the digits: a plus sign changes nothing, a minus sign makes the
/// number negative, and a sign alone is no number.
pub proof fn sign_stands_before_the_digits(c: char)
    requires
        '0' <= c,
        c <= '9',
    ensures
        parsed(seq!['+', c]) == Some(c as int - 48),
        parsed(seq!['-', c]) == Some(-(c as int - 48)),
        parsed(seq!['+']) is None,
        parsed(seq!['-']) is None,
{
    let one = seq![c];
    assert(seq!['+', c].skip(1) =~= one);
    assert(seq!['-', c].skip(1) =~= one);
    assert(one.drop_last() =~= Seq::empty());
    assert(digits_value(one.drop_last()) == 0);
    assert(seq!['+'].skip(1).len() == 0);
    assert(seq!['-'].skip(1).len() == 0);
}

/// A number that 64 bits cannot hold is not read at all.
pub proof fn numbers_beyond_64_bits_are_refused(s: Seq<char>, c: char)
    requires
        '0' <= c,
        c <= '9',
        parsed(s) is Some,
    ensures
        i64::MIN <= parsed(s)->0 <= i64::MAX,
        s[0] != '-' && 10 * parsed(s)->0 + (c as int - 48) > i64::MAX ==> parsed(s.push(c)) is None,
        s[0] == '-' && 10 * parsed(s)->0 - (c as int - 48) < i64::MIN ==> parsed(s.push(c)) is None,
{
    let body = unsigned_part(s);
    assert(unsigned_part(s.push(c)) =~= body.push(c));
    lemma_digits_value_push(body, c);
    assert(s.push(c)[0] == s[0]);
}

} // verus!
