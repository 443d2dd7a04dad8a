//! What the command line client asks of the service, and what it prints.

use vstd::prelude::*;
use vstd::string::*;

use crate::dto::{wire_values, EntryDto, SummaryDto, TargetDto};
use crate::text::{chars_of, decimal, digits, i64_text, same_folded, u64_text};
use crate::types::{is_plain_mime, optional_text, plain_mime, Target};

verus! {

broadcast use vstd::string::group_string_axioms;

/// A command of the client.
#[derive(Debug, Clone)]
pub enum Command {
    /// List recent entries.
    List { limit: i64 },
    /// Full-text search the history.
    Search { query: String, limit: i64 },
    /// Copy an entry back to the clipboard.
    Pick { id: i64, auto_paste: bool },
    /// Add standard input as a new entry.
    Add { mime: String },
    /// Delete entries.
    Delete { ids: Vec<i64> },
    /// Pin or unpin an entry.
    Pin { id: i64, unpin: bool },
    /// Clear all history.
    Clear,
    /// Pause or resume capture.
    Pause { off: bool },
    /// Lock the history.
    Lock,
    /// Print the state of the daemon.
    State,
    /// Print the plain text of an entry.
    Get { id: i64 },
}

/// A call of the service.
#[derive(Debug, Clone)]
pub enum Call {
    Query { offset: i64, limit: i64, group: Option<i64> },
    Search { query: String, limit: i64 },
    Pick { id: i64, auto_paste: bool },
    AddEntry { targets: Vec<TargetDto> },
    Delete { ids: Vec<i64> },
    SetPinned { id: i64, pinned: bool },
    Clear,
    Pause { paused: bool },
    Lock,
    State,
    GetEntry { id: i64 },
}

/// Whether `call` is what `cmd` asks of the service, with `input` on standard
/// input.
pub open spec fn asks(cmd: Command, input: Seq<u8>, call: Call) -> bool {
    match cmd {
        Command::List { limit } => call == (Call::Query { offset: 0, limit, group: None }),
        Command::Search { query, limit } => call == (Call::Search { query, limit }),
        Command::Pick { id, auto_paste } => call == (Call::Pick { id, auto_paste }),
        Command::Add { mime } => call matches Call::AddEntry { targets } && wire_values(targets@)
            == seq![Target { mime: mime@, bytes: input }],
        Command::Delete { ids } => call == (Call::Delete { ids }),
        Command::Pin { id, unpin } => call == (Call::SetPinned { id, pinned: !unpin }),
        Command::Clear => call == Call::Clear,
        Command::Pause { off } => call == (Call::Pause { paused: !off }),
        Command::Lock => call == Call::Lock,
        Command::State => call == Call::State,
        Command::Get { id } => call == (Call::GetEntry { id }),
    }
}

/// What `cmd` asks of the service, with `input` on standard input.
pub fn call_for(cmd: Command, input: Vec<u8>) -> (r: Call)
    ensures
        asks(cmd, input@, r),
{
    match cmd {
        Command::List { limit } => Call::Query { offset: 0, limit, group: None },
        Command::Search { query, limit } => Call::Search { query, limit },
        Command::Pick { id, auto_paste } => Call::Pick { id, auto_paste },
        Command::Add { mime } => {
            let mut targets: Vec<TargetDto> = Vec::new();
            let target = TargetDto { mime, bytes: input };
            let ghost value = target@;
            targets.push(target);
            assert(wire_values(targets@) =~= seq![value]);
            Call::AddEntry { targets }
        },
        Command::Delete { ids } => Call::Delete { ids },
        Command::Pin { id, unpin } => Call::SetPinned { id, pinned: !unpin },
        Command::Clear => Call::Clear,
        Command::Pause { off } => Call::Pause { paused: !off },
        Command::Lock => Call::Lock,
        Command::State => Call::State,
        Command::Get { id } => Call::GetEntry { id },
    }
}

// ---- the table of summaries ----

/// `s` with spaces behind it up to `width` characters.
pub open spec fn padded(s: Seq<char>, width: nat) -> Seq<char> {
    if s.len() >= width {
        s
    } else {
        s + Seq::new((width - s.len()) as nat, |i: int| ' ')
    }
}

/// `s` with a space in place of each line end.
pub open spec fn one_line(s: Seq<char>) -> Seq<char> {
    s.map_values(
        |c: char|
            if c == '\n' || c == '\r' {
                ' '
            } else {
                c
            },
    )
}

/// A line of the table: three columns, and the rest.
pub open spec fn table_line(
    first: Seq<char>,
    second: Seq<char>,
    third: Seq<char>,
    rest: Seq<char>,
) -> Seq<char> {
    padded(first, 8).push(' ') + padded(second, 8).push(' ') + padded(third, 5).push(' ')
        + rest.push('\n')
}

/// The line for a summary.
pub open spec fn summary_line(r: SummaryDto) -> Seq<char> {
    table_line(
        decimal(r.id as int),
        r.preview_kind@,
        digits(r.use_count as nat),
        match optional_text(r.preview_text) {
            Some(s) => one_line(s),
            None => Seq::empty(),
        },
    )
}

/// The table for `rows`: a heading, and a line for each.
pub open spec fn table(rows: Seq<SummaryDto>) -> Seq<char>
    decreases rows.len(),
{
    if rows.len() == 0 {
        table_line("ID"@, "KIND"@, "USE"@, "PREVIEW"@)
    } else {
        table(rows.drop_last()) + summary_line(rows.last())
    }
}

fn pad(s: &str, width: usize) -> (r: String)
    ensures
        r@ == padded(s@, width as nat),
{
    let x = chars_of(s);
    let mut out = s.to_owned();
    let mut n: usize = x.len();
    let ghost len = s@.len();
    while n < width
        invariant
            len == s@.len(),
            len <= n,
            n <= width || n == len,
            out@ == s@ + Seq::new((n - len) as nat, |i: int| ' '),
        decreases width - n,
    {
        out.push(' ');
        n += 1;
        assert(out@ =~= s@ + Seq::new((n - len) as nat, |i: int| ' '));
    }
    assert(out@ =~= padded(s@, width as nat));
    out
}

fn flatten(s: &str) -> (r: String)
    ensures
        r@ == one_line(s@),
{
    let x = chars_of(s);
    let mut out = String::new();
    let mut i: usize = 0;
    while i < x.len()
        invariant
            i <= x.len(),
            x@ == s@,
            out@ == one_line(x@.take(i as int)),
        decreases x.len() - i,
    {
        let c = if x[i] == '\n' || x[i] == '\r' {
            ' '
        } else {
            x[i]
        };
        out.push(c);
        assert(out@ =~= one_line(x@.take(i + 1)));
        i += 1;
    }
    assert(x@.take(x@.len() as int) == x@);
    out
}

fn line(first: &str, second: &str, third: &str, rest: &str) -> (r: String)
    ensures
        r@ == table_line(first@, second@, third@, rest@),
{
    let mut out = pad(first, 8);
    out.push(' ');
    out.append(pad(second, 8).as_str());
    out.push(' ');
    out.append(pad(third, 5).as_str());
    out.push(' ');
    out.append(rest);
    out.push('\n');
    assert(out@ =~= table_line(first@, second@, third@, rest@));
    out
}

/// The table that lists summaries: id, kind, number of uses, and preview.
pub fn summary_table(rows: &Vec<SummaryDto>) -> (r: String)
    ensures
        r@ == table(rows@),
{
    let mut out = line("ID", "KIND", "USE", "PREVIEW");
    let mut i: usize = 0;
    while i < rows.len()
        invariant
            i <= rows.len(),
            out@ == table(rows@.take(i as int)),
        decreases rows.len() - i,
    {
        let row = &rows[i];
        let preview = match &row.preview_text {
            Some(s) => flatten(s.as_str()),
            None => String::new(),
        };
        let text = line(
            i64_text(row.id).as_str(),
            row.preview_kind.as_str(),
            u64_text(row.use_count as u64).as_str(),
            preview.as_str(),
        );
        assert(preview@ =~= match optional_text(row.preview_text) {
            Some(s) => one_line(s),
            None => Seq::empty(),
        });
        out.append(text.as_str());
        assert(rows@.take(i + 1).drop_last() == rows@.take(i as int));
        assert(rows@.take(i + 1).last() == rows@[i as int]);
        i += 1;
    }
    assert(rows@.take(rows@.len() as int) == rows@);
    out
}

// ---- an entry ----

/// What is printed of an entry.
#[derive(Debug)]
pub enum Printout {
    /// The bytes of its plain text, as they are.
    Bytes(Vec<u8>),
    /// A line for each of its targets.
    Lines(String),
}

/// The position of the first plain-text target, if there is one.
pub open spec fn first_plain(targets: Seq<Target>) -> Option<int>
    decreases targets.len(),
{
    if targets.len() == 0 {
        None
    } else {
        match first_plain(targets.drop_last()) {
            Some(i) => Some(i),
            None => if plain_mime(targets.last().mime) {
                Some(targets.len() - 1)
            } else {
                None
            },
        }
    }
}

/// A line for each target: its mime, and how many bytes it has.
pub open spec fn target_lines(targets: Seq<Target>) -> Seq<char>
    decreases targets.len(),
{
    if targets.len() == 0 {
        Seq::empty()
    } else {
        target_lines(targets.drop_last()) + targets.last().mime + " ("@ + digits(
            targets.last().bytes.len(),
        ) + " bytes)"@ + seq!['\n']
    }
}

/// What is printed of an entry: the bytes of its first plain-text target, or a
/// line for each target where it has none.
pub fn print_entry(entry: &EntryDto) -> (r: Printout)
    ensures
        match first_plain(wire_values(entry.targets@)) {
            Some(i) => r matches Printout::Bytes(b) && b@ == wire_values(entry.targets@)[i].bytes,
            None => r matches Printout::Lines(s) && s@ == target_lines(wire_values(entry.targets@)),
        },
{
    let ghost all = wire_values(entry.targets@);
    let mut lines = String::new();
    let mut i: usize = 0;
    while i < entry.targets.len()
        invariant
            i <= entry.targets.len(),
            all == wire_values(entry.targets@),
            first_plain(all.take(i as int)) is None,
            lines@ == target_lines(all.take(i as int)),
        decreases entry.targets.len() - i,
    {
        let t = &entry.targets[i];
        proof {
            assert(all[i as int] == t@);
            assert(all.take(i + 1).drop_last() == all.take(i as int));
            assert(all.take(i + 1).last() == t@);
        }
        if is_plain_mime(t.mime.as_str()) {
            proof {
                lemma_first_plain(all, i + 1, i as int);
            }
            let bytes = t.bytes.clone();
            assert(bytes@ =~= t.bytes@);
            return Printout::Bytes(bytes);
        }
        lines.append(t.mime.as_str());
        lines.append(" (");
        lines.append(u64_text(t.bytes.len() as u64).as_str());
        lines.append(" bytes)");
        lines.push('\n');
        assert(lines@ =~= target_lines(all.take(i + 1)));
        i += 1;
    }
    assert(all.take(all.len() as int) == all);
    Printout::Lines(lines)
}

proof fn lemma_first_plain(all: Seq<Target>, n: int, at: int)
    requires
        0 <= n <= all.len(),
        first_plain(all.take(n)) == Some(at),
    ensures
        first_plain(all) == Some(at),
    decreases all.len(),
{
    if n < all.len() {
        assert(all.drop_last().take(n) == all.take(n));
        lemma_first_plain(all.drop_last(), n, at);
    } else {
        assert(all.take(n) == all);
    }
}

// ---- the popup ----

/// What the popup shows for an entry: its preview, or its kind in angle
/// brackets.
pub fn row_label(row: &SummaryDto) -> (r: String)
    ensures
        r@ == match optional_text(row.preview_text) {
            Some(s) => s,
            None => "<"@ + row.preview_kind@ + ">"@,
        },
{
    match &row.preview_text {
        Some(s) => s.clone(),
        None => "<".to_owned().concat(row.preview_kind.as_str()).concat(">"),
    }
}

/// What the popup shows below the list.
pub fn status_label(count: usize) -> (r: String)
    ensures
        r@ == digits(count as nat) + " entries"@,
{
    u64_text(count as u64).concat(" entries")
}

// ---- laws of what is printed ----

/// A command asks for what it says, with the values that it was given: a list for the
/// newest entries, `pin` for a pin unless it unpins, `pause` for a pause unless it is off,
/// and `add` for what was on standard input, byte for byte.
pub proof fn commands_ask_for_what_they_say(cmd: Command, input: Seq<u8>, call: Call)
    requires
        asks(cmd, input, call),
    ensures
        cmd matches Command::List { limit: n } ==> (call matches Call::Query {
            offset,
            limit,
            group,
        } && offset == 0 && limit == n && group is None),
        cmd matches Command::Search { query: q, limit: n } ==> (call matches Call::Search {
            query,
            limit,
        } && query@ == q@ && limit == n),
        cmd matches Command::Pick { id: k, auto_paste: p } ==> (call matches Call::Pick {
            id,
            auto_paste,
        } && id == k && auto_paste == p),
        cmd matches Command::Add { mime: m } ==> (call matches Call::AddEntry { targets }
            && targets@.len() == 1 && targets@[0].mime@ == m@ && targets@[0].bytes@ == input),
        cmd matches Command::Delete { ids: list } ==> (call matches Call::Delete { ids } && ids@
            == list@),
        cmd matches Command::Pin { id: k, unpin } ==> (call matches Call::SetPinned { id, pinned }
            && id == k && pinned != unpin),
        cmd is Clear ==> call is Clear,
        cmd matches Command::Pause { off } ==> (call matches Call::Pause { paused } && paused
            != off),
        cmd is Lock ==> call is Lock,
        cmd is State ==> call is State,
        cmd matches Command::Get { id: k } ==> (call matches Call::GetEntry { id } && id == k),
{
    if let Command::Add { mime } = cmd {
        if let Call::AddEntry { targets } = call {
            assert(wire_values(targets@).len() == targets@.len());
            assert(wire_values(targets@)[0] == targets@[0]@);
        }
    }
}

/// A column is as wide as it should be, or as wide as what stands in it: that comes first,
/// and spaces fill the rest.
pub proof fn column_is_filled_with_spaces(s: Seq<char>, width: nat, i: int)
    ensures
        padded(s, width).len() == if s.len() >= width {
            s.len()
        } else {
            width
        },
        0 <= i < s.len() ==> padded(s, width)[i] == s[i],
        s.len() <= i < width ==> padded(s, width)[i] == ' ',
{
}

/// A text in one line is as long as it was, with a space for each line end and all else as
/// it was.
pub proof fn line_ends_become_spaces(s: Seq<char>, i: int)
    requires
        0 <= i < s.len(),
    ensures
        one_line(s).len() == s.len(),
        s[i] == '\n' || s[i] == '\r' ==> one_line(s)[i] == ' ',
        s[i] != '\n' && s[i] != '\r' ==> one_line(s)[i] == s[i],
{
}

/// A line of the table holds its three columns, 8, 8 and 5 characters wide and with a space
/// behind each, then the rest and one line end.
pub proof fn table_line_has_fixed_columns(
    first: Seq<char>,
    second: Seq<char>,
    third: Seq<char>,
    rest: Seq<char>,
)
    requires
        first.len() <= 8,
        second.len() <= 8,
        third.len() <= 5,
    ensures
        table_line(first, second, third, rest).len() == 25 + rest.len(),
        table_line(first, second, third, rest).take(first.len() as int) == first,
        table_line(first, second, third, rest).subrange(9, 9int + second.len()) == second,
        table_line(first, second, third, rest).subrange(18, 18int + third.len()) == third,
        table_line(first, second, third, rest).subrange(24, 24int + rest.len()) == rest,
        table_line(first, second, third, rest).last() == '\n',
        forall|i: int|
            first.len() <= i < 9 || 9 + second.len() <= i < 18 || 18 + third.len() <= i < 24
                ==> #[trigger] table_line(first, second, third, rest)[i] == ' ',
{
    let line = table_line(first, second, third, rest);
    assert(line.take(first.len() as int) =~= first);
    assert(line.subrange(9, 9int + second.len()) =~= second);
    assert(line.subrange(18, 18int + third.len()) =~= third);
    assert(line.subrange(24, 24int + rest.len()) =~= rest);
}

/// Columns that are too narrow cut nothing off: what stands in a line is there whole, in
/// order, whatever its length.
pub proof fn table_line_cuts_nothing_off(
    first: Seq<char>,
    second: Seq<char>,
    third: Seq<char>,
    rest: Seq<char>,
)
    ensures
        table_line(first, second, third, rest) == padded(first, 8) + seq![' '] + padded(second, 8)
            + seq![' '] + padded(third, 5) + seq![' '] + rest + seq!['\n'],
{
    assert(table_line(first, second, third, rest) =~= padded(first, 8) + seq![' '] + padded(
        second,
        8,
    ) + seq![' '] + padded(third, 5) + seq![' '] + rest + seq!['\n']);
}

/// The line of an entry shows its id, its kind, how often it was used, and its preview in
/// one line.
pub proof fn entry_line_shows_id_kind_uses_and_preview(r: SummaryDto)
    ensures
        r.preview_text matches Some(s) ==> summary_line(r) == table_line(
            decimal(r.id as int),
            r.preview_kind@,
            digits(r.use_count as nat),
            one_line(s@),
        ),
        r.preview_text is None ==> summary_line(r) == table_line(
            decimal(r.id as int),
            r.preview_kind@,
            digits(r.use_count as nat),
            Seq::empty(),
        ),
{
}

/// The table is a heading, and a line for each entry in order.
pub proof fn table_has_a_line_for_each_entry(rows: Seq<SummaryDto>, r: SummaryDto)
    ensures
        table(Seq::empty()) == table_line("ID"@, "KIND"@, "USE"@, "PREVIEW"@),
        table(rows.push(r)) == table(rows) + summary_line(r),
{
    assert(rows.push(r).drop_last() =~= rows);
}

/// What is printed of an entry is its first target of the type `text/plain` or
/// `text/plain;charset=utf-8`, in any ASCII case, wherever in its list that stands.
pub proof fn first_plain_target_is_printed(targets: Seq<Target>, i: int)
    ensures
        first_plain(targets) == Some(i) <==> 0 <= i < targets.len() && (same_folded(
            targets[i].mime,
            "text/plain"@,
        ) || same_folded(targets[i].mime, "text/plain;charset=utf-8"@)) && forall|j: int|
            0 <= j < i ==> !same_folded((#[trigger] targets[j]).mime, "text/plain"@)
                && !same_folded(targets[j].mime, "text/plain;charset=utf-8"@),
        first_plain(targets) is None <==> forall|j: int|
            0 <= j < targets.len() ==> !same_folded((#[trigger] targets[j]).mime, "text/plain"@)
                && !same_folded(targets[j].mime, "text/plain;charset=utf-8"@),
    decreases targets.len(),
{
    if targets.len() > 0 {
        let rest = targets.drop_last();
        let n = targets.len() - 1;
        first_plain_target_is_printed(rest, i);
        assert forall|j: int| 0 <= j < rest.len() implies rest[j] == #[trigger] targets[j] by {}
        assert forall|j: int| 0 <= j < rest.len() implies #[trigger] rest[j] == targets[j] by {}
        if let Some(k) = first_plain(rest) {
            first_plain_target_is_printed(rest, k);
            assert(rest[k] == targets[k]);
        }
        assert(targets.last() == targets[n]);
    }
}

/// The lines for targets come one by one: the mime, and in brackets how many bytes there
/// are.
pub proof fn targets_are_printed_one_by_one(targets: Seq<Target>, t: Target)
    ensures
        target_lines(Seq::empty()) == Seq::<char>::empty(),
        target_lines(targets.push(t)) == target_lines(targets) + t.mime + " ("@ + digits(
            t.bytes.len(),
        ) + " bytes)"@ + seq!['\n'],
{
    assert(targets.push(t).drop_last() =~= targets);
}

// ---- laws of calls ----

/// What is printed of an entry with plain text is the bytes of its first plain-text target,
/// and of one without a line for each target.
pub proof fn printed_entry_is_its_text(entry: &EntryDto, r: Printout, i: int)
    requires
        call_ensures(print_entry, (entry,), r),
    ensures
        0 <= i < entry.targets@.len() && (same_folded(entry.targets@[i].mime@, "text/plain"@)
            || same_folded(entry.targets@[i].mime@, "text/plain;charset=utf-8"@)) && (forall|j: int|
            0 <= j < i ==> !same_folded((#[trigger] entry.targets@[j]).mime@, "text/plain"@)
                && !same_folded(entry.targets@[j].mime@, "text/plain;charset=utf-8"@)) ==> (
        r matches Printout::Bytes(b) && b@ == entry.targets@[i].bytes@),
        (forall|j: int|
            0 <= j < entry.targets@.len() ==> !same_folded(
                (#[trigger] entry.targets@[j]).mime@,
                "text/plain"@,
            ) && !same_folded(entry.targets@[j].mime@, "text/plain;charset=utf-8"@)) ==> (
        r matches Printout::Lines(s) && s@ == target_lines(wire_values(entry.targets@))),
{
    let all = wire_values(entry.targets@);
    assert(all.len() == entry.targets@.len());
    assert forall|j: int| 0 <= j < all.len() implies #[trigger] all[j]
        == entry.targets@[j]@ by {}
    assert forall|j: int| 0 <= j < all.len() implies all[j].mime == (
    #[trigger] entry.targets@[j]).mime@ by {}
    first_plain_target_is_printed(all, i);
}

/// The table that is printed is a heading, and a line for each row in order.
pub proof fn printed_table_has_each_row(rows: &Vec<SummaryDto>, r: String)
    requires
        call_ensures(summary_table, (rows,), r),
    ensures
        rows@.len() == 0 ==> r@ == table_line("ID"@, "KIND"@, "USE"@, "PREVIEW"@),
        rows@.len() > 0 ==> r@ == table(rows@.drop_last()) + summary_line(rows@.last()),
{
}

/// The popup shows the preview of an entry, or its kind where it has none, and how many
/// entries there are.
pub proof fn popup_shows_preview_or_kind(
    row: &SummaryDto,
    label: String,
    count: usize,
    status: String,
)
    requires
        call_ensures(row_label, (row,), label),
        call_ensures(status_label, (count,), status),
    ensures
        row.preview_text matches Some(s) ==> label@ == s@,
        row.preview_text is None ==> label@ == "<"@ + row.preview_kind@ + ">"@,
        status@ == digits(count as nat) + " entries"@,
{
}

} // verus!
