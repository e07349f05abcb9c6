use vstd::prelude::*;

use crate::name::{display_name_of, format_name};
use crate::style::{bold, dimmed, line_text, plain, tinted, Emphasis, Line, LineView, Span, Tint};

verus! {

/// What the index-to-worktree comparison found for a tracked entry.
#[derive(Clone, Copy, Debug, PartialEq, Eq, Structural)]
pub enum EntryState {
    /// The entry is in a merge conflict.
    Conflict,
    /// The entry's content or mode changed.
    Change,
    /// The entry was added with `--intent-to-add`.
    IntentToAdd,
    /// Nothing changed; only the entry's cached stat is stale.
    NeedsUpdate,
}

/// One change in a submodule's worktree.
#[derive(Debug)]
pub enum Change {
    /// A tracked path whose worktree state differs from the index.
    Modification { path: String, state: EntryState },
    /// A path found on disk that the index does not track.
    Untracked { path: String },
    /// A rename or copy from `source` to `destination`.
    Rewrite { source: String, destination: String },
}

/// How a submodule's worktree compares with what its parent records.
#[derive(Clone, Copy, Debug, PartialEq, Eq, Structural)]
pub enum Condition {
    Dirty,
    Clean,
    /// The repository exists but its state could not be told.
    Unknown,
    /// The submodule's repository has not been set up locally.
    Uninitialized,
}

pub open spec fn indent() -> Seq<char> {
    "    "@
}

pub open spec fn arrow() -> Seq<char> {
    " -> "@
}

pub open spec fn gap() -> Seq<char> {
    " "@
}

/// The line shown for one change, or `None` where the change is not shown.
pub open spec fn change_line_of(c: Change) -> Option<LineView> {
    match c {
        Change::Modification { path, state } => match state {
            EntryState::Conflict => Some(seq![(indent(), plain()), (path@, tinted(Tint::Red, true))]),
            EntryState::NeedsUpdate => None,
            _ => Some(seq![(indent(), plain()), (path@, tinted(Tint::Yellow, true))]),
        },
        Change::Untracked { path } => Some(seq![(indent(), plain()), (path@, tinted(Tint::Red, false))]),
        Change::Rewrite { source, destination } => Some(
            seq![(indent(), plain()), (source@, bold()), (arrow(), plain()), (destination@, bold())],
        ),
    }
}

/// Shows the line of a single worktree change.
///
/// Conflicts are bold red, other modifications bold yellow, untracked paths
/// red, and renames or copies read `source -> destination` in bold. An entry
/// whose only difference is a stale stat gives no line.
pub fn display_change(change: &Change) -> (r: Option<Line>)
    ensures
        r matches Some(l) ==> change_line_of(*change) == Some(l@),
        r is None ==> change_line_of(*change) is None,
{
    let mut line = Line::new();
    match change {
        Change::Modification { path, state } => {
            let e = match state {
                EntryState::Conflict => Emphasis { tint: Some(Tint::Red), bold: true, dimmed: false },
                EntryState::NeedsUpdate => {
                    return None;
                },
                _ => Emphasis { tint: Some(Tint::Yellow), bold: true, dimmed: false },
            };
            line.push(Span::new("    ", Emphasis { tint: None, bold: false, dimmed: false }));
            line.push(Span::new(path.as_str(), e));
        },
        Change::Untracked { path } => {
            line.push(Span::new("    ", Emphasis { tint: None, bold: false, dimmed: false }));
            line.push(
                Span::new(path.as_str(), Emphasis { tint: Some(Tint::Red), bold: false, dimmed: false }),
            );
        },
        Change::Rewrite { source, destination } => {
            line.push(Span::new("    ", Emphasis { tint: None, bold: false, dimmed: false }));
            line.push(Span::new(source.as_str(), Emphasis { tint: None, bold: true, dimmed: false }));
            line.push(Span::new(" -> ", Emphasis { tint: None, bold: false, dimmed: false }));
            line.push(
                Span::new(destination.as_str(), Emphasis { tint: None, bold: true, dimmed: false }),
            );
        },
    }
    assert(change_line_of(*change) == Some(line@)) by {
        assert(change_line_of(*change).unwrap() =~= line@);
    }
    Some(line)
}

/// The lines shown for a sequence of changes, in order, leaving out those
/// that are not shown.
pub open spec fn change_lines_of(s: Seq<Change>) -> Seq<LineView>
    decreases s.len(),
{
    if s.len() == 0 {
        Seq::empty()
    } else {
        match change_line_of(s.last()) {
            Some(l) => change_lines_of(s.drop_last()).push(l),
            None => change_lines_of(s.drop_last()),
        }
    }
}

pub open spec fn header_line() -> LineView {
    seq![("  changes:"@, plain())]
}

/// The report on a submodule's changes: nothing when there are none, else a
/// header followed by the line of each change that is shown.
pub open spec fn change_report_of(s: Seq<Change>) -> Seq<LineView> {
    if s.len() == 0 {
        Seq::empty()
    } else {
        seq![header_line()] + change_lines_of(s)
    }
}

/// Renders the changes of a submodule: a header, then one indented line
/// per change that is shown. No changes give no lines at all.
pub fn change_report(changes: &Vec<Change>) -> (r: Vec<Line>)
    ensures
        r@.map_values(|l: Line| l@) == change_report_of(changes@),
{
    let mut out: Vec<Line> = Vec::new();
    if changes.len() == 0 {
        assert(out@.map_values(|l: Line| l@) =~= change_report_of(changes@));
        return out;
    }
    let mut header = Line::new();
    header.push(Span::new("  changes:", Emphasis { tint: None, bold: false, dimmed: false }));
    out.push(header);
    assert(out@.map_values(|l: Line| l@) =~= seq![header_line()]);
    let mut i: usize = 0;
    while i < changes.len()
        invariant
            i <= changes@.len(),
            out@.map_values(|l: Line| l@) == seq![header_line()] + change_lines_of(
                changes@.subrange(0, i as int),
            ),
        decreases changes@.len() - i,
    {
        let ghost before = out@;
        let c = &changes[i];
        assert(changes@.subrange(0, i + 1).drop_last() =~= changes@.subrange(0, i as int));
        match display_change(c) {
            Some(l) => {
                out.push(l);
                assert(out@.map_values(|l: Line| l@) =~= before.map_values(|l: Line| l@).push(
                    l@,
                ));
            },
            None => {},
        }
        i = i + 1;
    }
    assert(changes@.subrange(0, changes@.len() as int) =~= changes@);
    out
}

/// The condition of a submodule, from whether its worktree is dirty (when
/// that could be told) and whether its repository exists.
pub open spec fn condition_of(is_dirty: Option<bool>, repository_exists: bool) -> Condition {
    match is_dirty {
        Some(true) => Condition::Dirty,
        Some(false) => Condition::Clean,
        None => if repository_exists {
            Condition::Unknown
        } else {
            Condition::Uninitialized
        },
    }
}

/// Tells dirty, clean, unknown and uninitialised submodules apart.
pub fn classify(is_dirty: Option<bool>, repository_exists: bool) -> (r: Condition)
    ensures
        r == condition_of(is_dirty, repository_exists),
{
    match is_dirty {
        Some(true) => Condition::Dirty,
        Some(false) => Condition::Clean,
        None => if repository_exists {
            Condition::Unknown
        } else {
            Condition::Uninitialized
        },
    }
}

/// The word that names a condition, with its emphasis.
pub open spec fn condition_word_of(c: Condition) -> (Seq<char>, Emphasis) {
    match c {
        Condition::Dirty => ("dirty"@, tinted(Tint::Yellow, true)),
        Condition::Clean => ("clean"@, tinted(Tint::Green, true)),
        Condition::Unknown => ("unknown"@, bold()),
        Condition::Uninitialized => ("uninitialized"@, dimmed(true)),
    }
}

/// Shows a condition as a word: dirty in bold yellow, clean in bold green,
/// unknown in bold, uninitialized dimmed and bold.
pub fn condition_word(c: Condition) -> (r: Span)
    ensures
        r@ == condition_word_of(c),
{
    match c {
        Condition::Dirty => Span::new(
            "dirty",
            Emphasis { tint: Some(Tint::Yellow), bold: true, dimmed: false },
        ),
        Condition::Clean => Span::new(
            "clean",
            Emphasis { tint: Some(Tint::Green), bold: true, dimmed: false },
        ),
        Condition::Unknown => Span::new("unknown", Emphasis { tint: None, bold: true, dimmed: false }),
        Condition::Uninitialized => Span::new(
            "uninitialized",
            Emphasis { tint: None, bold: true, dimmed: true },
        ),
    }
}

/// The emphasis of a submodule's name: bold, and blue as well when its
/// repository exists locally.
pub open spec fn name_emphasis(repository_exists: bool) -> Emphasis {
    if repository_exists {
        tinted(Tint::Blue, true)
    } else {
        bold()
    }
}

/// The short name of a submodule with its emphasis.
pub fn display_name(name: &str, repository_exists: bool) -> (r: Span)
    ensures
        r@ == (display_name_of(name@), name_emphasis(repository_exists)),
{
    let short = format_name(name);
    if repository_exists {
        Span::new(short, Emphasis { tint: Some(Tint::Blue), bold: true, dimmed: false })
    } else {
        Span::new(short, Emphasis { tint: None, bold: true, dimmed: false })
    }
}

/// The status line of a submodule: its name, its path and its condition.
pub open spec fn status_line_of(
    name: Seq<char>,
    path: Seq<char>,
    repository_exists: bool,
    is_dirty: Option<bool>,
) -> LineView {
    seq![
        (display_name_of(name), name_emphasis(repository_exists)),
        (gap(), plain()),
        (path, dimmed(false)),
        (gap(), plain()),
        condition_word_of(condition_of(is_dirty, repository_exists)),
    ]
}

/// Renders the status line of a submodule.
pub fn status_line(name: &str, path: &str, repository_exists: bool, is_dirty: Option<bool>) -> (r:
    Line)
    ensures
        r@ == status_line_of(name@, path@, repository_exists, is_dirty),
{
    let mut line = Line::new();
    line.push(display_name(name, repository_exists));
    line.push(Span::new(" ", Emphasis { tint: None, bold: false, dimmed: false }));
    line.push(Span::new(path, Emphasis { tint: None, bold: false, dimmed: true }));
    line.push(Span::new(" ", Emphasis { tint: None, bold: false, dimmed: false }));
    line.push(condition_word(classify(is_dirty, repository_exists)));
    assert(line@ =~= status_line_of(name@, path@, repository_exists, is_dirty));
    line
}

/// The listing line of a submodule: its name and its path.
pub open spec fn listing_line_of(name: Seq<char>, path: Seq<char>, repository_exists: bool) -> LineView {
    seq![
        (display_name_of(name), name_emphasis(repository_exists)),
        (gap(), plain()),
        (path, dimmed(false)),
    ]
}

/// Renders the listing line of a submodule.
pub fn listing_line(name: &str, path: &str, repository_exists: bool) -> (r: Line)
    ensures
        r@ == listing_line_of(name@, path@, repository_exists),
{
    let mut line = Line::new();
    line.push(display_name(name, repository_exists));
    line.push(Span::new(" ", Emphasis { tint: None, bold: false, dimmed: false }));
    line.push(Span::new(path, Emphasis { tint: None, bold: false, dimmed: true }));
    assert(line@ =~= listing_line_of(name@, path@, repository_exists));
    line
}

/// The line that announces a submodule set up by a clone.
pub open spec fn initialized_line_of(
    name: Seq<char>,
    path: Seq<char>,
    repository_exists: bool,
) -> LineView {
    seq![
        ("initialized"@, bold()),
        (gap(), plain()),
        (display_name_of(name), name_emphasis(repository_exists)),
        (gap(), plain()),
        ("at"@, bold()),
        (gap(), plain()),
        (path, dimmed(true)),
    ]
}

/// Renders the line that announces a submodule set up by a clone.
pub fn initialized_line(name: &str, path: &str, repository_exists: bool) -> (r: Line)
    ensures
        r@ == initialized_line_of(name@, path@, repository_exists),
{
    let mut line = Line::new();
    line.push(Span::new("initialized", Emphasis { tint: None, bold: true, dimmed: false }));
    line.push(Span::new(" ", Emphasis { tint: None, bold: false, dimmed: false }));
    line.push(display_name(name, repository_exists));
    line.push(Span::new(" ", Emphasis { tint: None, bold: false, dimmed: false }));
    line.push(Span::new("at", Emphasis { tint: None, bold: true, dimmed: false }));
    line.push(Span::new(" ", Emphasis { tint: None, bold: false, dimmed: false }));
    line.push(Span::new(path, Emphasis { tint: None, bold: true, dimmed: true }));
    assert(line@ =~= initialized_line_of(name@, path@, repository_exists));
    line
}

/// The lines of two runs of changes, one after the other, are the lines of
/// the first followed by those of the second.
proof fn lemma_change_lines_concat(a: Seq<Change>, b: Seq<Change>)
    ensures
        change_lines_of(a + b) == change_lines_of(a) + change_lines_of(b),
    decreases b.len(),
{
    if b.len() == 0 {
        assert(a + b =~= a);
        assert(change_lines_of(a) + change_lines_of(b) =~= change_lines_of(a));
    } else {
        assert((a + b).drop_last() =~= a + b.drop_last());
        assert((a + b).last() == b.last());
        lemma_change_lines_concat(a, b.drop_last());
        match change_line_of(b.last()) {
            Some(l) => {
                assert(change_lines_of(a) + change_lines_of(b) =~= (change_lines_of(a)
                    + change_lines_of(b.drop_last())).push(l));
            },
            None => {},
        }
    }
}

/// An entry whose only difference is a stale stat gives no line: a report
/// with it, wherever it stands, equals the report without it, as long as
/// other changes remain.
pub proof fn law_stale_entry_is_silent(before: Seq<Change>, path: String, after: Seq<Change>)
    requires
        before.len() + after.len() > 0,
    ensures
        change_line_of(Change::Modification { path, state: EntryState::NeedsUpdate }) is None,
        change_report_of(
            before + seq![Change::Modification { path, state: EntryState::NeedsUpdate }] + after,
        ) == change_report_of(before + after),
{
    let c = Change::Modification { path, state: EntryState::NeedsUpdate };
    let with = before + seq![c] + after;
    lemma_change_lines_concat(before + seq![c], after);
    lemma_change_lines_concat(before, seq![c]);
    lemma_change_lines_concat(before, after);
    assert(seq![c].drop_last() =~= Seq::<Change>::empty());
    assert(seq![c].last() == c);
    assert(change_lines_of(Seq::<Change>::empty()) =~= Seq::<LineView>::empty());
    assert(change_lines_of(seq![c]) =~= Seq::<LineView>::empty());
    assert(change_lines_of(before) + Seq::<LineView>::empty() =~= change_lines_of(before));
}

/// A rename or copy is shown as its source, an arrow and its destination, in
/// that order, after the indentation; both paths are bold.
pub proof fn law_rewrite_line(source: String, destination: String)
    ensures
        change_line_of(Change::Rewrite { source, destination }) is Some,
        line_text(change_line_of(Change::Rewrite { source, destination }).unwrap()) == indent()
            + source@ + " -> "@ + destination@,
        change_line_of(Change::Rewrite { source, destination }).unwrap()[1] == (source@, bold()),
        change_line_of(Change::Rewrite { source, destination }).unwrap()[3] == (
            destination@,
            bold(),
        ),
{
    let l = change_line_of(Change::Rewrite { source, destination }).unwrap();
    assert(l.drop_last().drop_last().drop_last().drop_last() =~= Seq::<(Seq<char>, Emphasis)>::empty());
    assert(line_text(l.drop_last().drop_last().drop_last().drop_last()) =~= Seq::<char>::empty());
    assert(line_text(l.drop_last().drop_last().drop_last()) =~= Seq::<char>::empty() + indent());
    assert(line_text(l.drop_last().drop_last()) =~= indent() + source@);
    assert(line_text(l.drop_last()) =~= indent() + source@ + " -> "@);
}

} // verus!
