//! Human-readable text for issues, issue lists and blocked issues.
//!
//! Each renderer appends to a `String` the pieces that a spec function here
//! lists (see [`crate::output::Piece`]): exactly their texts with colors
//! off, and each painted piece as colored may render it with colors on.

use vstd::prelude::*;

use crate::domain::{
    Dependency, IssueKind, IssueStatus, Note, Timestamp, dep_type_name, kind_name, status_name,
    strings_view,
};
use crate::resource::{lemma_split_on_step, split_on};
use crate::issue::Issue;
use crate::output::{
    OutputConfig, Piece, code_bold, code_cyan, code_dimmed, code_magenta, code_yellow,
    colored_status_icon, colored_type_icon, colorize_id, colorize_labels, colorize_priority,
    colorize_status, dimmed, join_labels, kind_code, kind_icon_text, lemma_shows_concat,
    lemma_plain_concat, lemma_shows_one, lemma_shows_plain, lemma_shows_push, lemma_shows_rebase, lemma_shows_start,
    piece_shows, plain, priority_piece, priority_text, push_piece, push_piece_char, shows,
    status_code, status_icon_text,
};
use crate::text::{decimal, push_decimal, push_str, string_push, trim};

verus! {

/// Appends the characters of `s` to a `String`.
pub fn append(out: &mut String, s: &str)
    ensures
        final(out)@ == old(out)@ + s@,
{
    let v = crate::text::chars_of(s);
    let ghost start = out@;
    let mut i: usize = 0;
    while i < v.len()
        invariant
            i <= v@.len(),
            v@ == s@,
            out@ == start + v@.take(i as int),
        decreases v.len() - i,
    {
        string_push(out, v[i]);
        i += 1;
        assert(out@ =~= start + v@.take(i as int));
    }
    assert(v@.take(v@.len() as int) =~= v@);
}

/// Appends what `v` holds, written as the pieces `t`.
pub(crate) fn append_shown(out: &mut String, v: &Vec<char>, Ghost(t): Ghost<Seq<Piece>>, config: &OutputConfig)
    requires
        shows(Seq::<char>::empty(), t, *config, v@),
    ensures
        final(out)@ == old(out)@ + v@,
        shows(old(out)@, t, *config, final(out)@),
        !config.use_colors ==> final(out)@ == old(out)@ + plain(t),
{
    let ghost start = out@;
    let s = crate::text::string_of(v);
    append(out, s.as_str());
    proof {
        lemma_shows_rebase(start, Seq::<char>::empty(), t, *config, v@);
        assert(start + Seq::<char>::empty() =~= start);
        if !config.use_colors {
            lemma_shows_plain(start, t, *config, out@);
        }
    }
}

/// The `Assignee: {a}` line under an issue summary, when it has one.
pub open spec fn assignee_pieces(issue: Issue, indent: Seq<char>) -> Seq<Piece> {
    match issue.assignee {
        Some(a) => seq![
            Piece::Plain(indent),
            Piece::Paint("Assignee:"@, code_dimmed()),
            Piece::Plain(seq![' ']),
            Piece::Plain(a@),
            Piece::Plain(seq!['\n']),
        ],
        None => Seq::<Piece>::empty(),
    }
}

/// The `Labels: {labels}` line under an issue summary, when it has labels.
pub open spec fn labels_pieces(issue: Issue, indent: Seq<char>) -> Seq<Piece> {
    if issue.labels@.len() > 0 {
        seq![
            Piece::Plain(indent),
            Piece::Paint("Labels:"@, code_dimmed()),
            Piece::Plain(seq![' ']),
            Piece::Paint(join_labels(strings_view(issue.labels@)), code_magenta()),
            Piece::Plain(seq!['\n']),
        ]
    } else {
        Seq::<Piece>::empty()
    }
}

/// The assignee and labels lines under an issue summary.
pub open spec fn extras_pieces(issue: Issue, indent: Seq<char>) -> Seq<Piece> {
    assignee_pieces(issue, indent) + labels_pieces(issue, indent)
}

fn push_extras(v: &mut Vec<char>, issue: &Issue, indent: &str, config: &OutputConfig)
    ensures
        shows(old(v)@, extras_pieces(*issue, indent@), *config, final(v)@),
{
    let ghost start = v@;
    let ghost ta = assignee_pieces(*issue, indent@);
    proof {
        lemma_shows_start(start, ta, *config);
    }
    match &issue.assignee {
        Some(a) => {
            push_piece(v, indent, Ghost(start), Ghost(ta), Ghost(0int), config);
            let label = dimmed("Assignee:", config);
            push_piece(v, label.as_str(), Ghost(start), Ghost(ta), Ghost(1int), config);
            push_piece_char(v, ' ', Ghost(start), Ghost(ta), Ghost(2int), config);
            push_piece(v, a.as_str(), Ghost(start), Ghost(ta), Ghost(3int), config);
            push_piece_char(v, '\n', Ghost(start), Ghost(ta), Ghost(4int), config);
        },
        None => {},
    }
    assert(ta.take(ta.len() as int) =~= ta);
    let ghost mid = v@;
    let ghost tl = labels_pieces(*issue, indent@);
    proof {
        lemma_shows_start(mid, tl, *config);
    }
    if issue.labels.len() > 0 {
        push_piece(v, indent, Ghost(mid), Ghost(tl), Ghost(0int), config);
        let label = dimmed("Labels:", config);
        push_piece(v, label.as_str(), Ghost(mid), Ghost(tl), Ghost(1int), config);
        push_piece_char(v, ' ', Ghost(mid), Ghost(tl), Ghost(2int), config);
        let joined = colorize_labels(issue.labels.as_slice(), config);
        push_piece(v, joined.as_str(), Ghost(mid), Ghost(tl), Ghost(3int), config);
        push_piece_char(v, '\n', Ghost(mid), Ghost(tl), Ghost(4int), config);
    }
    assert(tl.take(tl.len() as int) =~= tl);
    proof {
        lemma_shows_concat(start, ta, tl, *config, mid, v@);
    }
}

/// The first line of an issue summary: `{status icon} {id} {kind icon}
/// P{n} {title}`.
pub open spec fn summary_head(issue: Issue, config: OutputConfig) -> Seq<Piece> {
    seq![
        Piece::Paint(status_icon_text(issue.status, config), status_code(issue.status)),
        Piece::Plain(seq![' ']),
        Piece::Paint(issue.id@, code_cyan()),
        Piece::Plain(seq![' ']),
        Piece::Paint(kind_icon_text(issue.issue_kind, config), kind_code(issue.issue_kind)),
        Piece::Plain(seq![' ']),
        priority_piece(issue.priority),
        Piece::Plain(seq![' ']),
        Piece::Plain(issue.title@),
        Piece::Plain(seq!['\n']),
    ]
}

/// One issue: its first line, then its assignee and labels, indented.
pub open spec fn issue_pieces(issue: Issue, config: OutputConfig) -> Seq<Piece> {
    summary_head(issue, config) + extras_pieces(issue, seq![' ', ' '])
}

/// Appends one issue summary.
pub fn print_issue_text(out: &mut String, issue: &Issue, config: &OutputConfig)
    ensures
        shows(old(out)@, issue_pieces(*issue, *config), *config, final(out)@),
        !config.use_colors ==> final(out)@ == old(out)@ + plain(issue_pieces(*issue, *config)),
{
    let mut v: Vec<char> = Vec::new();
    let ghost e = v@;
    let ghost t = summary_head(*issue, *config);
    proof {
        lemma_shows_start(e, t, *config);
    }
    let icon = colored_status_icon(issue.status, config);
    push_piece(&mut v, icon.as_str(), Ghost(e), Ghost(t), Ghost(0int), config);
    push_piece_char(&mut v, ' ', Ghost(e), Ghost(t), Ghost(1int), config);
    let id = colorize_id(issue.id.as_str(), config);
    push_piece(&mut v, id.as_str(), Ghost(e), Ghost(t), Ghost(2int), config);
    push_piece_char(&mut v, ' ', Ghost(e), Ghost(t), Ghost(3int), config);
    let kind = colored_type_icon(issue.issue_kind, config);
    push_piece(&mut v, kind.as_str(), Ghost(e), Ghost(t), Ghost(4int), config);
    push_piece_char(&mut v, ' ', Ghost(e), Ghost(t), Ghost(5int), config);
    let pr = colorize_priority(issue.priority, config);
    push_piece(&mut v, pr.as_str(), Ghost(e), Ghost(t), Ghost(6int), config);
    push_piece_char(&mut v, ' ', Ghost(e), Ghost(t), Ghost(7int), config);
    push_piece(&mut v, issue.title.as_str(), Ghost(e), Ghost(t), Ghost(8int), config);
    push_piece_char(&mut v, '\n', Ghost(e), Ghost(t), Ghost(9int), config);
    assert(t.take(t.len() as int) =~= t);
    let ghost mid = v@;
    push_extras(&mut v, issue, "  ", config);
    proof {
        reveal_strlit("  ");
        assert("  "@ =~= seq![' ', ' ']);
        lemma_shows_concat(e, t, extras_pieces(*issue, "  "@), *config, mid, v@);
        assert(e =~= Seq::<char>::empty());
    }
    append_shown(out, &v, Ghost(issue_pieces(*issue, *config)), config);
}

/// One row of an issue list: `{status icon} {id}  {kind icon}  P{n}  {title}`.
pub open spec fn row_pieces(issue: Issue, config: OutputConfig) -> Seq<Piece> {
    seq![
        Piece::Paint(status_icon_text(issue.status, config), status_code(issue.status)),
        Piece::Plain(seq![' ']),
        Piece::Paint(issue.id@, code_cyan()),
        Piece::Plain("  "@),
        Piece::Paint(kind_icon_text(issue.issue_kind, config), kind_code(issue.issue_kind)),
        Piece::Plain("  "@),
        priority_piece(issue.priority),
        Piece::Plain("  "@),
        Piece::Plain(issue.title@),
        Piece::Plain(seq!['\n']),
    ]
}

fn push_issue_row(v: &mut Vec<char>, issue: &Issue, config: &OutputConfig)
    ensures
        shows(old(v)@, row_pieces(*issue, *config), *config, final(v)@),
{
    let ghost start = v@;
    let ghost t = row_pieces(*issue, *config);
    proof {
        lemma_shows_start(start, t, *config);
    }
    let icon = colored_status_icon(issue.status, config);
    push_piece(v, icon.as_str(), Ghost(start), Ghost(t), Ghost(0int), config);
    push_piece_char(v, ' ', Ghost(start), Ghost(t), Ghost(1int), config);
    let id = colorize_id(issue.id.as_str(), config);
    push_piece(v, id.as_str(), Ghost(start), Ghost(t), Ghost(2int), config);
    push_piece(v, "  ", Ghost(start), Ghost(t), Ghost(3int), config);
    let kind = colored_type_icon(issue.issue_kind, config);
    push_piece(v, kind.as_str(), Ghost(start), Ghost(t), Ghost(4int), config);
    push_piece(v, "  ", Ghost(start), Ghost(t), Ghost(5int), config);
    let pr = colorize_priority(issue.priority, config);
    push_piece(v, pr.as_str(), Ghost(start), Ghost(t), Ghost(6int), config);
    push_piece(v, "  ", Ghost(start), Ghost(t), Ghost(7int), config);
    push_piece(v, issue.title.as_str(), Ghost(start), Ghost(t), Ghost(8int), config);
    push_piece_char(v, '\n', Ghost(start), Ghost(t), Ghost(9int), config);
    assert(t.take(t.len() as int) =~= t);
}

/// The rows of a list of issues.
pub open spec fn rows_pieces(issues: Seq<Issue>, config: OutputConfig) -> Seq<Piece>
    decreases issues.len(),
{
    if issues.len() == 0 {
        Seq::<Piece>::empty()
    } else {
        rows_pieces(issues.drop_last(), config) + row_pieces(issues.last(), config)
    }
}

/// An issue list: a note when empty, else a count line, a blank line and
/// one row per issue.
pub open spec fn issues_pieces(issues: Seq<Issue>, config: OutputConfig) -> Seq<Piece> {
    if issues.len() == 0 {
        seq![Piece::Plain("No issues found.\n"@)]
    } else {
        seq![Piece::Plain("Found "@ + decimal(issues.len()) + " issue(s):\n"@ + seq!['\n'])]
            + rows_pieces(issues, config)
    }
}

/// Appends a list of issues.
pub fn print_issues_text(out: &mut String, issues: &[Issue], config: &OutputConfig)
    ensures
        shows(old(out)@, issues_pieces(issues@, *config), *config, final(out)@),
        !config.use_colors ==> final(out)@ == old(out)@ + plain(issues_pieces(issues@, *config)),
{
    let mut v: Vec<char> = Vec::new();
    let ghost e = v@;
    if issues.len() == 0 {
        push_str(&mut v, "No issues found.\n");
        proof {
            lemma_shows_one(e, Piece::Plain("No issues found.\n"@), *config, v@);
            assert(e + v@ =~= v@);
        }
        append_shown(out, &v, Ghost(issues_pieces(issues@, *config)), config);
        return;
    }
    push_str(&mut v, "Found ");
    push_decimal(&mut v, issues.len() as u64);
    push_str(&mut v, " issue(s):\n");
    v.push('\n');
    let ghost head = v@;
    let ghost h = seq![Piece::Plain("Found "@ + decimal(issues@.len()) + " issue(s):\n"@ + seq!['\n'])];
    proof {
        assert(head =~= "Found "@ + decimal(issues@.len()) + " issue(s):\n"@ + seq!['\n']);
        lemma_shows_one(e, h[0], *config, head);
        assert(e + head =~= head);
        assert(seq![h[0]] =~= h);
        lemma_shows_start(head, rows_pieces(issues@, *config), *config);
        assert(issues@.take(0) =~= Seq::<Issue>::empty());
        assert(rows_pieces(issues@.take(0), *config) =~= rows_pieces(issues@, *config).take(0));
    }
    let mut i: usize = 0;
    while i < issues.len()
        invariant
            i <= issues@.len(),
            shows(head, rows_pieces(issues@.take(i as int), *config), *config, v@),
        decreases issues.len() - i,
    {
        let ghost before = v@;
        push_issue_row(&mut v, &issues[i], config);
        proof {
            let p = issues@.take(i as int + 1);
            assert(p.drop_last() =~= issues@.take(i as int));
            assert(p.last() == issues@[i as int]);
            lemma_shows_concat(
                head,
                rows_pieces(issues@.take(i as int), *config),
                row_pieces(issues@[i as int], *config),
                *config,
                before,
                v@,
            );
        }
        i += 1;
    }
    proof {
        assert(issues@.take(issues@.len() as int) =~= issues@);
        lemma_shows_concat(e, h, rows_pieces(issues@, *config), *config, head, v@);
    }
    append_shown(out, &v, Ghost(issues_pieces(issues@, *config)), config);
}

/// An issue blocked by others, with its blockers.
#[derive(Debug)]
pub struct BlockedIssue {
    /// The blocked issue.
    pub issue: Issue,
    /// The issues blocking it.
    pub blockers: Vec<Issue>,
}

/// One blocker: `{id} ({status})`.
pub open spec fn single_blocker_pieces(b: Issue) -> Seq<Piece> {
    seq![
        Piece::Paint(b.id@, code_cyan()),
        Piece::Plain(" ("@),
        Piece::Paint(status_name(b.status), status_code(b.status)),
        Piece::Plain(seq![')']),
    ]
}

/// The blockers, joined with `, `.
pub open spec fn blocker_pieces(blockers: Seq<Issue>) -> Seq<Piece>
    decreases blockers.len(),
{
    if blockers.len() == 0 {
        Seq::<Piece>::empty()
    } else if blockers.len() == 1 {
        single_blocker_pieces(blockers[0])
    } else {
        blocker_pieces(blockers.drop_last()) + seq![Piece::Plain(", "@)] + single_blocker_pieces(
            blockers.last(),
        )
    }
}

/// One blocked issue: its row, then `  Blocked by: {blockers}`.
pub open spec fn blocked_entry_pieces(b: BlockedIssue, config: OutputConfig) -> Seq<Piece> {
    row_pieces(b.issue, config) + seq![
        Piece::Plain("  "@),
        Piece::Paint("Blocked by:"@, code_dimmed()),
        Piece::Plain(seq![' ']),
    ] + blocker_pieces(b.blockers@) + seq![Piece::Plain(seq!['\n'])]
}

/// The entries of a list of blocked issues.
pub open spec fn blocked_entries_pieces(bs: Seq<BlockedIssue>, config: OutputConfig) -> Seq<Piece>
    decreases bs.len(),
{
    if bs.len() == 0 {
        Seq::<Piece>::empty()
    } else {
        blocked_entries_pieces(bs.drop_last(), config) + blocked_entry_pieces(bs.last(), config)
    }
}

/// A list of blocked issues: a note when empty, else a count line, a blank
/// line and one entry per blocked issue.
pub open spec fn blocked_pieces(bs: Seq<BlockedIssue>, config: OutputConfig) -> Seq<Piece> {
    if bs.len() == 0 {
        seq![Piece::Plain("No blocked issues found.\n"@)]
    } else {
        seq![Piece::Plain("Found "@ + decimal(bs.len()) + " blocked issue(s):\n"@ + seq!['\n'])]
            + blocked_entries_pieces(bs, config)
    }
}

fn push_blocker(v: &mut Vec<char>, blocker: &Issue, config: &OutputConfig)
    ensures
        shows(old(v)@, single_blocker_pieces(*blocker), *config, final(v)@),
{
    let ghost start = v@;
    let ghost t = single_blocker_pieces(*blocker);
    proof {
        lemma_shows_start(start, t, *config);
    }
    let id = colorize_id(blocker.id.as_str(), config);
    push_piece(v, id.as_str(), Ghost(start), Ghost(t), Ghost(0int), config);
    push_piece(v, " (", Ghost(start), Ghost(t), Ghost(1int), config);
    let st = colorize_status(blocker.status, config);
    push_piece(v, st.as_str(), Ghost(start), Ghost(t), Ghost(2int), config);
    push_piece_char(v, ')', Ghost(start), Ghost(t), Ghost(3int), config);
    assert(t.take(t.len() as int) =~= t);
}

fn push_blocked_entry(v: &mut Vec<char>, b: &BlockedIssue, config: &OutputConfig)
    ensures
        shows(old(v)@, blocked_entry_pieces(*b, *config), *config, final(v)@),
{
    let ghost start = v@;
    push_issue_row(v, &b.issue, config);
    let ghost after_row = v@;
    let ghost t = seq![
        Piece::Plain("  "@),
        Piece::Paint("Blocked by:"@, code_dimmed()),
        Piece::Plain(seq![' ']),
    ];
    proof {
        lemma_shows_start(after_row, t, *config);
    }
    push_piece(v, "  ", Ghost(after_row), Ghost(t), Ghost(0int), config);
    let label = dimmed("Blocked by:", config);
    push_piece(v, label.as_str(), Ghost(after_row), Ghost(t), Ghost(1int), config);
    push_piece_char(v, ' ', Ghost(after_row), Ghost(t), Ghost(2int), config);
    proof {
        assert(t.take(t.len() as int) =~= t);
        lemma_shows_concat(start, row_pieces(b.issue, *config), t, *config, after_row, v@);
    }
    let ghost list_start = v@;
    let ghost lead = row_pieces(b.issue, *config) + t;
    proof {
        lemma_shows_start(list_start, blocker_pieces(b.blockers@), *config);
        assert(b.blockers@.take(0) =~= Seq::<Issue>::empty());
        assert(blocker_pieces(b.blockers@.take(0)) =~= blocker_pieces(b.blockers@).take(0));
    }
    let mut j: usize = 0;
    while j < b.blockers.len()
        invariant
            j <= b.blockers@.len(),
            shows(list_start, blocker_pieces(b.blockers@.take(j as int)), *config, v@),
        decreases b.blockers.len() - j,
    {
        let ghost before = v@;
        let ghost sep: Seq<Piece> = if j > 0 {
            seq![Piece::Plain(", "@)]
        } else {
            Seq::<Piece>::empty()
        };
        if j > 0 {
            push_str(v, ", ");
            proof {
                lemma_shows_one(before, Piece::Plain(", "@), *config, ", "@);
            }
        } else {
            proof {
                lemma_shows_start(before, sep, *config);
                assert(sep.take(0) =~= sep);
            }
        }
        let ghost after_sep = v@;
        push_blocker(v, &b.blockers[j], config);
        proof {
            let p = b.blockers@.take(j as int + 1);
            let run = single_blocker_pieces(b.blockers@[j as int]);
            assert(p.drop_last() =~= b.blockers@.take(j as int));
            assert(p.last() == b.blockers@[j as int]);
            lemma_shows_concat(before, sep, run, *config, after_sep, v@);
            lemma_shows_concat(
                list_start,
                blocker_pieces(b.blockers@.take(j as int)),
                sep + run,
                *config,
                before,
                v@,
            );
            if j == 0 {
                assert(p[0] == b.blockers@[0]);
                assert(blocker_pieces(b.blockers@.take(0)) =~= Seq::<Piece>::empty());
                assert(Seq::<Piece>::empty() + (sep + run) =~= blocker_pieces(p));
            } else {
                assert(blocker_pieces(b.blockers@.take(j as int)) + (sep + run) =~= blocker_pieces(p));
            }
        }
        j += 1;
    }
    assert(b.blockers@.take(b.blockers@.len() as int) =~= b.blockers@);
    let ghost before_nl = v@;
    v.push('\n');
    proof {
        lemma_shows_concat(start, lead, blocker_pieces(b.blockers@), *config, list_start, before_nl);
        lemma_shows_push(
            start,
            lead + blocker_pieces(b.blockers@),
            *config,
            before_nl,
            Piece::Plain(seq!['\n']),
            seq!['\n'],
        );
        assert(v@ =~= before_nl + seq!['\n']);
        assert((lead + blocker_pieces(b.blockers@)).push(Piece::Plain(seq!['\n']))
            =~= blocked_entry_pieces(*b, *config));
    }
}

/// Appends a list of blocked issues with their blockers.
pub fn print_blocked_text(out: &mut String, blocked: &[BlockedIssue], config: &OutputConfig)
    ensures
        shows(old(out)@, blocked_pieces(blocked@, *config), *config, final(out)@),
        !config.use_colors ==> final(out)@ == old(out)@ + plain(blocked_pieces(blocked@, *config)),
{
    let mut v: Vec<char> = Vec::new();
    let ghost e = v@;
    if blocked.len() == 0 {
        push_str(&mut v, "No blocked issues found.\n");
        proof {
            lemma_shows_one(e, Piece::Plain("No blocked issues found.\n"@), *config, v@);
            assert(e + v@ =~= v@);
        }
        append_shown(out, &v, Ghost(blocked_pieces(blocked@, *config)), config);
        return;
    }
    push_str(&mut v, "Found ");
    push_decimal(&mut v, blocked.len() as u64);
    push_str(&mut v, " blocked issue(s):\n");
    v.push('\n');
    let ghost head = v@;
    let ghost h = seq![
        Piece::Plain("Found "@ + decimal(blocked@.len()) + " blocked issue(s):\n"@ + seq!['\n']),
    ];
    proof {
        assert(head =~= "Found "@ + decimal(blocked@.len()) + " blocked issue(s):\n"@ + seq!['\n']);
        lemma_shows_one(e, h[0], *config, head);
        assert(e + head =~= head);
        assert(seq![h[0]] =~= h);
        lemma_shows_start(head, blocked_entries_pieces(blocked@, *config), *config);
        assert(blocked@.take(0) =~= Seq::<BlockedIssue>::empty());
        assert(blocked_entries_pieces(blocked@.take(0), *config) =~= blocked_entries_pieces(
            blocked@,
            *config,
        ).take(0));
    }
    let mut i: usize = 0;
    while i < blocked.len()
        invariant
            i <= blocked@.len(),
            shows(head, blocked_entries_pieces(blocked@.take(i as int), *config), *config, v@),
        decreases blocked.len() - i,
    {
        let ghost before = v@;
        push_blocked_entry(&mut v, &blocked[i], config);
        proof {
            let p = blocked@.take(i as int + 1);
            assert(p.drop_last() =~= blocked@.take(i as int));
            assert(p.last() == blocked@[i as int]);
            lemma_shows_concat(
                head,
                blocked_entries_pieces(blocked@.take(i as int), *config),
                blocked_entry_pieces(blocked@[i as int], *config),
                *config,
                before,
                v@,
            );
        }
        i += 1;
    }
    proof {
        assert(blocked@.take(blocked@.len() as int) =~= blocked@);
        lemma_shows_concat(e, h, blocked_entries_pieces(blocked@, *config), *config, head, v@);
    }
    append_shown(out, &v, Ghost(blocked_pieces(blocked@, *config)), config);
}

// ---------------------------------------------------------------------------
// Issue details
// ---------------------------------------------------------------------------

/// Drops one trailing carriage return.
pub open spec fn strip_cr(l: Seq<char>) -> Seq<char> {
    if l.len() > 0 && l.last() == '\r' {
        l.drop_last()
    } else {
        l
    }
}

/// `str::lines`: pieces between `\n`, each without a `\r` just before its
/// `\n`; a final empty piece is not a line.
pub open spec fn str_lines(s: Seq<char>) -> Seq<Seq<char>> {
    let parts = split_on(s, '\n');
    let n = parts.len();
    let kept: int = if parts[n - 1].len() == 0 {
        n - 1
    } else {
        n as int
    };
    Seq::new(
        kept as nat,
        |k: int|
            if k < n - 1 {
                strip_cr(parts[k])
            } else {
                parts[k]
            },
    )
}

fn strip_cr_chars(l: Vec<char>) -> (r: Vec<char>)
    ensures
        r@ == strip_cr(l@),
{
    let mut l = l;
    if l.len() > 0 && l[l.len() - 1] == '\r' {
        l.pop();
    }
    l
}

fn lines_of(s: &Vec<char>) -> (r: Vec<Vec<char>>)
    ensures
        r@.len() == str_lines(s@).len(),
        forall|k: int| 0 <= k < r@.len() ==> #[trigger] r@[k]@ == str_lines(s@)[k],
{
    let mut out: Vec<Vec<char>> = Vec::new();
    let mut cur: Vec<char> = Vec::new();
    let ghost mut done: Seq<Seq<char>> = Seq::empty();
    let mut j: usize = 0;
    proof {
        assert(s@.subrange(0, 0) =~= Seq::<char>::empty());
        assert(done.push(cur@) =~= seq![Seq::<char>::empty()]);
    }
    while j < s.len()
        invariant
            j <= s@.len(),
            split_on(s@.subrange(0, j as int), '\n') == done.push(cur@),
            out@.len() == done.len(),
            forall|k: int| 0 <= k < done.len() ==> #[trigger] out@[k]@ == strip_cr(done[k]),
        decreases s.len() - j,
    {
        proof {
            lemma_split_on_step(s@, j as int, '\n');
        }
        if s[j] == '\n' {
            let piece = cur;
            cur = Vec::new();
            let ghost pv = piece@;
            let stripped = strip_cr_chars(piece);
            out.push(stripped);
            proof {
                done = done.push(pv);
                assert(done.push(cur@) =~= split_on(s@.subrange(0, j as int), '\n').push(
                    Seq::<char>::empty(),
                ));
            }
        } else {
            cur.push(s[j]);
            proof {
                let pp = split_on(s@.subrange(0, j as int), '\n');
                assert(pp.update(pp.len() - 1, pp.last().push(s@[j as int])) =~= done.push(cur@));
            }
        }
        j += 1;
    }
    proof {
        assert(s@.subrange(0, s@.len() as int) =~= s@);
    }
    let ghost parts = done.push(cur@);
    if cur.len() > 0 {
        out.push(cur);
    }
    proof {
        let lines = str_lines(s@);
        assert(split_on(s@, '\n') == parts);
        assert(parts[parts.len() - 1] == cur@);
        assert forall|k: int| 0 <= k < out@.len() implies #[trigger] out@[k]@ == lines[k] by {
            if k < done.len() {
                assert(parts[k] == done[k]);
            }
        }
    }
    out
}

/// The lines textwrap's `wrap(line, width)` produces.
pub uninterp spec fn textwrap_lines(line: Seq<char>, width: usize) -> Seq<Seq<char>>;

/// textwrap's `wrap(line, width)` with default options, each line owned.
/// The lines are those [`textwrap_lines`] names; the crate documents that
/// text from a `&str` cannot make its computation overflow.
#[verifier::external_body]
fn wrap_line(line: &str, width: usize) -> (r: Vec<String>)
    ensures
        strings_view(r@) == textwrap_lines(line@, width),
{
    textwrap::wrap(line, width).into_iter().map(|l| l.into_owned()).collect()
}

/// Lines of `text` wrapped to `width`; blank lines stay as one empty line.
pub open spec fn wrap_all(lines: Seq<Seq<char>>, width: usize) -> Seq<Seq<char>>
    decreases lines.len(),
{
    if lines.len() == 0 {
        Seq::<Seq<char>>::empty()
    } else {
        wrap_all(lines.drop_last(), width) + if trim(lines.last()).len() == 0 {
            seq![Seq::<char>::empty()]
        } else {
            textwrap_lines(lines.last(), width)
        }
    }
}

/// The wrapped lines of a text.
pub open spec fn wrapped_text(text: Seq<char>, width: usize) -> Seq<Seq<char>> {
    wrap_all(str_lines(text), width)
}

/// Each line indented by two spaces.
pub open spec fn indented(lines: Seq<Seq<char>>) -> Seq<char>
    decreases lines.len(),
{
    if lines.len() == 0 {
        Seq::<char>::empty()
    } else {
        indented(lines.drop_last()) + seq![' ', ' '] + lines.last() + seq!['\n']
    }
}

/// A titled section: nothing for empty content, else a blank line, the
/// bold title and the content wrapped two columns narrower than `width`.
pub open spec fn section_pieces(title: Seq<char>, content: Seq<char>, width: usize) -> Seq<Piece> {
    if content.len() == 0 {
        Seq::<Piece>::empty()
    } else {
        seq![
            Piece::Plain(seq!['\n']),
            Piece::Paint(title, code_bold()),
            Piece::Plain(
                seq![':', '\n'] + indented(
                    wrapped_text(content, if width >= 2 { (width - 2) as usize } else { 0 }),
                ),
            ),
        ]
    }
}

/// An optional section: only when present.
pub open spec fn opt_section_pieces(title: Seq<char>, content: Option<Seq<char>>, width: usize) -> Seq<Piece> {
    match content {
        Some(c) => section_pieces(title, c, width),
        None => Seq::<Piece>::empty(),
    }
}

fn push_indented(v: &mut Vec<char>, lines: &Vec<Vec<char>>)
    ensures
        final(v)@ == old(v)@ + indented(lines@.map_values(|l: Vec<char>| l@)),
{
    let ghost start = v@;
    let ghost views = lines@.map_values(|l: Vec<char>| l@);
    let mut i: usize = 0;
    while i < lines.len()
        invariant
            i <= lines@.len(),
            views == lines@.map_values(|l: Vec<char>| l@),
            v@ == start + indented(views.take(i as int)),
        decreases lines.len() - i,
    {
        v.push(' ');
        v.push(' ');
        crate::text::push_all(v, &lines[i]);
        v.push('\n');
        proof {
            let p = views.take(i as int + 1);
            assert(p.drop_last() =~= views.take(i as int));
            assert(p.last() == lines@[i as int]@);
            assert(v@ =~= start + indented(p));
        }
        i += 1;
    }
    assert(views.take(lines@.len() as int) =~= views);
}

fn wrap_text_chars(text: &str, max_width: usize) -> (r: Vec<Vec<char>>)
    ensures
        r@.map_values(|l: Vec<char>| l@) == wrapped_text(text@, max_width),
{
    let chars = crate::text::chars_of(text);
    let lines = lines_of(&chars);
    let ghost lv = str_lines(text@);
    let mut out: Vec<Vec<char>> = Vec::new();
    let mut i: usize = 0;
    while i < lines.len()
        invariant
            i <= lines@.len(),
            lines@.len() == lv.len(),
            forall|k: int| 0 <= k < lines@.len() ==> #[trigger] lines@[k]@ == lv[k],
            out@.map_values(|l: Vec<char>| l@) == wrap_all(lv.take(i as int), max_width),
        decreases lines.len() - i,
    {
        let ghost before = out@.map_values(|l: Vec<char>| l@);
        let line = &lines[i];
        let ghost p = lv.take(i as int + 1);
        proof {
            assert(p.drop_last() =~= lv.take(i as int));
            assert(p.last() == lv[i as int]);
        }
        if crate::text::is_blank(line) {
            out.push(Vec::new());
            proof {
                assert(out@.map_values(|l: Vec<char>| l@) =~= before + seq![Seq::<char>::empty()]);
            }
        } else {
            let text_line = crate::text::string_of(line);
            let pieces = wrap_line(text_line.as_str(), max_width);
            let ghost pv = strings_view(pieces@);
            let mut k: usize = 0;
            while k < pieces.len()
                invariant
                    k <= pieces@.len(),
                    pv == strings_view(pieces@),
                    out@.map_values(|l: Vec<char>| l@) == before + pv.take(k as int),
                decreases pieces.len() - k,
            {
                let c = crate::text::chars_of(pieces[k].as_str());
                let ghost prev_map = out@.map_values(|l: Vec<char>| l@);
                assert(c@ == pv[k as int]);
                out.push(c);
                proof {
                    assert(out@.map_values(|l: Vec<char>| l@) =~= prev_map.push(c@));
                    assert(pv.take(k as int + 1) =~= pv.take(k as int).push(pv[k as int]));
                }
                k += 1;
                proof {
                    assert(out@.map_values(|l: Vec<char>| l@) =~= before + pv.take(k as int));
                }
            }
            proof {
                assert(pv.take(pieces@.len() as int) =~= pv);
            }
        }
        i += 1;
    }
    proof {
        assert(lv.take(lines@.len() as int) =~= lv);
    }
    out
}

/// Wraps each line of `text` to `max_width` columns; a blank line stays one
/// empty line, and line breaks in the text are kept.
pub fn wrap_text(text: &str, max_width: usize) -> (r: Vec<String>)
    ensures
        strings_view(r@) == wrapped_text(text@, max_width),
{
    let lines = wrap_text_chars(text, max_width);
    let ghost lv = lines@.map_values(|l: Vec<char>| l@);
    let mut out: Vec<String> = Vec::new();
    let mut i: usize = 0;
    while i < lines.len()
        invariant
            i <= lines@.len(),
            lv == lines@.map_values(|l: Vec<char>| l@),
            strings_view(out@) == lv.take(i as int),
        decreases lines.len() - i,
    {
        let s = crate::text::string_of(&lines[i]);
        let ghost before = strings_view(out@);
        out.push(s);
        proof {
            assert(strings_view(out@) =~= before.push(s@));
            assert(lv.take(i as int + 1) =~= lv.take(i as int).push(lv[i as int]));
        }
        i += 1;
    }
    proof {
        assert(lv.take(lines@.len() as int) =~= lv);
    }
    out
}

fn push_section(v: &mut Vec<char>, title: &str, content: &str, width: usize, config: &OutputConfig)
    ensures
        shows(old(v)@, section_pieces(title@, content@, width), *config, final(v)@),
        content@.len() == 0 ==> final(v)@ == old(v)@,
{
    let ghost start = v@;
    if content.unicode_len() == 0 {
        proof {
            lemma_shows_start(start, Seq::<Piece>::empty(), *config);
            assert(Seq::<Piece>::empty().take(0) =~= Seq::<Piece>::empty());
        }
        return;
    }
    let ghost t = section_pieces(title@, content@, width);
    proof {
        lemma_shows_start(start, t, *config);
    }
    push_piece_char(v, '\n', Ghost(start), Ghost(t), Ghost(0int), config);
    let b = crate::output::bold(title, config);
    push_piece(v, b.as_str(), Ghost(start), Ghost(t), Ghost(1int), config);
    let ghost before_body = v@;
    v.push(':');
    v.push('\n');
    let w = if width >= 2 {
        width - 2
    } else {
        0
    };
    let lines = wrap_text_chars(content, w);
    push_indented(v, &lines);
    proof {
        let body = seq![':', '\n'] + indented(wrapped_text(content@, w));
        assert(v@ =~= before_body + body);
        lemma_shows_push(start, t.take(2), *config, before_body, t[2], body);
        assert(t.take(2).push(t[2]) =~= t);
    }
}

/// Appends a titled section: nothing when `content` is empty, else a blank
/// line, the bold title and the content wrapped two columns narrower than
/// `width`.
pub fn print_text_section(out: &mut String, title: &str, content: &str, width: usize, config: &OutputConfig)
    ensures
        shows(old(out)@, section_pieces(title@, content@, width), *config, final(out)@),
        !config.use_colors ==> final(out)@ == old(out)@ + plain(
            section_pieces(title@, content@, width),
        ),
        content@.len() == 0 ==> final(out)@ == old(out)@,
{
    let mut v: Vec<char> = Vec::new();
    push_section(&mut v, title, content, width, config);
    append_shown(out, &v, Ghost(section_pieces(title@, content@, width)), config);
    assert(content@.len() == 0 ==> out@ =~= old(out)@);
}

/// Appends an optional titled section: nothing when absent or empty.
pub fn print_optional_section(
    out: &mut String,
    title: &str,
    content: &Option<String>,
    width: usize,
    config: &OutputConfig,
)
    ensures
        shows(
            old(out)@,
            opt_section_pieces(title@, crate::domain::opt_string_view(*content), width),
            *config,
            final(out)@,
        ),
        !config.use_colors ==> final(out)@ == old(out)@ + plain(
            opt_section_pieces(title@, crate::domain::opt_string_view(*content), width),
        ),
        (content.is_none() || content.unwrap()@.len() == 0) ==> final(out)@ == old(out)@,
{
    match content {
        Some(text) => print_text_section(out, title, text.as_str(), width, config),
        None => {
            proof {
                lemma_shows_start(out@, Seq::<Piece>::empty(), *config);
                assert(Seq::<Piece>::empty().take(0) =~= Seq::<Piece>::empty());
                assert(out@ + plain(Seq::<Piece>::empty()) =~= out@);
            }
        },
    }
}

/// The text chrono's `format("%Y-%m-%d %H:%M")` gives for a UTC instant;
/// `None` when chrono cannot represent the instant.
pub uninterp spec fn chrono_minute_text(secs: i64, nanos: u32) -> Option<Seq<char>>;

/// chrono's `DateTime::<Utc>::from_timestamp` followed by
/// `format("%Y-%m-%d %H:%M")`: the text [`chrono_minute_text`] names, or
/// `None` where chrono has no such instant.
#[verifier::external_body]
fn format_minute(ts: Timestamp) -> (r: Option<String>)
    ensures
        crate::domain::opt_string_view(r) == chrono_minute_text(ts.secs, ts.nanos),
{
    let t = chrono::DateTime::<chrono::Utc>::from_timestamp(ts.secs, ts.nanos)?;
    Some(t.format("%Y-%m-%d %H:%M").to_string())
}

/// An instant to the minute; nothing when chrono cannot represent it.
pub open spec fn minute_text(ts: Timestamp) -> Seq<char> {
    match chrono_minute_text(ts.secs, ts.nanos) {
        Some(t) => t,
        None => Seq::<char>::empty(),
    }
}

fn push_minute(v: &mut Vec<char>, ts: Timestamp)
    ensures
        final(v)@ == old(v)@ + minute_text(ts),
{
    match format_minute(ts) {
        Some(t) => push_str(v, t.as_str()),
        None => {},
    }
}

/// One dependency line: `  {arrow} {id} ({type})`, the arrow yellow for
/// incoming dependencies and cyan for outgoing ones.
pub open spec fn dep_line_pieces(arrow: Seq<char>, incoming: bool, d: Dependency) -> Seq<Piece> {
    seq![
        Piece::Plain("  "@),
        Piece::Paint(arrow, if incoming { code_yellow() } else { code_cyan() }),
        Piece::Plain(seq![' ']),
        Piece::Paint(d.depends_on_id@, code_cyan()),
        Piece::Plain(" ("@ + dep_type_name(d.dep_type) + seq![')', '\n']),
    ]
}

/// The dependency lines, in order.
pub open spec fn dep_lines_pieces(arrow: Seq<char>, incoming: bool, deps: Seq<Dependency>) -> Seq<Piece>
    decreases deps.len(),
{
    if deps.len() == 0 {
        Seq::<Piece>::empty()
    } else {
        dep_lines_pieces(arrow, incoming, deps.drop_last()) + dep_line_pieces(
            arrow,
            incoming,
            deps.last(),
        )
    }
}

/// A dependency section: nothing when empty, else a blank line,
/// `{title} ({n}):` with the title bold, and one line per dependency.
pub open spec fn dep_section_pieces(
    title: Seq<char>,
    arrow: Seq<char>,
    incoming: bool,
    deps: Seq<Dependency>,
) -> Seq<Piece> {
    if deps.len() == 0 {
        Seq::<Piece>::empty()
    } else {
        seq![
            Piece::Plain(seq!['\n']),
            Piece::Paint(title, code_bold()),
            Piece::Plain(" ("@ + decimal(deps.len()) + "):\n"@),
        ] + dep_lines_pieces(arrow, incoming, deps)
    }
}

fn push_dep_line(v: &mut Vec<char>, arrow: &str, incoming: bool, dep: &Dependency, config: &OutputConfig)
    ensures
        shows(old(v)@, dep_line_pieces(arrow@, incoming, *dep), *config, final(v)@),
{
    let ghost start = v@;
    let ghost t = dep_line_pieces(arrow@, incoming, *dep);
    proof {
        lemma_shows_start(start, t, *config);
    }
    push_piece(v, "  ", Ghost(start), Ghost(t), Ghost(0int), config);
    let a = if incoming {
        crate::output::yellow(arrow, config)
    } else {
        crate::output::cyan(arrow, config)
    };
    push_piece(v, a.as_str(), Ghost(start), Ghost(t), Ghost(1int), config);
    push_piece_char(v, ' ', Ghost(start), Ghost(t), Ghost(2int), config);
    let id = colorize_id(dep.depends_on_id.as_str(), config);
    push_piece(v, id.as_str(), Ghost(start), Ghost(t), Ghost(3int), config);
    let ghost before_tail = v@;
    push_str(v, " (");
    push_str(v, dep.dep_type.as_str());
    v.push(')');
    v.push('\n');
    proof {
        let tail = " ("@ + dep_type_name(dep.dep_type) + seq![')', '\n'];
        assert(v@ =~= before_tail + tail);
        lemma_shows_push(start, t.take(4), *config, before_tail, t[4], tail);
        assert(t.take(4).push(t[4]) =~= t);
    }
}

fn push_dep_section(
    v: &mut Vec<char>,
    title: &str,
    arrow: &str,
    incoming: bool,
    deps: &[Dependency],
    config: &OutputConfig,
)
    ensures
        shows(old(v)@, dep_section_pieces(title@, arrow@, incoming, deps@), *config, final(v)@),
{
    let ghost start = v@;
    if deps.len() == 0 {
        proof {
            lemma_shows_start(start, Seq::<Piece>::empty(), *config);
            assert(Seq::<Piece>::empty().take(0) =~= Seq::<Piece>::empty());
        }
        return;
    }
    let ghost h = seq![
        Piece::Plain(seq!['\n']),
        Piece::Paint(title@, code_bold()),
        Piece::Plain(" ("@ + decimal(deps@.len()) + "):\n"@),
    ];
    proof {
        lemma_shows_start(start, h, *config);
    }
    push_piece_char(v, '\n', Ghost(start), Ghost(h), Ghost(0int), config);
    let t = crate::output::bold(title, config);
    push_piece(v, t.as_str(), Ghost(start), Ghost(h), Ghost(1int), config);
    let ghost before_count = v@;
    push_str(v, " (");
    push_decimal(v, deps.len() as u64);
    push_str(v, "):\n");
    let ghost head = v@;
    proof {
        assert(v@ =~= before_count + (" ("@ + decimal(deps@.len()) + "):\n"@));
        lemma_shows_push(start, h.take(2), *config, before_count, h[2], " ("@ + decimal(deps@.len()) + "):\n"@);
        assert(h.take(2).push(h[2]) =~= h);
        lemma_shows_start(head, dep_lines_pieces(arrow@, incoming, deps@), *config);
        assert(deps@.take(0) =~= Seq::<Dependency>::empty());
        assert(dep_lines_pieces(arrow@, incoming, deps@.take(0)) =~= dep_lines_pieces(
            arrow@,
            incoming,
            deps@,
        ).take(0));
    }
    let mut i: usize = 0;
    while i < deps.len()
        invariant
            i <= deps@.len(),
            shows(head, dep_lines_pieces(arrow@, incoming, deps@.take(i as int)), *config, v@),
        decreases deps.len() - i,
    {
        let ghost before = v@;
        push_dep_line(v, arrow, incoming, &deps[i], config);
        proof {
            let p = deps@.take(i as int + 1);
            assert(p.drop_last() =~= deps@.take(i as int));
            assert(p.last() == deps@[i as int]);
            lemma_shows_concat(
                head,
                dep_lines_pieces(arrow@, incoming, deps@.take(i as int)),
                dep_line_pieces(arrow@, incoming, deps@[i as int]),
                *config,
                before,
                v@,
            );
        }
        i += 1;
    }
    proof {
        assert(deps@.take(deps@.len() as int) =~= deps@);
        lemma_shows_concat(start, h, dep_lines_pieces(arrow@, incoming, deps@), *config, head, v@);
    }
}

/// The notes' contents, one per line.
pub open spec fn notes_content(notes: Seq<Note>) -> Seq<char>
    decreases notes.len(),
{
    if notes.len() == 0 {
        Seq::<char>::empty()
    } else if notes.len() == 1 {
        notes[0].spec_content()
    } else {
        notes_content(notes.drop_last()) + seq!['\n'] + notes.last().spec_content()
    }
}

fn notes_string(notes: &Vec<Note>) -> (r: String)
    ensures
        r@ == notes_content(notes@),
{
    let mut v: Vec<char> = Vec::new();
    let mut i: usize = 0;
    while i < notes.len()
        invariant
            i <= notes@.len(),
            v@ == notes_content(notes@.take(i as int)),
        decreases notes.len() - i,
    {
        if i > 0 {
            v.push('\n');
        }
        push_str(&mut v, notes[i].content());
        proof {
            let p = notes@.take(i as int + 1);
            assert(p.drop_last() =~= notes@.take(i as int));
            assert(p.last() == notes@[i as int]);
            if i == 0 {
                assert(p[0] == notes@[0]);
            }
            assert(v@ =~= notes_content(p));
        }
        i += 1;
    }
    assert(notes@.take(notes@.len() as int) =~= notes@);
    crate::text::string_of(&v)
}

/// The header of an issue's details: icon, id and title, then kind,
/// status and priority.
pub open spec fn details_header_pieces(issue: Issue, config: OutputConfig) -> Seq<Piece> {
    seq![
        Piece::Paint(status_icon_text(issue.status, config), status_code(issue.status)),
        Piece::Plain(seq![' ']),
        Piece::Paint(issue.id@, code_cyan()),
        Piece::Plain(": "@),
        Piece::Plain(issue.title@),
        Piece::Plain(seq!['\n']),
        Piece::Paint("Type:"@, code_dimmed()),
        Piece::Plain("  "@),
        Piece::Paint(kind_icon_text(issue.issue_kind, config), kind_code(issue.issue_kind)),
        Piece::Plain(seq![' ']),
        Piece::Plain(kind_name(issue.issue_kind)),
        Piece::Plain("    "@),
        Piece::Paint("Status:"@, code_dimmed()),
        Piece::Plain("  "@),
        Piece::Paint(status_name(issue.status), status_code(issue.status)),
        Piece::Plain("    "@),
        Piece::Paint("Priority:"@, code_dimmed()),
        Piece::Plain("  "@),
        priority_piece(issue.priority),
        Piece::Plain(seq!['\n']),
    ]
}

/// The line with the creation and update times.
pub open spec fn times_pieces(issue: Issue) -> Seq<Piece> {
    seq![
        Piece::Paint("Created:"@, code_dimmed()),
        Piece::Plain(seq![' ']),
        Piece::Plain(minute_text(issue.created_at)),
        Piece::Plain("    "@),
        Piece::Paint("Updated:"@, code_dimmed()),
        Piece::Plain(seq![' ']),
        Piece::Plain(minute_text(issue.updated_at)),
        Piece::Plain(seq!['\n']),
    ]
}

/// The closing time's line, for a closed issue.
pub open spec fn closed_pieces(issue: Issue) -> Seq<Piece> {
    match issue.closed_at {
        Some(c) => seq![
            Piece::Paint("Closed:"@, code_dimmed()),
            Piece::Plain(seq![' ']),
            Piece::Plain(minute_text(c)),
            Piece::Plain(seq!['\n']),
        ],
        None => Seq::<Piece>::empty(),
    }
}

/// The width an issue's details are wrapped to: the smaller of the
/// terminal width and the configured maximum width.
pub open spec fn details_width(terminal_width: usize, config: OutputConfig) -> usize {
    if terminal_width <= config.max_width {
        terminal_width
    } else {
        config.max_width
    }
}

/// An issue's full details.
pub open spec fn details_pieces(
    issue: Issue,
    deps: Seq<Dependency>,
    dependents: Seq<Dependency>,
    terminal_width: usize,
    config: OutputConfig,
) -> Seq<Piece> {
    let w = details_width(terminal_width, config);
    details_header_pieces(issue, config) + extras_pieces(issue, Seq::<char>::empty())
        + times_pieces(issue) + closed_pieces(issue) + section_pieces(
        "Description"@,
        issue.description@,
        w,
    ) + opt_section_pieces("Design Notes"@, crate::domain::opt_string_view(issue.design), w)
        + opt_section_pieces(
        "Acceptance Criteria"@,
        crate::domain::opt_string_view(issue.acceptance_criteria),
        w,
    ) + section_pieces("Notes"@, notes_content(issue.notes@), w) + dep_section_pieces(
        "Dependencies"@,
        "→"@,
        false,
        deps,
    ) + dep_section_pieces("Dependents"@, "←"@, true, dependents)
}

fn push_details_header(v: &mut Vec<char>, issue: &Issue, config: &OutputConfig)
    ensures
        shows(old(v)@, details_header_pieces(*issue, *config), *config, final(v)@),
{
    let ghost start = v@;
    let ghost t = details_header_pieces(*issue, *config);
    proof {
        lemma_shows_start(start, t, *config);
    }
    let icon = colored_status_icon(issue.status, config);
    push_piece(v, icon.as_str(), Ghost(start), Ghost(t), Ghost(0int), config);
    push_piece_char(v, ' ', Ghost(start), Ghost(t), Ghost(1int), config);
    let id = colorize_id(issue.id.as_str(), config);
    push_piece(v, id.as_str(), Ghost(start), Ghost(t), Ghost(2int), config);
    push_piece(v, ": ", Ghost(start), Ghost(t), Ghost(3int), config);
    push_piece(v, issue.title.as_str(), Ghost(start), Ghost(t), Ghost(4int), config);
    push_piece_char(v, '\n', Ghost(start), Ghost(t), Ghost(5int), config);
    let l = dimmed("Type:", config);
    push_piece(v, l.as_str(), Ghost(start), Ghost(t), Ghost(6int), config);
    push_piece(v, "  ", Ghost(start), Ghost(t), Ghost(7int), config);
    let k = colored_type_icon(issue.issue_kind, config);
    push_piece(v, k.as_str(), Ghost(start), Ghost(t), Ghost(8int), config);
    push_piece_char(v, ' ', Ghost(start), Ghost(t), Ghost(9int), config);
    push_piece(v, issue.issue_kind.as_str(), Ghost(start), Ghost(t), Ghost(10int), config);
    push_piece(v, "    ", Ghost(start), Ghost(t), Ghost(11int), config);
    let l = dimmed("Status:", config);
    push_piece(v, l.as_str(), Ghost(start), Ghost(t), Ghost(12int), config);
    push_piece(v, "  ", Ghost(start), Ghost(t), Ghost(13int), config);
    let st = colorize_status(issue.status, config);
    push_piece(v, st.as_str(), Ghost(start), Ghost(t), Ghost(14int), config);
    push_piece(v, "    ", Ghost(start), Ghost(t), Ghost(15int), config);
    let l = dimmed("Priority:", config);
    push_piece(v, l.as_str(), Ghost(start), Ghost(t), Ghost(16int), config);
    push_piece(v, "  ", Ghost(start), Ghost(t), Ghost(17int), config);
    let pr = colorize_priority(issue.priority, config);
    push_piece(v, pr.as_str(), Ghost(start), Ghost(t), Ghost(18int), config);
    push_piece_char(v, '\n', Ghost(start), Ghost(t), Ghost(19int), config);
    assert(t.take(t.len() as int) =~= t);
}

fn push_minute_piece(
    v: &mut Vec<char>,
    ts: Timestamp,
    Ghost(base): Ghost<Seq<char>>,
    Ghost(t): Ghost<Seq<Piece>>,
    Ghost(i): Ghost<int>,
    config: &OutputConfig,
)
    requires
        0 <= i < t.len(),
        shows(base, t.take(i), *config, old(v)@),
        t[i] == Piece::Plain(minute_text(ts)),
    ensures
        shows(base, t.take(i + 1), *config, final(v)@),
{
    let ghost before = v@;
    push_minute(v, ts);
    proof {
        lemma_shows_push(base, t.take(i), *config, before, t[i], minute_text(ts));
        assert(t.take(i).push(t[i]) =~= t.take(i + 1));
    }
}

fn push_details_times(v: &mut Vec<char>, issue: &Issue, config: &OutputConfig)
    ensures
        shows(old(v)@, times_pieces(*issue) + closed_pieces(*issue), *config, final(v)@),
{
    let ghost start = v@;
    let ghost t = times_pieces(*issue);
    proof {
        lemma_shows_start(start, t, *config);
    }
    let l = dimmed("Created:", config);
    push_piece(v, l.as_str(), Ghost(start), Ghost(t), Ghost(0int), config);
    push_piece_char(v, ' ', Ghost(start), Ghost(t), Ghost(1int), config);
    push_minute_piece(v, issue.created_at, Ghost(start), Ghost(t), Ghost(2int), config);
    push_piece(v, "    ", Ghost(start), Ghost(t), Ghost(3int), config);
    let l = dimmed("Updated:", config);
    push_piece(v, l.as_str(), Ghost(start), Ghost(t), Ghost(4int), config);
    push_piece_char(v, ' ', Ghost(start), Ghost(t), Ghost(5int), config);
    push_minute_piece(v, issue.updated_at, Ghost(start), Ghost(t), Ghost(6int), config);
    push_piece_char(v, '\n', Ghost(start), Ghost(t), Ghost(7int), config);
    assert(t.take(t.len() as int) =~= t);
    let ghost mid = v@;
    let ghost c = closed_pieces(*issue);
    proof {
        lemma_shows_start(mid, c, *config);
    }
    match issue.closed_at {
        Some(at) => {
            let l = dimmed("Closed:", config);
            push_piece(v, l.as_str(), Ghost(mid), Ghost(c), Ghost(0int), config);
            push_piece_char(v, ' ', Ghost(mid), Ghost(c), Ghost(1int), config);
            push_minute_piece(v, at, Ghost(mid), Ghost(c), Ghost(2int), config);
            push_piece_char(v, '\n', Ghost(mid), Ghost(c), Ghost(3int), config);
        },
        None => {},
    }
    proof {
        assert(c.take(c.len() as int) =~= c);
        lemma_shows_concat(start, t, c, *config, mid, v@);
    }
}

/// Appends an issue's full details (the `show` command).
pub fn print_issue_details_text(
    out: &mut String,
    issue: &Issue,
    deps: &[Dependency],
    dependents: &[Dependency],
    terminal_width: usize,
    config: &OutputConfig,
)
    ensures
        shows(
            old(out)@,
            details_pieces(*issue, deps@, dependents@, terminal_width, *config),
            *config,
            final(out)@,
        ),
        !config.use_colors ==> final(out)@ == old(out)@ + plain(
            details_pieces(*issue, deps@, dependents@, terminal_width, *config),
        ),
{
    let width = if terminal_width <= config.max_width {
        terminal_width
    } else {
        config.max_width
    };
    let ghost w = details_width(terminal_width, *config);
    let mut v: Vec<char> = Vec::new();
    let ghost e = v@;
    push_details_header(&mut v, issue, config);
    let ghost mut acc = details_header_pieces(*issue, *config);
    let ghost a = v@;
    push_extras(&mut v, issue, "", config);
    proof {
        reveal_strlit("");
        assert(""@ =~= Seq::<char>::empty());
        let p = extras_pieces(*issue, Seq::<char>::empty());
        lemma_shows_concat(e, acc, p, *config, a, v@);
        acc = acc + p;
    }
    let ghost b = v@;
    push_details_times(&mut v, issue, config);
    proof {
        let p = times_pieces(*issue) + closed_pieces(*issue);
        lemma_shows_concat(e, acc, p, *config, b, v@);
        assert(acc + p =~= acc + times_pieces(*issue) + closed_pieces(*issue));
        acc = acc + times_pieces(*issue) + closed_pieces(*issue);
    }
    let ghost c = v@;
    push_section(&mut v, "Description", issue.description.as_str(), width, config);
    proof {
        let p = section_pieces("Description"@, issue.description@, w);
        lemma_shows_concat(e, acc, p, *config, c, v@);
        acc = acc + p;
    }
    let ghost d = v@;
    match &issue.design {
        Some(t) => push_section(&mut v, "Design Notes", t.as_str(), width, config),
        None => {
            proof {
                lemma_shows_start(d, Seq::<Piece>::empty(), *config);
                assert(Seq::<Piece>::empty().take(0) =~= Seq::<Piece>::empty());
            }
        },
    }
    proof {
        let p = opt_section_pieces("Design Notes"@, crate::domain::opt_string_view(issue.design), w);
        lemma_shows_concat(e, acc, p, *config, d, v@);
        acc = acc + p;
    }
    let ghost f = v@;
    match &issue.acceptance_criteria {
        Some(t) => push_section(&mut v, "Acceptance Criteria", t.as_str(), width, config),
        None => {
            proof {
                lemma_shows_start(f, Seq::<Piece>::empty(), *config);
                assert(Seq::<Piece>::empty().take(0) =~= Seq::<Piece>::empty());
            }
        },
    }
    proof {
        let p = opt_section_pieces(
            "Acceptance Criteria"@,
            crate::domain::opt_string_view(issue.acceptance_criteria),
            w,
        );
        lemma_shows_concat(e, acc, p, *config, f, v@);
        acc = acc + p;
    }
    let ghost g = v@;
    let notes = notes_string(&issue.notes);
    push_section(&mut v, "Notes", notes.as_str(), width, config);
    proof {
        let p = section_pieces("Notes"@, notes_content(issue.notes@), w);
        lemma_shows_concat(e, acc, p, *config, g, v@);
        acc = acc + p;
    }
    let ghost h = v@;
    push_dep_section(&mut v, "Dependencies", "→", false, deps, config);
    proof {
        let p = dep_section_pieces("Dependencies"@, "→"@, false, deps@);
        lemma_shows_concat(e, acc, p, *config, h, v@);
        acc = acc + p;
    }
    let ghost k = v@;
    push_dep_section(&mut v, "Dependents", "←", true, dependents, config);
    proof {
        let p = dep_section_pieces("Dependents"@, "←"@, true, dependents@);
        lemma_shows_concat(e, acc, p, *config, k, v@);
        acc = acc + p;
        assert(e =~= Seq::<char>::empty());
        assert(acc =~= details_pieces(*issue, deps@, dependents@, terminal_width, *config));
    }
    append_shown(out, &v, Ghost(details_pieces(*issue, deps@, dependents@, terminal_width, *config)), config);
}

/// An issue with its dependencies and dependents, as `show` prints it.
#[derive(Debug)]
pub struct IssueDetails {
    /// The issue.
    pub issue: Issue,
    /// What the issue depends on.
    pub deps: Vec<Dependency>,
    /// What depends on the issue.
    pub dependents: Vec<Dependency>,
}

/// Several issues' details, separated by a `---` line between blank lines.
pub open spec fn details_list_pieces(
    entries: Seq<IssueDetails>,
    terminal_width: usize,
    config: OutputConfig,
) -> Seq<Piece>
    decreases entries.len(),
{
    if entries.len() == 0 {
        Seq::<Piece>::empty()
    } else {
        details_list_pieces(entries.drop_last(), terminal_width, config) + (if entries.len() > 1 {
            seq![Piece::Plain("\n---\n\n"@)]
        } else {
            Seq::<Piece>::empty()
        }) + details_pieces(
            entries.last().issue,
            entries.last().deps@,
            entries.last().dependents@,
            terminal_width,
            config,
        )
    }
}

/// Appends the details of several issues (the `show` command with more
/// than one identifier).
pub fn print_issues_details_text(
    out: &mut String,
    entries: &[IssueDetails],
    terminal_width: usize,
    config: &OutputConfig,
)
    ensures
        shows(old(out)@, details_list_pieces(entries@, terminal_width, *config), *config, final(out)@),
        !config.use_colors ==> final(out)@ == old(out)@ + plain(
            details_list_pieces(entries@, terminal_width, *config),
        ),
{
    let ghost start = out@;
    proof {
        lemma_shows_start(start, Seq::<Piece>::empty(), *config);
        assert(Seq::<Piece>::empty().take(0) =~= Seq::<Piece>::empty());
        assert(entries@.take(0) =~= Seq::<IssueDetails>::empty());
    }
    let mut i: usize = 0;
    while i < entries.len()
        invariant
            i <= entries@.len(),
            shows(start, details_list_pieces(entries@.take(i as int), terminal_width, *config), *config, out@),
        decreases entries.len() - i,
    {
        let ghost before = out@;
        let ghost sep: Seq<Piece> = if i > 0 {
            seq![Piece::Plain("\n---\n\n"@)]
        } else {
            Seq::<Piece>::empty()
        };
        if i > 0 {
            append(out, "\n---\n\n");
            proof {
                lemma_shows_one(before, Piece::Plain("\n---\n\n"@), *config, "\n---\n\n"@);
            }
        } else {
            proof {
                lemma_shows_start(before, sep, *config);
                assert(sep.take(0) =~= sep);
            }
        }
        let ghost mid = out@;
        let e = &entries[i];
        print_issue_details_text(out, &e.issue, e.deps.as_slice(), e.dependents.as_slice(), terminal_width, config);
        proof {
            let d = details_pieces(e.issue, e.deps@, e.dependents@, terminal_width, *config);
            let p = entries@.take(i as int + 1);
            assert(p.drop_last() =~= entries@.take(i as int));
            assert(p.last() == entries@[i as int]);
            lemma_shows_concat(before, sep, d, *config, mid, out@);
            lemma_shows_concat(
                start,
                details_list_pieces(entries@.take(i as int), terminal_width, *config),
                sep + d,
                *config,
                before,
                out@,
            );
            assert(details_list_pieces(entries@.take(i as int), terminal_width, *config) + (sep + d)
                =~= details_list_pieces(p, terminal_width, *config));
        }
        i += 1;
    }
    proof {
        assert(entries@.take(entries@.len() as int) =~= entries@);
        if !config.use_colors {
            lemma_shows_plain(start, details_list_pieces(entries@, terminal_width, *config), *config, out@);
        }
    }
}

/// An issue's details show, on one line, its creation time after
/// `Created:` and its update time after `Updated:`.
pub proof fn lemma_details_show_times(
    issue: Issue,
    deps: Seq<Dependency>,
    dependents: Seq<Dependency>,
    terminal_width: usize,
    config: OutputConfig,
)
    ensures
        exists|a: Seq<char>, b: Seq<char>|
            plain(details_pieces(issue, deps, dependents, terminal_width, config)) == a + "Created:"@
                + seq![' '] + minute_text(issue.created_at) + "    "@ + "Updated:"@ + seq![' ']
                + minute_text(issue.updated_at) + seq!['\n'] + b,
{
    let w = details_width(terminal_width, config);
    let x = details_header_pieces(issue, config) + extras_pieces(issue, Seq::<char>::empty());
    let t = times_pieces(issue);
    let y = closed_pieces(issue) + section_pieces("Description"@, issue.description@, w)
        + opt_section_pieces("Design Notes"@, crate::domain::opt_string_view(issue.design), w)
        + opt_section_pieces(
        "Acceptance Criteria"@,
        crate::domain::opt_string_view(issue.acceptance_criteria),
        w,
    ) + section_pieces("Notes"@, notes_content(issue.notes@), w) + dep_section_pieces(
        "Dependencies"@,
        "→"@,
        false,
        deps,
    ) + dep_section_pieces("Dependents"@, "←"@, true, dependents);
    assert(details_pieces(issue, deps, dependents, terminal_width, config) =~= x + t + y);
    lemma_plain_concat(x, t);
    lemma_plain_concat(x + t, y);
    assert(plain(t) =~= "Created:"@ + seq![' '] + minute_text(issue.created_at) + "    "@
        + "Updated:"@ + seq![' '] + minute_text(issue.updated_at) + seq!['\n']) by {
        reveal_with_fuel(plain, 9);
    }
    assert(plain(x + t + y) =~= plain(x) + ("Created:"@ + seq![' '] + minute_text(issue.created_at)
        + "    "@ + "Updated:"@ + seq![' '] + minute_text(issue.updated_at) + seq!['\n'])
        + plain(y));
    assert(plain(details_pieces(issue, deps, dependents, terminal_width, config)) =~= plain(x)
        + "Created:"@ + seq![' '] + minute_text(issue.created_at) + "    "@ + "Updated:"@ + seq![' ']
        + minute_text(issue.updated_at) + seq!['\n'] + plain(y));
}

} // verus!
