//! Dependency tree rendering with ASCII or Unicode connectors.
//!
//! ```text
//! ◆ rivets-abc P2 Fix the bug
//! ├── rivets-def (blocks)
//! │   └── rivets-ghi (blocks)
//! └── rivets-jkl (related)
//! ```

use vstd::prelude::*;

use crate::domain::{Dependency, DependencyType, IssueStatus, dep_type_name};
use crate::output::{
    OutputConfig, Piece, bold, code_bold, code_bold_with, code_cyan, code_dimmed,
    colored_status_icon, colorize_id, colorize_priority, dimmed, lemma_shows_concat,
    lemma_shows_plain, lemma_shows_push, lemma_shows_start, piece_shows, plain, priority_piece,
    shows, status_code, status_icon_text,
};
use crate::render::append;
use crate::text::{decimal, push_decimal, push_str, string_push};

verus! {

/// A node in a dependency tree, for rendering.
#[derive(Debug)]
pub struct DepTreeNode {
    /// Issue ID of this node.
    pub id: String,
    /// Dependency type relationship to the parent (if any).
    pub dep_type: Option<DependencyType>,
    /// Issue status (for the status icon).
    pub status: Option<IssueStatus>,
    /// Issue title (for the root node).
    pub title: Option<String>,
    /// Issue priority.
    pub priority: Option<u8>,
    /// Children of this node.
    pub children: Vec<DepTreeNode>,
}

/// The connector before a child: a corner for the last one, a branch before.
pub open spec fn connector_text(config: OutputConfig, is_last: bool) -> Seq<char> {
    if config.use_ascii {
        if is_last {
            "`-- "@
        } else {
            "|-- "@
        }
    } else {
        if is_last {
            "└── "@
        } else {
            "├── "@
        }
    }
}

/// The indentation for one ancestor level: a pipe while that ancestor has
/// siblings below, blank otherwise.
pub open spec fn segment_text(config: OutputConfig, has_more: bool) -> Seq<char> {
    if config.use_ascii {
        if has_more {
            "|   "@
        } else {
            "    "@
        }
    } else {
        if has_more {
            "│   "@
        } else {
            "    "@
        }
    }
}

/// The indentation for all ancestor levels, each level dimmed.
pub open spec fn prefix_pieces(segs: Seq<bool>, config: OutputConfig) -> Seq<Piece>
    decreases segs.len(),
{
    if segs.len() == 0 {
        Seq::<Piece>::empty()
    } else {
        prefix_pieces(segs.drop_last(), config).push(
            Piece::Paint(segment_text(config, segs.last()), code_dimmed()),
        )
    }
}

/// `({type})` dimmed, or nothing.
pub open spec fn dep_type_pieces(d: Option<DependencyType>) -> Seq<Piece> {
    match d {
        Some(t) => seq![Piece::Paint(seq!['('] + dep_type_name(t) + seq![')'], code_dimmed())],
        None => Seq::<Piece>::empty(),
    }
}

/// ` {status icon}`, or nothing.
pub open spec fn status_pieces(s: Option<IssueStatus>, config: OutputConfig) -> Seq<Piece> {
    match s {
        Some(st) => seq![
            Piece::Plain(seq![' ']),
            Piece::Paint(status_icon_text(st, config), status_code(st)),
        ],
        None => Seq::<Piece>::empty(),
    }
}

/// The connector, the id and a space of a child's line.
pub open spec fn child_head_pieces(node: DepTreeNode, is_last: bool, config: OutputConfig) -> Seq<Piece> {
    seq![
        Piece::Paint(connector_text(config, is_last), code_dimmed()),
        Piece::Paint(node.id@, code_cyan()),
        Piece::Plain(seq![' ']),
    ]
}

/// The line of one child: indentation, connector, id, type and status.
pub open spec fn child_line_pieces(
    node: DepTreeNode,
    segs: Seq<bool>,
    is_last: bool,
    config: OutputConfig,
) -> Seq<Piece> {
    prefix_pieces(segs, config) + child_head_pieces(node, is_last, config) + dep_type_pieces(
        node.dep_type,
    ) + status_pieces(node.status, config) + seq![Piece::Plain(seq!['\n'])]
}

/// A child's line followed by its own subtree.
pub open spec fn node_pieces(node: DepTreeNode, segs: Seq<bool>, is_last: bool, config: OutputConfig) -> Seq<Piece>
    decreases node, 0nat,
{
    child_line_pieces(node, segs, is_last, config) + if node.children@.len() > 0 {
        children_pieces(node.children@, 0, segs.push(!is_last), config)
    } else {
        Seq::<Piece>::empty()
    }
}

/// The subtrees of `children[i..]`, each under the given ancestors.
pub open spec fn children_pieces(children: Seq<DepTreeNode>, i: int, segs: Seq<bool>, config: OutputConfig) -> Seq<Piece>
    decreases children, children.len() - i,
{
    if 0 <= i < children.len() {
        node_pieces(children[i], segs, i == children.len() - 1, config) + children_pieces(
            children,
            i + 1,
            segs,
            config,
        )
    } else {
        Seq::<Piece>::empty()
    }
}

/// The root's icon: `*` in ASCII mode, `◆` otherwise.
pub open spec fn root_icon_text(config: OutputConfig) -> Seq<char> {
    if config.use_ascii {
        "*"@
    } else {
        "◆"@
    }
}

/// ` P{n}` for a root with a priority.
pub open spec fn root_priority_pieces(p: Option<u8>) -> Seq<Piece> {
    match p {
        Some(p) => seq![Piece::Plain(seq![' ']), priority_piece(p)],
        None => Seq::<Piece>::empty(),
    }
}

/// ` {title}` for a root with a title.
pub open spec fn root_title_pieces(t: Option<String>) -> Seq<Piece> {
    match t {
        Some(t) => seq![Piece::Plain(seq![' ']), Piece::Plain(t@)],
        None => Seq::<Piece>::empty(),
    }
}

/// The root line: icon in bold cyan, id, priority and title.
pub open spec fn root_pieces(root: DepTreeNode, config: OutputConfig) -> Seq<Piece> {
    seq![
        Piece::Paint(root_icon_text(config), code_bold_with(code_cyan())),
        Piece::Plain(seq![' ']),
        Piece::Paint(root.id@, code_cyan()),
    ] + root_priority_pieces(root.priority) + root_title_pieces(root.title) + seq![
        Piece::Plain(seq!['\n']),
    ]
}

/// The whole tree: the root line, then every subtree.
pub open spec fn tree_pieces(root: DepTreeNode, config: OutputConfig) -> Seq<Piece> {
    root_pieces(root, config) + children_pieces(root.children@, 0, Seq::<bool>::empty(), config)
}

/// Appends `s`, which is what writing piece `i` of `t` gave.
fn put_piece(
    out: &mut String,
    s: &str,
    Ghost(base): Ghost<Seq<char>>,
    Ghost(t): Ghost<Seq<Piece>>,
    Ghost(i): Ghost<int>,
    config: &OutputConfig,
)
    requires
        0 <= i < t.len(),
        shows(base, t.take(i), *config, old(out)@),
        piece_shows(t[i], *config, s@),
    ensures
        shows(base, t.take(i + 1), *config, final(out)@),
{
    let ghost before = out@;
    append(out, s);
    proof {
        lemma_shows_push(base, t.take(i), *config, before, t[i], s@);
        assert(t.take(i).push(t[i]) =~= t.take(i + 1));
    }
}

/// Appends `c`, the plain piece `i` of `t`.
fn put_piece_char(
    out: &mut String,
    c: char,
    Ghost(base): Ghost<Seq<char>>,
    Ghost(t): Ghost<Seq<Piece>>,
    Ghost(i): Ghost<int>,
    config: &OutputConfig,
)
    requires
        0 <= i < t.len(),
        shows(base, t.take(i), *config, old(out)@),
        t[i] == Piece::Plain(seq![c]),
    ensures
        shows(base, t.take(i + 1), *config, final(out)@),
{
    let ghost before = out@;
    string_push(out, c);
    proof {
        lemma_shows_push(base, t.take(i), *config, before, t[i], seq![c]);
        assert(t.take(i).push(t[i]) =~= t.take(i + 1));
        assert(out@ =~= before + seq![c]);
    }
}

/// Nothing written is what an empty run of pieces gives.
proof fn lemma_shows_nothing(base: Seq<char>, config: OutputConfig)
    ensures
        shows(base, Seq::<Piece>::empty(), config, base),
{
    lemma_shows_start(base, Seq::<Piece>::empty(), config);
    assert(Seq::<Piece>::empty().take(0) =~= Seq::<Piece>::empty());
}

fn connector(config: &OutputConfig, is_last: bool) -> (r: &'static str)
    ensures
        r@ == connector_text(*config, is_last),
{
    if config.use_ascii {
        if is_last {
            "`-- "
        } else {
            "|-- "
        }
    } else {
        if is_last {
            "└── "
        } else {
            "├── "
        }
    }
}

fn segment(config: &OutputConfig, has_more: bool) -> (r: &'static str)
    ensures
        r@ == segment_text(*config, has_more),
{
    if config.use_ascii {
        if has_more {
            "|   "
        } else {
            "    "
        }
    } else {
        if has_more {
            "│   "
        } else {
            "    "
        }
    }
}

/// Writes one child line.
fn print_child_line(
    out: &mut String,
    child: &DepTreeNode,
    segs: &Vec<bool>,
    is_last: bool,
    config: &OutputConfig,
)
    ensures
        shows(old(out)@, child_line_pieces(*child, segs@, is_last, *config), *config, final(out)@),
{
    let ghost start = out@;
    proof {
        lemma_shows_nothing(start, *config);
        assert(segs@.take(0) =~= Seq::<bool>::empty());
    }
    let mut k: usize = 0;
    while k < segs.len()
        invariant
            k <= segs@.len(),
            shows(start, prefix_pieces(segs@.take(k as int), *config), *config, out@),
        decreases segs.len() - k,
    {
        let ghost before = out@;
        let piece = dimmed(segment(config, segs[k]), config);
        append(out, piece.as_str());
        proof {
            let p = segs@.take(k as int + 1);
            assert(p.drop_last() =~= segs@.take(k as int));
            assert(p.last() == segs@[k as int]);
            lemma_shows_push(
                start,
                prefix_pieces(segs@.take(k as int), *config),
                *config,
                before,
                Piece::Paint(segment_text(*config, segs@[k as int]), code_dimmed()),
                piece@,
            );
        }
        k += 1;
    }
    assert(segs@.take(segs@.len() as int) =~= segs@);
    let ghost a = out@;
    let ghost h = child_head_pieces(*child, is_last, *config);
    proof {
        lemma_shows_start(a, h, *config);
    }
    let conn = dimmed(connector(config, is_last), config);
    put_piece(out, conn.as_str(), Ghost(a), Ghost(h), Ghost(0int), config);
    let id = colorize_id(child.id.as_str(), config);
    put_piece(out, id.as_str(), Ghost(a), Ghost(h), Ghost(1int), config);
    put_piece_char(out, ' ', Ghost(a), Ghost(h), Ghost(2int), config);
    proof {
        assert(h.take(h.len() as int) =~= h);
        lemma_shows_concat(start, prefix_pieces(segs@, *config), h, *config, a, out@);
    }
    let ghost b = out@;
    let ghost d = dep_type_pieces(child.dep_type);
    proof {
        lemma_shows_start(b, d, *config);
    }
    match child.dep_type {
        Some(dt) => {
            let mut text: Vec<char> = Vec::new();
            text.push('(');
            push_str(&mut text, dt.as_str());
            text.push(')');
            let t = crate::text::string_of(&text);
            assert(t@ =~= seq!['('] + dep_type_name(dt) + seq![')']);
            let piece = dimmed(t.as_str(), config);
            put_piece(out, piece.as_str(), Ghost(b), Ghost(d), Ghost(0int), config);
        },
        None => {},
    }
    proof {
        assert(d.take(d.len() as int) =~= d);
        lemma_shows_concat(start, prefix_pieces(segs@, *config) + h, d, *config, b, out@);
    }
    let ghost c = out@;
    let ghost st = status_pieces(child.status, *config);
    proof {
        lemma_shows_start(c, st, *config);
    }
    match child.status {
        Some(s) => {
            put_piece_char(out, ' ', Ghost(c), Ghost(st), Ghost(0int), config);
            let icon = colored_status_icon(s, config);
            put_piece(out, icon.as_str(), Ghost(c), Ghost(st), Ghost(1int), config);
        },
        None => {},
    }
    proof {
        assert(st.take(st.len() as int) =~= st);
        lemma_shows_concat(start, prefix_pieces(segs@, *config) + h + d, st, *config, c, out@);
    }
    let ghost before_nl = out@;
    string_push(out, '\n');
    proof {
        lemma_shows_push(
            start,
            prefix_pieces(segs@, *config) + h + d + st,
            *config,
            before_nl,
            Piece::Plain(seq!['\n']),
            seq!['\n'],
        );
        assert(out@ =~= before_nl + seq!['\n']);
        assert((prefix_pieces(segs@, *config) + h + d + st).push(Piece::Plain(seq!['\n']))
            =~= child_line_pieces(*child, segs@, is_last, *config));
    }
}

/// Writes the subtrees of `children`, drawing the continuation lines of the
/// ancestors recorded in `prefix_segments` (`true` while that ancestor still
/// has siblings below).
pub fn print_dep_tree_children(
    out: &mut String,
    children: &Vec<DepTreeNode>,
    prefix_segments: &Vec<bool>,
    config: &OutputConfig,
)
    ensures
        shows(
            old(out)@,
            children_pieces(children@, 0, prefix_segments@, *config),
            *config,
            final(out)@,
        ),
        !config.use_colors ==> final(out)@ == old(out)@ + plain(
            children_pieces(children@, 0, prefix_segments@, *config),
        ),
    decreases children@,
{
    let ghost start = out@;
    let ghost mut done: Seq<Piece> = Seq::empty();
    proof {
        lemma_shows_nothing(start, *config);
        assert(done + children_pieces(children@, 0, prefix_segments@, *config) =~= children_pieces(
            children@,
            0,
            prefix_segments@,
            *config,
        ));
    }
    let n = children.len();
    let mut i: usize = 0;
    while i < n
        invariant
            i <= n,
            n == children@.len(),
            shows(start, done, *config, out@),
            done + children_pieces(children@, i as int, prefix_segments@, *config)
                == children_pieces(children@, 0, prefix_segments@, *config),
        decreases n - i,
    {
        let child = &children[i];
        let is_last = i == n - 1;
        let ghost before = out@;
        print_child_line(out, child, prefix_segments, is_last, config);
        let ghost after_line = out@;
        let ghost sub: Seq<Piece> = if child.children@.len() > 0 {
            children_pieces(child.children@, 0, prefix_segments@.push(!is_last), *config)
        } else {
            Seq::<Piece>::empty()
        };
        if child.children.len() > 0 {
            let mut next: Vec<bool> = prefix_segments.clone();
            next.push(!is_last);
            assert(next@ =~= prefix_segments@.push(!is_last));
            proof {
                assert(decreases_to!(children@ => children@[i as int]));
                assert(decreases_to!(children@[i as int] => children@[i as int].children));
            }
            print_dep_tree_children(out, &child.children, &next, config);
        } else {
            proof {
                lemma_shows_nothing(after_line, *config);
            }
        }
        proof {
            let line = child_line_pieces(children@[i as int], prefix_segments@, is_last, *config);
            let nb = node_pieces(children@[i as int], prefix_segments@, is_last, *config);
            assert(nb == line + sub);
            lemma_shows_concat(before, line, sub, *config, after_line, out@);
            lemma_shows_concat(start, done, nb, *config, before, out@);
            let rest = children_pieces(children@, i + 1, prefix_segments@, *config);
            assert(children_pieces(children@, i as int, prefix_segments@, *config) == nb + rest);
            assert(done + (nb + rest) =~= (done + nb) + rest);
            done = done + nb;
        }
        i += 1;
    }
    proof {
        assert(done + Seq::<Piece>::empty() =~= done);
        if !config.use_colors {
            lemma_shows_plain(start, done, *config, out@);
        }
    }
}

/// Writes the whole tree: the root line, then every subtree.
pub fn print_dep_tree_text(out: &mut String, root: &DepTreeNode, config: &OutputConfig)
    ensures
        shows(old(out)@, tree_pieces(*root, *config), *config, final(out)@),
        !config.use_colors ==> final(out)@ == old(out)@ + plain(tree_pieces(*root, *config)),
{
    let ghost start = out@;
    let ghost h = seq![
        Piece::Paint(root_icon_text(*config), code_bold_with(code_cyan())),
        Piece::Plain(seq![' ']),
        Piece::Paint(root.id@, code_cyan()),
    ];
    proof {
        lemma_shows_start(start, h, *config);
    }
    let icon: &str = if config.use_ascii {
        "*"
    } else {
        "◆"
    };
    if config.use_colors {
        let painted_icon = crate::output::bold_cyan(icon);
        put_piece(out, painted_icon.as_str(), Ghost(start), Ghost(h), Ghost(0int), config);
    } else {
        put_piece(out, icon, Ghost(start), Ghost(h), Ghost(0int), config);
    }
    put_piece_char(out, ' ', Ghost(start), Ghost(h), Ghost(1int), config);
    let id = colorize_id(root.id.as_str(), config);
    put_piece(out, id.as_str(), Ghost(start), Ghost(h), Ghost(2int), config);
    assert(h.take(h.len() as int) =~= h);
    let ghost a = out@;
    let ghost pp = root_priority_pieces(root.priority);
    proof {
        lemma_shows_start(a, pp, *config);
    }
    match root.priority {
        Some(p) => {
            put_piece_char(out, ' ', Ghost(a), Ghost(pp), Ghost(0int), config);
            let pr = colorize_priority(p, config);
            put_piece(out, pr.as_str(), Ghost(a), Ghost(pp), Ghost(1int), config);
        },
        None => {},
    }
    proof {
        assert(pp.take(pp.len() as int) =~= pp);
        lemma_shows_concat(start, h, pp, *config, a, out@);
    }
    let ghost b = out@;
    let ghost tp = root_title_pieces(root.title);
    proof {
        lemma_shows_start(b, tp, *config);
    }
    match &root.title {
        Some(t) => {
            put_piece_char(out, ' ', Ghost(b), Ghost(tp), Ghost(0int), config);
            put_piece(out, t.as_str(), Ghost(b), Ghost(tp), Ghost(1int), config);
        },
        None => {},
    }
    proof {
        assert(tp.take(tp.len() as int) =~= tp);
        lemma_shows_concat(start, h + pp, tp, *config, b, out@);
    }
    let ghost before_nl = out@;
    string_push(out, '\n');
    let ghost after_root = out@;
    proof {
        lemma_shows_push(start, h + pp + tp, *config, before_nl, Piece::Plain(seq!['\n']), seq!['\n']);
        assert(after_root =~= before_nl + seq!['\n']);
        assert((h + pp + tp).push(Piece::Plain(seq!['\n'])) =~= root_pieces(*root, *config));
    }
    let segs: Vec<bool> = Vec::new();
    print_dep_tree_children(out, &root.children, &segs, config);
    proof {
        assert(segs@ =~= Seq::<bool>::empty());
        lemma_shows_concat(
            start,
            root_pieces(*root, *config),
            children_pieces(root.children@, 0, Seq::<bool>::empty(), *config),
            *config,
            after_root,
            out@,
        );
        if !config.use_colors {
            lemma_shows_plain(start, tree_pieces(*root, *config), *config, out@);
        }
    }
}

/// One "depended on by" line: `  {corner}{id}  ({type})`.
pub open spec fn dependent_line_pieces(d: Dependency, config: OutputConfig) -> Seq<Piece> {
    seq![
        Piece::Plain("  "@),
        Piece::Paint(connector_text(config, true), code_dimmed()),
        Piece::Paint(d.depends_on_id@, code_cyan()),
        Piece::Plain("  "@),
        Piece::Paint(seq!['('] + dep_type_name(d.dep_type) + seq![')'], code_dimmed()),
        Piece::Plain(seq!['\n']),
    ]
}

/// The "depended on by" lines, in order.
pub open spec fn dependent_lines_pieces(deps: Seq<Dependency>, config: OutputConfig) -> Seq<Piece>
    decreases deps.len(),
{
    if deps.len() == 0 {
        Seq::<Piece>::empty()
    } else {
        dependent_lines_pieces(deps.drop_last(), config) + dependent_line_pieces(deps.last(), config)
    }
}

/// The "depended on by" section: nothing for no dependents, else a blank
/// line, the bold header with their count, and one line per dependent.
pub open spec fn dependents_pieces(deps: Seq<Dependency>, config: OutputConfig) -> Seq<Piece> {
    if deps.len() == 0 {
        Seq::<Piece>::empty()
    } else {
        seq![
            Piece::Plain(seq!['\n']),
            Piece::Paint("Depended on by"@, code_bold()),
            Piece::Plain(" ("@ + decimal(deps.len()) + "):\n"@),
        ] + dependent_lines_pieces(deps, config)
    }
}

fn print_dependent_line(out: &mut String, dep: &Dependency, config: &OutputConfig)
    ensures
        shows(old(out)@, dependent_line_pieces(*dep, *config), *config, final(out)@),
{
    let ghost start = out@;
    let ghost t = dependent_line_pieces(*dep, *config);
    proof {
        lemma_shows_start(start, t, *config);
    }
    put_piece(out, "  ", Ghost(start), Ghost(t), Ghost(0int), config);
    let conn = dimmed(connector(config, true), config);
    put_piece(out, conn.as_str(), Ghost(start), Ghost(t), Ghost(1int), config);
    let id = colorize_id(dep.depends_on_id.as_str(), config);
    put_piece(out, id.as_str(), Ghost(start), Ghost(t), Ghost(2int), config);
    put_piece(out, "  ", Ghost(start), Ghost(t), Ghost(3int), config);
    let mut text: Vec<char> = Vec::new();
    text.push('(');
    push_str(&mut text, dep.dep_type.as_str());
    text.push(')');
    let tx = crate::text::string_of(&text);
    assert(tx@ =~= seq!['('] + dep_type_name(dep.dep_type) + seq![')']);
    let piece = dimmed(tx.as_str(), config);
    put_piece(out, piece.as_str(), Ghost(start), Ghost(t), Ghost(4int), config);
    put_piece_char(out, '\n', Ghost(start), Ghost(t), Ghost(5int), config);
    assert(t.take(t.len() as int) =~= t);
}

/// Writes the "depended on by" (reverse dependencies) section: nothing for
/// no dependents, else a blank line, the bold header with their count, and
/// one line per dependent.
pub fn print_dep_tree_dependents(out: &mut String, dependents: &[Dependency], config: &OutputConfig)
    ensures
        shows(old(out)@, dependents_pieces(dependents@, *config), *config, final(out)@),
        !config.use_colors ==> final(out)@ == old(out)@ + plain(
            dependents_pieces(dependents@, *config),
        ),
        dependents@.len() == 0 ==> final(out)@ == old(out)@,
{
    let ghost start = out@;
    if dependents.len() == 0 {
        proof {
            lemma_shows_nothing(start, *config);
            assert(start + plain(Seq::<Piece>::empty()) =~= start);
        }
        return;
    }
    let ghost h = seq![
        Piece::Plain(seq!['\n']),
        Piece::Paint("Depended on by"@, code_bold()),
        Piece::Plain(" ("@ + decimal(dependents@.len()) + "):\n"@),
    ];
    proof {
        lemma_shows_start(start, h, *config);
    }
    put_piece_char(out, '\n', Ghost(start), Ghost(h), Ghost(0int), config);
    let header = bold("Depended on by", config);
    put_piece(out, header.as_str(), Ghost(start), Ghost(h), Ghost(1int), config);
    let mut count: Vec<char> = Vec::new();
    push_str(&mut count, " (");
    push_decimal(&mut count, dependents.len() as u64);
    push_str(&mut count, "):\n");
    let count_text = crate::text::string_of(&count);
    assert(count_text@ =~= " ("@ + decimal(dependents@.len()) + "):\n"@);
    put_piece(out, count_text.as_str(), Ghost(start), Ghost(h), Ghost(2int), config);
    assert(h.take(h.len() as int) =~= h);
    let ghost head = out@;
    proof {
        lemma_shows_nothing(head, *config);
        assert(dependents@.take(0) =~= Seq::<Dependency>::empty());
    }
    let mut i: usize = 0;
    while i < dependents.len()
        invariant
            i <= dependents@.len(),
            shows(head, dependent_lines_pieces(dependents@.take(i as int), *config), *config, out@),
        decreases dependents.len() - i,
    {
        let ghost before = out@;
        print_dependent_line(out, &dependents[i], config);
        proof {
            let p = dependents@.take(i as int + 1);
            assert(p.drop_last() =~= dependents@.take(i as int));
            assert(p.last() == dependents@[i as int]);
            lemma_shows_concat(
                head,
                dependent_lines_pieces(dependents@.take(i as int), *config),
                dependent_line_pieces(dependents@[i as int], *config),
                *config,
                before,
                out@,
            );
        }
        i += 1;
    }
    proof {
        assert(dependents@.take(dependents@.len() as int) =~= dependents@);
        lemma_shows_concat(start, h, dependent_lines_pieces(dependents@, *config), *config, head, out@);
        if !config.use_colors {
            lemma_shows_plain(start, dependents_pieces(dependents@, *config), *config, out@);
        }
    }
}

} // verus!
