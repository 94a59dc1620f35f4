//! Associated Resource domain types.
//!
//! An Associated Resource is a typed reference from an Issue to relevant
//! information or an artifact: a Web URL or a Workspace Path, with a role and
//! an optional label.

use vstd::prelude::*;
use vstd::string::*;

use crate::domain::{first_pos, lemma_first_pos, as_nat_opt};
use crate::text::{
    char_is_ascii_alpha, chars_eq, chars_of, decimal, find_cc, find_char, find_line_control,
    first_match, is_ascii_alpha, is_blank, line_control_pred, cc_pred, eq_pred, owned, push_all,
    push_decimal, push_str, str_eq, string_of, trim,
};

verus! {

// ---------------------------------------------------------------------------
// Resource identifiers
// ---------------------------------------------------------------------------

/// Opaque, stable identifier of an Associated Resource within its Issue.
#[derive(Debug, PartialEq, Eq, PartialOrd, Ord, Hash)]
pub struct ResourceId(String);

impl View for ResourceId {
    type V = Seq<char>;

    closed spec fn view(&self) -> Seq<char> {
        self.0@
    }
}

impl Clone for ResourceId {
    fn clone(&self) -> (r: Self)
        ensures
            r@ == self@,
    {
        ResourceId(self.0.clone())
    }
}

/// Why `id` is not a valid resource identifier, if it is not.
pub open spec fn resource_id_error(id: Seq<char>) -> Option<ResourceErrorView> {
    if trim(id).len() == 0 {
        Some(ResourceErrorView::EmptyResourceId)
    } else if first_pos(id, cc_pred()) is Some {
        Some(
            ResourceErrorView::ResourceIdControlCharacter {
                position: first_pos(id, cc_pred())->0 as usize,
            },
        )
    } else {
        None
    }
}

impl ResourceId {
    /// Parse a non-empty identifier free of control characters.
    pub fn new(id: &str) -> (r: Result<ResourceId, ResourceError>)
        ensures
            match r {
                Ok(x) => resource_id_error(id@) is None && x@ == id@,
                Err(e) => resource_id_error(id@) == Some(e@),
            },
    {
        let v = chars_of(id);
        if is_blank(&v) {
            return Err(ResourceError::EmptyResourceId);
        }
        let pos = find_cc(&v);
        proof {
            lemma_first_pos(id@, cc_pred(), pos);
        }
        if let Some(position) = pos {
            return Err(ResourceError::ResourceIdControlCharacter { position });
        }
        Ok(ResourceId(owned(id)))
    }

    /// Get the identifier as a string slice.
    pub fn as_str(&self) -> (r: &str)
        ensures
            r@ == self@,
    {
        self.0.as_str()
    }

    /// Whether two identifiers are the same string.
    pub fn same_as(&self, other: &ResourceId) -> (r: bool)
        ensures
            r == (self@ == other@),
    {
        self.0 == other.0
    }
}

// ---------------------------------------------------------------------------
// Workspace paths
// ---------------------------------------------------------------------------

/// `s` split at every `sep`, like `str::split`: always at least one piece,
/// and empty pieces are kept.
pub open spec fn split_on(s: Seq<char>, sep: char) -> Seq<Seq<char>>
    decreases s.len(),
{
    if s.len() == 0 {
        seq![Seq::<char>::empty()]
    } else if s.last() == sep {
        split_on(s.drop_last(), sep).push(Seq::<char>::empty())
    } else {
        let p = split_on(s.drop_last(), sep);
        p.update(p.len() - 1, p.last().push(s.last()))
    }
}

pub proof fn lemma_split_on_nonempty(s: Seq<char>, sep: char)
    ensures
        split_on(s, sep).len() >= 1,
    decreases s.len(),
{
    if s.len() > 0 {
        lemma_split_on_nonempty(s.drop_last(), sep);
    }
}

/// One step of lexical normalization: `""` and `"."` are dropped, `".."`
/// pops the previous component (failing when there is none), and anything
/// else is pushed.
pub open spec fn normalize_step(stack: Seq<Seq<char>>, c: Seq<char>) -> Option<Seq<Seq<char>>> {
    if c.len() == 0 || c == seq!['.'] {
        Some(stack)
    } else if c == seq!['.', '.'] {
        if stack.len() == 0 {
            None
        } else {
            Some(stack.drop_last())
        }
    } else {
        Some(stack.push(c))
    }
}

/// Lexical normalization of a component list; `None` when `..` escapes.
pub open spec fn normalize_components(comps: Seq<Seq<char>>) -> Option<Seq<Seq<char>>>
    decreases comps.len(),
{
    if comps.len() == 0 {
        Some(Seq::<Seq<char>>::empty())
    } else {
        match normalize_components(comps.drop_last()) {
            None => None,
            Some(st) => normalize_step(st, comps.last()),
        }
    }
}

/// The components joined with `/`.
pub open spec fn join_slash(parts: Seq<Seq<char>>) -> Seq<char>
    decreases parts.len(),
{
    if parts.len() == 0 {
        Seq::<char>::empty()
    } else if parts.len() == 1 {
        parts[0]
    } else {
        join_slash(parts.drop_last()) + seq!['/'] + parts.last()
    }
}

/// A `C:`-style drive prefix.
pub open spec fn has_drive_prefix(s: Seq<char>) -> bool {
    s.len() >= 2 && is_ascii_alpha(s[0]) && s[1] == ':'
}

/// What validating `raw` as a web URL gives: the URL is trimmed and parsed;
/// only `http` and `https` with an explicit authority and a host are
/// accepted, as the serialized URL. A parse failure carries the parser's
/// opaque reason.
pub open spec fn web_url_outcome(raw: Seq<char>, r: Result<Seq<char>, ResourceErrorView>) -> bool {
    match parsed_url(url_trim(raw)) {
        None => match r {
            Err(e) => e is MalformedWebUrl && e->MalformedWebUrl_url == raw,
            Ok(_) => false,
        },
        Some(p) => if is_http_scheme(p.0) {
            if has_explicit_authority(url_trim(raw), p.0) && p.1 {
                r == Ok::<Seq<char>, ResourceErrorView>(p.2)
            } else {
                r == Err::<Seq<char>, ResourceErrorView>(
                    ResourceErrorView::MissingWebUrlAuthority { url: raw },
                )
            }
        } else {
            r == Err::<Seq<char>, ResourceErrorView>(
                ResourceErrorView::UnsupportedWebUrlScheme { url: raw, scheme: p.0 },
            )
        },
    }
}

/// The outcome of parsing `raw` as a workspace-relative path.
pub open spec fn workspace_path_result(raw: Seq<char>) -> Result<Seq<char>, ResourceErrorView> {
    if trim(raw).len() == 0 {
        Err(ResourceErrorView::EmptyPath)
    } else if first_pos(raw, line_control_pred()) is Some {
        Err(
            ResourceErrorView::PathControlCharacter {
                position: first_pos(raw, line_control_pred())->0 as usize,
            },
        )
    } else if first_pos(raw, eq_pred('\\')) is Some {
        Err(
            ResourceErrorView::WorkspacePathBackslash {
                position: first_pos(raw, eq_pred('\\'))->0 as usize,
            },
        )
    } else if (raw.len() > 0 && raw[0] == '/') || has_drive_prefix(raw) {
        Err(ResourceErrorView::AbsoluteWorkspacePath { path: raw })
    } else {
        match normalize_components(split_on(raw, '/')) {
            None => Err(ResourceErrorView::WorkspacePathEscape { path: raw }),
            Some(st) => if trim(join_slash(st)).len() == 0 {
                Err(ResourceErrorView::EmptyNormalizedWorkspacePath { path: raw })
            } else if has_drive_prefix(join_slash(st)) {
                Err(ResourceErrorView::AbsoluteWorkspacePath { path: raw })
            } else {
                Ok(join_slash(st))
            },
        }
    }
}

proof fn lemma_first_pos_none(s: Seq<char>, p: spec_fn(char) -> bool)
    ensures
        first_pos(s, p) is None <==> (forall|i: int| 0 <= i < s.len() ==> !p(#[trigger] s[i])),
    decreases s.len(),
{
    if s.len() > 0 {
        lemma_first_pos_none(s.drop_first(), p);
        if first_pos(s, p) is None {
            assert forall|i: int| 0 <= i < s.len() implies !p(#[trigger] s[i]) by {
                if i > 0 {
                    assert(s[i] == s.drop_first()[i - 1]);
                }
            }
        } else {
            if !p(s[0]) {
                let j = choose|j: int| 0 <= j < s.drop_first().len() && #[trigger] p(s.drop_first()[j]);
                assert(s[j + 1] == s.drop_first()[j]);
            }
        }
    }
}

/// Every character of a piece of `split_on(s, sep)` is a character of `s`
/// other than `sep`.
proof fn lemma_split_on_pieces(s: Seq<char>, sep: char)
    ensures
        forall|k: int, m: int|
            0 <= k < split_on(s, sep).len() && 0 <= m < split_on(s, sep)[k].len() ==> #[trigger] split_on(
                s,
                sep,
            )[k][m] != sep && s.contains(split_on(s, sep)[k][m]),
    decreases s.len(),
{
    if s.len() > 0 {
        let s0 = s.drop_last();
        lemma_split_on_pieces(s0, sep);
        lemma_split_on_nonempty(s0, sep);
        let p0 = split_on(s0, sep);
        let p = split_on(s, sep);
        assert forall|k: int, m: int| 0 <= k < p.len() && 0 <= m < p[k].len() implies #[trigger] p[k][m]
            != sep && s.contains(p[k][m]) by {
            if s.last() == sep {
                assert(p == p0.push(Seq::<char>::empty()));
                assert(k < p0.len());
                assert(p[k] == p0[k]);
                let w = choose|w: int| 0 <= w < s0.len() && s0[w] == p0[k][m];
                assert(s[w] == s0[w]);
            } else {
                if k < p0.len() - 1 || m < p0[k].len() {
                    assert(p[k][m] == p0[k][m]);
                    let w = choose|w: int| 0 <= w < s0.len() && s0[w] == p0[k][m];
                    assert(s[w] == s0[w]);
                } else {
                    assert(p[k][m] == s.last());
                    assert(s[s.len() - 1] == s.last());
                }
            }
        }
    }
}

/// The normalized components all come from the input, and none is empty,
/// `.` or `..`.
proof fn lemma_normalize_elements(comps: Seq<Seq<char>>)
    requires
        normalize_components(comps) is Some,
    ensures
        forall|k: int|
            0 <= k < normalize_components(comps)->0.len() ==> comps.contains(
                #[trigger] normalize_components(comps)->0[k],
            ) && normalize_components(comps)->0[k].len() > 0 && normalize_components(comps)->0[k]
                != seq!['.'] && normalize_components(comps)->0[k] != seq!['.', '.'],
    decreases comps.len(),
{
    if comps.len() > 0 {
        let c0 = comps.drop_last();
        lemma_normalize_elements(c0);
        let st0 = normalize_components(c0)->0;
        let st = normalize_components(comps)->0;
        let c = comps.last();
        assert forall|k: int| 0 <= k < st.len() implies comps.contains(#[trigger] st[k]) && st[k].len()
            > 0 && st[k] != seq!['.'] && st[k] != seq!['.', '.'] by {
            if k < st0.len() && st[k] == st0[k] {
                let w = choose|w: int| 0 <= w < c0.len() && c0[w] == st0[k];
                assert(comps[w] == c0[w]);
            } else {
                assert(st[k] == c);
                assert(comps[comps.len() - 1] == c);
            }
        }
    }
}

/// Every character of the joined path is `/` or a character of a part.
proof fn lemma_join_slash_chars(parts: Seq<Seq<char>>, s: Seq<char>)
    requires
        forall|k: int, m: int|
            0 <= k < parts.len() && 0 <= m < parts[k].len() ==> s.contains(#[trigger] parts[k][m]),
    ensures
        forall|m: int|
            0 <= m < join_slash(parts).len() ==> #[trigger] join_slash(parts)[m] == '/' || s.contains(
                join_slash(parts)[m],
            ),
    decreases parts.len(),
{
    if parts.len() == 1 {
        assert forall|m: int| 0 <= m < join_slash(parts).len() implies #[trigger] join_slash(parts)[m]
            == '/' || s.contains(join_slash(parts)[m]) by {
            assert(join_slash(parts)[m] == parts[0][m]);
        }
    } else if parts.len() > 1 {
        let p0 = parts.drop_last();
        assert forall|k: int, m: int| 0 <= k < p0.len() && 0 <= m < p0[k].len() implies s.contains(
            #[trigger] p0[k][m],
        ) by {
            assert(p0[k] == parts[k]);
        }
        lemma_join_slash_chars(p0, s);
        let j0 = join_slash(p0);
        let j = join_slash(parts);
        assert(j == j0 + seq!['/'] + parts.last());
        assert forall|m: int| 0 <= m < j.len() implies #[trigger] j[m] == '/' || s.contains(j[m]) by {
            if m < j0.len() {
                assert(j[m] == j0[m]);
            } else if m > j0.len() {
                assert(j[m] == parts.last()[m - j0.len() - 1]);
                assert(parts[parts.len() - 1] == parts.last());
            }
        }
    }
}

/// Joining non-empty parts gives a path as long as the first part at least,
/// starting with its first character.
proof fn lemma_join_slash_first(parts: Seq<Seq<char>>)
    requires
        parts.len() > 0,
        parts[0].len() > 0,
    ensures
        join_slash(parts).len() >= parts[0].len(),
        join_slash(parts)[0] == parts[0][0],
    decreases parts.len(),
{
    if parts.len() > 1 {
        let p0 = parts.drop_last();
        assert(p0[0] == parts[0]);
        lemma_join_slash_first(p0);
    }
}

/// Splitting `x + b`, where `b` holds no separator, extends the last piece.
proof fn lemma_split_on_append(x: Seq<char>, b: Seq<char>, sep: char)
    requires
        forall|m: int| 0 <= m < b.len() ==> #[trigger] b[m] != sep,
    ensures
        split_on(x + b, sep) == split_on(x, sep).update(
            split_on(x, sep).len() - 1,
            split_on(x, sep).last() + b,
        ),
    decreases b.len(),
{
    lemma_split_on_nonempty(x, sep);
    if b.len() == 0 {
        assert(x + b =~= x);
        assert(split_on(x, sep).last() + b =~= split_on(x, sep).last());
        assert(split_on(x, sep).update(split_on(x, sep).len() - 1, split_on(x, sep).last())
            =~= split_on(x, sep));
    } else {
        let b0 = b.drop_last();
        lemma_split_on_append(x, b0, sep);
        assert((x + b).drop_last() =~= x + b0);
        assert((x + b).last() == b.last());
        assert(b[b.len() - 1] != sep);
        lemma_split_on_nonempty(x + b0, sep);
        assert(split_on(x + b, sep) =~= split_on(x, sep).update(
            split_on(x, sep).len() - 1,
            split_on(x, sep).last() + b,
        )) by {
            assert(split_on(x, sep).last() + b0 + seq![b.last()] =~= split_on(x, sep).last() + b);
            assert((split_on(x, sep).last() + b0).push(b.last()) =~= split_on(x, sep).last() + b);
        }
    }
}

/// Splitting the joined parts gives the parts back, when none is empty or
/// holds a separator.
proof fn lemma_split_join(parts: Seq<Seq<char>>)
    requires
        parts.len() > 0,
        forall|k: int, m: int| 0 <= k < parts.len() && 0 <= m < parts[k].len() ==> #[trigger] parts[k][m] != '/',
    ensures
        split_on(join_slash(parts), '/') == parts,
    decreases parts.len(),
{
    if parts.len() == 1 {
        lemma_split_on_append(Seq::<char>::empty(), parts[0], '/');
        assert(Seq::<char>::empty() + parts[0] =~= parts[0]);
        assert(seq![Seq::<char>::empty()].update(0, Seq::<char>::empty() + parts[0]) =~= parts);
    } else {
        let p0 = parts.drop_last();
        lemma_split_join(p0);
        let j0 = join_slash(p0);
        let x = j0 + seq!['/'];
        assert(x.drop_last() =~= j0);
        assert(x.last() == '/');
        assert(split_on(x, '/') == split_on(j0, '/').push(Seq::<char>::empty()));
        assert forall|m: int| 0 <= m < parts.last().len() implies #[trigger] parts.last()[m] != '/' by {
            assert(parts[parts.len() - 1] == parts.last());
        }
        lemma_split_on_append(x, parts.last(), '/');
        assert(join_slash(parts) == x + parts.last());
        assert(Seq::<char>::empty() + parts.last() =~= parts.last());
        assert(p0.push(Seq::<char>::empty()).update(p0.len() as int, parts.last()) =~= parts);
    }
}

/// Normalizing components that are already normal changes nothing.
proof fn lemma_normalize_normal(st: Seq<Seq<char>>)
    requires
        forall|k: int|
            0 <= k < st.len() ==> (#[trigger] st[k]).len() > 0 && st[k] != seq!['.'] && st[k] != seq![
                '.',
                '.',
            ],
    ensures
        normalize_components(st) == Some(st),
    decreases st.len(),
{
    if st.len() > 0 {
        let s0 = st.drop_last();
        assert forall|k: int| 0 <= k < s0.len() implies (#[trigger] s0[k]).len() > 0 && s0[k] != seq![
            '.',
        ] && s0[k] != seq!['.', '.'] by {
            assert(s0[k] == st[k]);
        }
        lemma_normalize_normal(s0);
        assert(st[st.len() - 1] == st.last());
        assert(s0.push(st.last()) =~= st);
    } else {
        assert(st =~= Seq::<Seq<char>>::empty());
    }
}

/// A normalized workspace path is in canonical workspace-relative form and
/// is its own normal form: it is nonempty, starts with neither `/` nor a
/// drive prefix, holds no backslash, none of its `/`-separated components
/// is empty, `.` or `..`, and parsing it again gives it back.
pub proof fn lemma_workspace_path_normal_form(raw: Seq<char>)
    requires
        workspace_path_result(raw) is Ok,
    ensures
        ({
            let p = workspace_path_result(raw)->Ok_0;
            &&& p.len() > 0
            &&& p[0] != '/'
            &&& !has_drive_prefix(p)
            &&& !p.contains('\\')
            &&& forall|k: int|
                0 <= k < split_on(p, '/').len() ==> (#[trigger] split_on(p, '/')[k]).len() > 0
                    && split_on(p, '/')[k] != seq!['.'] && split_on(p, '/')[k] != seq!['.', '.']
        }),
        workspace_path_result(workspace_path_result(raw)->Ok_0) == workspace_path_result(raw),
{
    let p = workspace_path_result(raw)->Ok_0;
    let comps = split_on(raw, '/');
    let st = normalize_components(comps)->0;
    assert(p == join_slash(st));
    lemma_first_pos_none(raw, line_control_pred());
    lemma_first_pos_none(raw, eq_pred('\\'));
    lemma_split_on_pieces(raw, '/');
    lemma_normalize_elements(comps);
    assert forall|k: int, m: int| 0 <= k < st.len() && 0 <= m < st[k].len() implies #[trigger] st[k][m]
        != '/' && raw.contains(st[k][m]) by {
        assert(comps.contains(st[k]));
        let w = choose|w: int| 0 <= w < comps.len() && comps[w] == st[k];
        assert(comps[w][m] == st[k][m]);
    }
    lemma_join_slash_chars(st, raw);
    assert(st.len() > 0) by {
        if st.len() == 0 {
            assert(join_slash(st) =~= Seq::<char>::empty());
        }
    }
    lemma_join_slash_first(st);
    assert(p[0] != '/') by {
        assert(st[0][0] != '/');
    }
    assert forall|i: int| 0 <= i < p.len() implies !line_control_pred()(#[trigger] p[i]) by {
        if p[i] != '/' {
            let w = choose|w: int| 0 <= w < raw.len() && raw[w] == p[i];
            assert(!line_control_pred()(raw[w]));
        }
    }
    assert forall|i: int| 0 <= i < p.len() implies !eq_pred('\\')(#[trigger] p[i]) by {
        if p[i] != '/' {
            let w = choose|w: int| 0 <= w < raw.len() && raw[w] == p[i];
            assert(!eq_pred('\\')(raw[w]));
        }
    }
    lemma_first_pos_none(p, line_control_pred());
    lemma_first_pos_none(p, eq_pred('\\'));
    lemma_split_join(st);
    lemma_normalize_normal(st);
    assert forall|k: int| 0 <= k < split_on(p, '/').len() implies (#[trigger] split_on(p, '/')[k]).len()
        > 0 && split_on(p, '/')[k] != seq!['.'] && split_on(p, '/')[k] != seq!['.', '.'] by {
        assert(split_on(p, '/')[k] == st[k]);
    }
    assert(!p.contains('\\')) by {
        if p.contains('\\') {
            let i = choose|i: int| 0 <= i < p.len() && p[i] == '\\';
            assert(!eq_pred('\\')(p[i]));
        }
    }
}

/// A normalized, workspace-relative path.
///
/// Construction is purely lexical: `.` and empty components are dropped,
/// in-bounds `..` components are resolved, and the result is stored with
/// `/` separators. Absolute paths (including `C:`-style drive prefixes),
/// escaping paths, empty values, backslashes and control characters are
/// rejected.
#[derive(Debug, PartialEq, Eq, PartialOrd, Ord, Hash)]
pub struct WorkspacePath(String);

impl View for WorkspacePath {
    type V = Seq<char>;

    closed spec fn view(&self) -> Seq<char> {
        self.0@
    }
}

impl Clone for WorkspacePath {
    fn clone(&self) -> (r: Self)
        ensures
            r@ == self@,
    {
        WorkspacePath(self.0.clone())
    }
}

/// Pushes `c` onto the component stack (the exec side of [`normalize_step`]).
fn apply_component(stack: &mut Vec<Vec<char>>, c: Vec<char>) -> (ok: bool)
    ensures
        normalize_step(old(stack)@.map_values(|v: Vec<char>| v@), c@) is None <==> !ok,
        ok ==> final(stack)@.map_values(|v: Vec<char>| v@) == normalize_step(
            old(stack)@.map_values(|v: Vec<char>| v@),
            c@,
        )->0,
{
    let ghost before = stack@.map_values(|v: Vec<char>| v@);
    let dot = vec!['.'];
    let dotdot = vec!['.', '.'];
    proof {
        assert(dot@ =~= seq!['.']);
        assert(dotdot@ =~= seq!['.', '.']);
    }
    if c.len() == 0 || chars_eq(&c, &dot) {
        return true;
    }
    if chars_eq(&c, &dotdot) {
        if stack.len() == 0 {
            return false;
        }
        stack.pop();
        assert(stack@.map_values(|v: Vec<char>| v@) =~= before.drop_last());
        return true;
    }
    stack.push(c);
    assert(stack@.map_values(|v: Vec<char>| v@) =~= before.push(c@));
    true
}

pub proof fn lemma_split_on_step(s: Seq<char>, i: int, sep: char)
    requires
        0 <= i < s.len(),
    ensures
        s[i] == sep ==> split_on(s.subrange(0, i + 1), sep) == split_on(s.subrange(0, i), sep).push(
            Seq::<char>::empty(),
        ),
        s[i] != sep ==> split_on(s.subrange(0, i + 1), sep) == split_on(s.subrange(0, i), sep).update(
            split_on(s.subrange(0, i), sep).len() - 1,
            split_on(s.subrange(0, i), sep).last().push(s[i]),
        ),
{
    let p = s.subrange(0, i + 1);
    assert(p.drop_last() =~= s.subrange(0, i));
    assert(p.last() == s[i]);
}

proof fn lemma_normalize_push(comps: Seq<Seq<char>>, c: Seq<char>)
    ensures
        normalize_components(comps.push(c)) == match normalize_components(comps) {
            None => None,
            Some(st) => normalize_step(st, c),
        },
{
    assert(comps.push(c).drop_last() =~= comps);
}

proof fn lemma_normalize_none_push(comps: Seq<Seq<char>>, c: Seq<char>)
    requires
        normalize_components(comps) is None,
    ensures
        normalize_components(comps.push(c)) is None,
{
    lemma_normalize_push(comps, c);
}

/// Joins the components with `/`.
fn join_components(parts: &Vec<Vec<char>>) -> (r: Vec<char>)
    ensures
        r@ == join_slash(parts@.map_values(|v: Vec<char>| v@)),
{
    let ghost pv = parts@.map_values(|v: Vec<char>| v@);
    let mut out: Vec<char> = Vec::new();
    let mut i: usize = 0;
    while i < parts.len()
        invariant
            i <= parts.len(),
            pv == parts@.map_values(|v: Vec<char>| v@),
            out@ == join_slash(pv.subrange(0, i as int)),
        decreases parts.len() - i,
    {
        proof {
            let q = pv.subrange(0, i as int + 1);
            assert(q.drop_last() =~= pv.subrange(0, i as int));
            assert(q.last() == parts@[i as int]@);
        }
        if i > 0 {
            out.push('/');
        }
        push_all(&mut out, &parts[i]);
        proof {
            let q = pv.subrange(0, i as int + 1);
            if i == 0 {
                assert(join_slash(q) == q[0]);
                assert(out@ =~= q[0]);
            } else {
                assert(out@ =~= join_slash(q.drop_last()) + seq!['/'] + q.last());
            }
        }
        i += 1;
    }
    assert(pv.subrange(0, parts.len() as int) =~= pv);
    out
}

impl WorkspacePath {
    /// Parse and normalize a workspace-relative path.
    pub fn new(raw: &str) -> (r: Result<WorkspacePath, ResourceError>)
        ensures
            match r {
                Ok(p) => workspace_path_result(raw@) == Ok::<Seq<char>, ResourceErrorView>(p@),
                Err(e) => workspace_path_result(raw@) == Err::<Seq<char>, ResourceErrorView>(e@),
            },
    {
        let v = chars_of(raw);
        if is_blank(&v) {
            return Err(ResourceError::EmptyPath);
        }
        let pos = find_line_control(&v);
        proof {
            lemma_first_pos(raw@, line_control_pred(), pos);
        }
        if let Some(position) = pos {
            return Err(ResourceError::PathControlCharacter { position });
        }
        let bpos = find_char(&v, '\\');
        proof {
            lemma_first_pos(raw@, eq_pred('\\'), bpos);
        }
        if let Some(position) = bpos {
            return Err(ResourceError::WorkspacePathBackslash { position });
        }
        if (v.len() > 0 && v[0] == '/') || (v.len() >= 2 && char_is_ascii_alpha(v[0]) && v[1]
            == ':') {
            return Err(ResourceError::AbsoluteWorkspacePath { path: owned(raw) });
        }
        let mut stack: Vec<Vec<char>> = Vec::new();
        let mut cur: Vec<char> = Vec::new();
        let ghost mut done: Seq<Seq<char>> = Seq::empty();
        let mut i: usize = 0;
        proof {
            assert(v@.subrange(0, 0) =~= Seq::<char>::empty());
            assert(split_on(Seq::<char>::empty(), '/') == seq![Seq::<char>::empty()]);
            assert(done.push(cur@) =~= seq![Seq::<char>::empty()]);
        }
        while i < v.len()
            invariant
                i <= v.len(),
                v@ == raw@,
                trim(raw@).len() != 0,
                first_pos(raw@, line_control_pred()) is None,
                first_pos(raw@, eq_pred('\\')) is None,
                !((raw@.len() > 0 && raw@[0] == '/') || has_drive_prefix(raw@)),
                split_on(v@.subrange(0, i as int), '/') == done.push(cur@),
                normalize_components(done) == Some(stack@.map_values(|x: Vec<char>| x@)),
            decreases v.len() - i,
        {
            proof {
                lemma_split_on_step(v@, i as int, '/');
            }
            if v[i] == '/' {
                let c = cur;
                cur = Vec::new();
                proof {
                    lemma_normalize_push(done, c@);
                }
                let ok = apply_component(&mut stack, c);
                if !ok {
                    proof {
                        let full = split_on(raw@, '/');
                        lemma_escape_persists(v@, i as int, done.push(c@));
                    }
                    return Err(ResourceError::WorkspacePathEscape { path: owned(raw) });
                }
                proof {
                    done = done.push(c@);
                    assert(done.push(cur@) =~= split_on(v@.subrange(0, i as int), '/').push(
                        Seq::<char>::empty(),
                    ));
                }
            } else {
                cur.push(v[i]);
                proof {
                    let p = split_on(v@.subrange(0, i as int), '/');
                    assert(p.update(p.len() - 1, p.last().push(v@[i as int])) =~= done.push(cur@));
                }
            }
            i += 1;
        }
        proof {
            assert(v@.subrange(0, v@.len() as int) =~= raw@);
            lemma_normalize_push(done, cur@);
        }
        let last = cur;
        let ok = apply_component(&mut stack, last);
        if !ok {
            return Err(ResourceError::WorkspacePathEscape { path: owned(raw) });
        }
        let joined = join_components(&stack);
        if is_blank(&joined) {
            return Err(ResourceError::EmptyNormalizedWorkspacePath { path: owned(raw) });
        }
        if joined.len() >= 2 && char_is_ascii_alpha(joined[0]) && joined[1] == ':' {
            return Err(ResourceError::AbsoluteWorkspacePath { path: owned(raw) });
        }
        Ok(WorkspacePath(string_of(&joined)))
    }

    /// Get the normalized path as a string slice.
    pub fn as_str(&self) -> (r: &str)
        ensures
            r@ == self@,
    {
        self.0.as_str()
    }

    /// The normalized path (what `Display` prints).
    pub fn to_string(&self) -> (r: String)
        ensures
            r@ == self@,
    {
        self.0.clone()
    }
}

/// Once a prefix's components escape the root, every extension does too.
proof fn lemma_escape_persists(s: Seq<char>, i: int, comps: Seq<Seq<char>>)
    requires
        0 <= i < s.len(),
        s[i] == '/',
        split_on(s.subrange(0, i + 1), '/') == comps.push(Seq::<char>::empty()),
        normalize_components(comps) is None,
    ensures
        normalize_components(split_on(s, '/')) is None,
    decreases s.len() - i,
{
    assert(comps.push(Seq::<char>::empty()).drop_last() =~= comps);
    lemma_escape_extends(s, i + 1, comps.push(Seq::<char>::empty()));
}

proof fn lemma_escape_extends(s: Seq<char>, k: int, pieces: Seq<Seq<char>>)
    requires
        0 <= k <= s.len(),
        pieces.len() >= 1,
        split_on(s.subrange(0, k), '/') == pieces,
        normalize_components(pieces.drop_last()) is None,
    ensures
        normalize_components(split_on(s, '/')) is None,
    decreases s.len() - k,
{
    if k == s.len() {
        assert(s.subrange(0, k) =~= s);
        assert(pieces =~= pieces.drop_last().push(pieces.last()));
        lemma_normalize_none_push(pieces.drop_last(), pieces.last());
    } else {
        lemma_split_on_step(s, k, '/');
        if s[k] == '/' {
            let next = pieces.push(Seq::<char>::empty());
            assert(next.drop_last() =~= pieces);
            assert(pieces =~= pieces.drop_last().push(pieces.last()));
            lemma_normalize_none_push(pieces.drop_last(), pieces.last());
            lemma_escape_extends(s, k + 1, next);
        } else {
            let next = pieces.update(pieces.len() - 1, pieces.last().push(s[k]));
            assert(next.drop_last() =~= pieces.drop_last());
            lemma_escape_extends(s, k + 1, next);
        }
    }
}

// ---------------------------------------------------------------------------
// Web URLs
// ---------------------------------------------------------------------------

#[verifier::external_type_specification]
#[verifier::external_body]
pub struct ExUrlParseError(url::ParseError);

/// Opaque causal detail for malformed Web URL syntax: the parser's error
/// and the description it gives of it.
#[derive(Debug, PartialEq, Eq)]
pub struct WebUrlSyntaxError {
    source: url::ParseError,
    message: String,
}

impl WebUrlSyntaxError {
    pub closed spec fn spec_source(&self) -> url::ParseError {
        self.source
    }

    /// The parser's description of the failure.
    pub closed spec fn spec_message(&self) -> Seq<char> {
        self.message@
    }

    /// Wraps a parser error with its description.
    fn from_parse_error(e: url::ParseError) -> (r: WebUrlSyntaxError)
        ensures
            r.spec_source() == e,
    {
        let message = url_error_text(&e);
        WebUrlSyntaxError { source: e, message }
    }

    /// The parser's own error, kept as the causal source.
    pub fn source(&self) -> (r: &url::ParseError)
        ensures
            *r == self.spec_source(),
    {
        &self.source
    }

    /// The parser's description of the failure (what its `Display` prints).
    pub fn message(&self) -> (r: &str)
        ensures
            r@ == self.spec_message(),
    {
        self.message.as_str()
    }
}

/// A validated absolute HTTP or HTTPS URL, stored in normalized form.
#[derive(Debug, PartialEq, Eq, PartialOrd, Ord, Hash)]
pub struct WebUrl(String);

impl View for WebUrl {
    type V = Seq<char>;

    closed spec fn view(&self) -> Seq<char> {
        self.0@
    }
}

impl Clone for WebUrl {
    fn clone(&self) -> (r: Self)
        ensures
            r@ == self@,
    {
        WebUrl(self.0.clone())
    }
}

impl WebUrl {
    /// Get the normalized URL as a string slice.
    pub fn as_str(&self) -> (r: &str)
        ensures
            r@ == self@,
    {
        self.0.as_str()
    }

    /// The normalized URL (what `Display` prints).
    pub fn to_string(&self) -> (r: String)
        ensures
            r@ == self@,
    {
        self.0.clone()
    }
}

// ---------------------------------------------------------------------------
// Targets, roles, labels
// ---------------------------------------------------------------------------

/// The abstract value of a [`ResourceTarget`].
pub enum TargetView {
    Web(Seq<char>),
    Path(Seq<char>),
}

/// The location of an Associated Resource.
#[derive(Debug, PartialEq, Eq)]
pub enum ResourceTarget {
    /// An absolute HTTP or HTTPS URL.
    Web {
        /// The validated URL.
        url: WebUrl,
    },
    /// A normalized path relative to the Workspace root.
    Path {
        /// The validated, normalized path.
        path: WorkspacePath,
    },
}

impl View for ResourceTarget {
    type V = TargetView;

    open spec fn view(&self) -> TargetView {
        match self {
            ResourceTarget::Web { url } => TargetView::Web(url@),
            ResourceTarget::Path { path } => TargetView::Path(path@),
        }
    }
}

/// What a target displays as.
pub open spec fn target_text(t: TargetView) -> Seq<char> {
    match t {
        TargetView::Web(u) => u,
        TargetView::Path(p) => p,
    }
}

impl Clone for ResourceTarget {
    fn clone(&self) -> (r: Self)
        ensures
            r@ == self@,
    {
        match self {
            ResourceTarget::Web { url } => ResourceTarget::Web { url: url.clone() },
            ResourceTarget::Path { path } => ResourceTarget::Path { path: path.clone() },
        }
    }
}

impl ResourceTarget {
    /// Construct a Web URL target.
    pub fn web(url: WebUrl) -> (r: Self)
        ensures
            r@ == TargetView::Web(url@),
    {
        ResourceTarget::Web { url }
    }

    /// Construct a Workspace Path target.
    pub fn path(path: WorkspacePath) -> (r: Self)
        ensures
            r@ == TargetView::Path(path@),
    {
        ResourceTarget::Path { path }
    }

    /// Whether two targets are the same location.
    pub fn same_as(&self, other: &ResourceTarget) -> (r: bool)
        ensures
            r == (self@ == other@),
    {
        match (self, other) {
            (ResourceTarget::Web { url: a }, ResourceTarget::Web { url: b }) => a.0 == b.0,
            (ResourceTarget::Path { path: a }, ResourceTarget::Path { path: b }) => a.0 == b.0,
            _ => false,
        }
    }

    /// The URL or path text (what `Display` prints).
    pub fn to_string(&self) -> (r: String)
        ensures
            r@ == target_text(self@),
    {
        match self {
            ResourceTarget::Web { url } => url.to_string(),
            ResourceTarget::Path { path } => path.to_string(),
        }
    }
}

/// The reason an Associated Resource matters to its Issue.
#[derive(Debug, Clone, Copy, PartialEq, Eq, Structural)]
pub enum ResourceRole {
    /// Delivers work for the Issue (e.g., an implementation PR).
    Implementation,
    /// Explains the Issue or its context.
    Documentation,
    /// Supports a finding or decision recorded on the Issue.
    Evidence,
    /// Identifies where the Issue continues after migration.
    Successor,
    /// Generic external context; the fallback role.
    Reference,
}

/// Canonical spelling of each role.
pub open spec fn role_name(r: ResourceRole) -> Seq<char> {
    match r {
        ResourceRole::Implementation => "implementation"@,
        ResourceRole::Documentation => "documentation"@,
        ResourceRole::Evidence => "evidence"@,
        ResourceRole::Successor => "successor"@,
        ResourceRole::Reference => "reference"@,
    }
}

pub proof fn lemma_role_names_distinct()
    ensures
        forall|a: ResourceRole, b: ResourceRole| role_name(a) == role_name(b) ==> a == b,
{
    reveal_strlit("implementation");
    reveal_strlit("documentation");
    reveal_strlit("evidence");
    reveal_strlit("successor");
    reveal_strlit("reference");
    assert forall|a: ResourceRole, b: ResourceRole| role_name(a) == role_name(b) implies a
        == b by {
        if a != b {
            assert(role_name(a).len() != role_name(b).len() || role_name(a)[0] != role_name(b)[0]);
        }
    }
}

impl ResourceRole {
    /// The canonical spelling as a static string.
    pub fn as_str(&self) -> (r: &'static str)
        ensures
            r@ == role_name(*self),
    {
        match self {
            ResourceRole::Implementation => "implementation",
            ResourceRole::Documentation => "documentation",
            ResourceRole::Evidence => "evidence",
            ResourceRole::Successor => "successor",
            ResourceRole::Reference => "reference",
        }
    }

    /// The canonical spelling (what `Display` prints).
    pub fn to_string(&self) -> (r: String)
        ensures
            r@ == role_name(*self),
    {
        String::from_str(self.as_str())
    }

    /// Parse a canonical role spelling; nothing else is accepted.
    pub fn parse_str(s: &str) -> (r: Result<ResourceRole, ResourceError>)
        ensures
            match r {
                Ok(x) => role_name(x) == s@,
                Err(e) => e@ == (ResourceErrorView::UnknownRole { role: s@ }) && forall|
                    x: ResourceRole,
                | role_name(x) != s@,
            },
            forall|x: ResourceRole| role_name(x) == s@ ==> r == Ok::<ResourceRole, ResourceError>(x),
    {
        proof {
            lemma_role_names_distinct();
            assert(role_name(ResourceRole::Implementation) == "implementation"@);
            assert(role_name(ResourceRole::Documentation) == "documentation"@);
            assert(role_name(ResourceRole::Evidence) == "evidence"@);
            assert(role_name(ResourceRole::Successor) == "successor"@);
            assert(role_name(ResourceRole::Reference) == "reference"@);
        }
        if str_eq(s, "implementation") {
            Ok(ResourceRole::Implementation)
        } else if str_eq(s, "documentation") {
            Ok(ResourceRole::Documentation)
        } else if str_eq(s, "evidence") {
            Ok(ResourceRole::Evidence)
        } else if str_eq(s, "successor") {
            Ok(ResourceRole::Successor)
        } else if str_eq(s, "reference") {
            Ok(ResourceRole::Reference)
        } else {
            Err(ResourceError::UnknownRole { role: owned(s) })
        }
    }

    /// Comma-separated canonical role names, for error messages.
    pub fn valid_values() -> (r: String)
        ensures
            r@ == role_name(ResourceRole::Implementation) + ", "@ + role_name(
                ResourceRole::Documentation,
            ) + ", "@ + role_name(ResourceRole::Evidence) + ", "@ + role_name(
                ResourceRole::Successor,
            ) + ", "@ + role_name(ResourceRole::Reference),
    {
        let mut v: Vec<char> = Vec::new();
        push_str(&mut v, ResourceRole::Implementation.as_str());
        push_str(&mut v, ", ");
        push_str(&mut v, ResourceRole::Documentation.as_str());
        push_str(&mut v, ", ");
        push_str(&mut v, ResourceRole::Evidence.as_str());
        push_str(&mut v, ", ");
        push_str(&mut v, ResourceRole::Successor.as_str());
        push_str(&mut v, ", ");
        push_str(&mut v, ResourceRole::Reference.as_str());
        string_of(&v)
    }
}

impl core::str::FromStr for ResourceRole {
    type Err = ResourceError;

    fn from_str(s: &str) -> (r: Result<Self, Self::Err>)
        ensures
            match r {
                Ok(x) => role_name(x) == s@,
                Err(e) => e@ == (ResourceErrorView::UnknownRole { role: s@ }) && forall|
                    x: ResourceRole,
                | role_name(x) != s@,
            },
            forall|x: ResourceRole| role_name(x) == s@ ==> r == Ok::<ResourceRole, ResourceError>(x),
    {
        Self::parse_str(s)
    }
}

/// Why `label` is not a valid resource label, if it is not.
pub open spec fn resource_label_error(label: Seq<char>) -> Option<ResourceErrorView> {
    if trim(label).len() == 0 {
        Some(ResourceErrorView::EmptyLabel)
    } else if first_pos(label, line_control_pred()) is Some {
        Some(
            ResourceErrorView::LabelControlCharacter {
                position: first_pos(label, line_control_pred())->0 as usize,
            },
        )
    } else {
        None
    }
}

/// A validated human-readable label for an Associated Resource.
#[derive(Debug, PartialEq, Eq)]
pub struct ResourceLabel(String);

impl View for ResourceLabel {
    type V = Seq<char>;

    closed spec fn view(&self) -> Seq<char> {
        self.0@
    }
}

impl Clone for ResourceLabel {
    fn clone(&self) -> (r: Self)
        ensures
            r@ == self@,
    {
        ResourceLabel(self.0.clone())
    }
}

impl ResourceLabel {
    /// Parse a non-empty, single-line label.
    pub fn new(label: &str) -> (r: Result<ResourceLabel, ResourceError>)
        ensures
            match r {
                Ok(x) => resource_label_error(label@) is None && x@ == label@,
                Err(e) => resource_label_error(label@) == Some(e@),
            },
    {
        let v = chars_of(label);
        if is_blank(&v) {
            return Err(ResourceError::EmptyLabel);
        }
        let pos = find_line_control(&v);
        proof {
            lemma_first_pos(label@, line_control_pred(), pos);
        }
        if let Some(position) = pos {
            return Err(ResourceError::LabelControlCharacter { position });
        }
        Ok(ResourceLabel(owned(label)))
    }

    /// Get the label as a string slice.
    pub fn as_str(&self) -> (r: &str)
        ensures
            r@ == self@,
    {
        self.0.as_str()
    }
}

pub open spec fn opt_label_view(l: Option<ResourceLabel>) -> Option<Seq<char>> {
    match l {
        Some(x) => Some(x@),
        None => None,
    }
}

fn clone_opt_label(l: &Option<ResourceLabel>) -> (r: Option<ResourceLabel>)
    ensures
        opt_label_view(r) == opt_label_view(*l),
{
    match l {
        Some(x) => Some(x.clone()),
        None => None,
    }
}

// ---------------------------------------------------------------------------
// Associated resources
// ---------------------------------------------------------------------------

/// The abstract value of an [`AssociatedResource`].
pub struct ResourceView {
    pub id: Seq<char>,
    pub target: TargetView,
    pub role: ResourceRole,
    pub label: Option<Seq<char>>,
}

/// A typed reference from an Issue to relevant information or an artifact.
#[derive(Debug, PartialEq, Eq)]
pub struct AssociatedResource {
    id: ResourceId,
    target: ResourceTarget,
    role: ResourceRole,
    label: Option<ResourceLabel>,
}

impl View for AssociatedResource {
    type V = ResourceView;

    closed spec fn view(&self) -> ResourceView {
        ResourceView {
            id: self.id@,
            target: self.target@,
            role: self.role,
            label: opt_label_view(self.label),
        }
    }
}

impl Clone for AssociatedResource {
    fn clone(&self) -> (r: Self)
        ensures
            r@ == self@,
    {
        AssociatedResource {
            id: self.id.clone(),
            target: self.target.clone(),
            role: self.role,
            label: clone_opt_label(&self.label),
        }
    }
}

impl AssociatedResource {
    /// A resource from its parts.
    pub fn from_parts(
        id: ResourceId,
        target: ResourceTarget,
        role: ResourceRole,
        label: Option<ResourceLabel>,
    ) -> (r: Self)
        ensures
            r@ == (ResourceView {
                id: id@,
                target: target@,
                role: role,
                label: opt_label_view(label),
            }),
    {
        AssociatedResource { id, target, role, label }
    }

    /// The stable, opaque identifier of this resource within its Issue.
    pub fn id(&self) -> (r: &ResourceId)
        ensures
            r@ == self@.id,
    {
        &self.id
    }

    /// The location this resource points to.
    pub fn target(&self) -> (r: &ResourceTarget)
        ensures
            r@ == self@.target,
    {
        &self.target
    }

    /// Why this resource matters to its Issue.
    pub fn role(&self) -> (r: ResourceRole)
        ensures
            r == self@.role,
    {
        self.role
    }

    /// The optional human-readable label.
    pub fn label(&self) -> (r: Option<&ResourceLabel>)
        ensures
            match r {
                Some(l) => self@.label == Some(l@),
                None => self@.label is None,
            },
    {
        match &self.label {
            Some(l) => Some(l),
            None => None,
        }
    }

    /// `"[<id>] <target> (<role>)"`, followed by `" — <label>"` when labelled
    /// (what `Display` prints).
    pub fn to_string(&self) -> (r: String)
        ensures
            r@ == resource_text(self@),
    {
        let mut v: Vec<char> = Vec::new();
        push_str(&mut v, "[");
        push_str(&mut v, self.id.as_str());
        push_str(&mut v, "] ");
        let t = self.target.to_string();
        push_str(&mut v, t.as_str());
        push_str(&mut v, " (");
        push_str(&mut v, self.role.as_str());
        push_str(&mut v, ")");
        if let Some(label) = &self.label {
            push_str(&mut v, " \u{2014} ");
            push_str(&mut v, label.as_str());
        }
        string_of(&v)
    }
}

pub open spec fn resource_text(r: ResourceView) -> Seq<char> {
    let base = "["@ + r.id + "] "@ + target_text(r.target) + " ("@ + role_name(r.role) + ")"@;
    match r.label {
        Some(l) => base + " \u{2014} "@ + l,
        None => base,
    }
}

/// Data for associating a new resource with an Issue.
#[derive(Debug, PartialEq, Eq)]
pub struct NewResource {
    /// Where the resource points.
    pub target: ResourceTarget,
    /// Why the resource matters.
    pub role: ResourceRole,
    /// Optional human-readable label.
    pub label: Option<ResourceLabel>,
}

/// Data for updating an Associated Resource; `None` leaves a property
/// unchanged, and `label: Some(None)` clears the label.
#[derive(Debug, PartialEq, Eq)]
pub struct ResourceUpdate {
    /// New target (if updating).
    pub target: Option<ResourceTarget>,
    /// New role (if updating).
    pub role: Option<ResourceRole>,
    /// New label (if updating); `Some(None)` clears the label.
    pub label: Option<Option<ResourceLabel>>,
}

impl Default for ResourceUpdate {
    fn default() -> (r: Self)
        ensures
            r.target is None && r.role is None && r.label is None,
    {
        ResourceUpdate { target: None, role: None, label: None }
    }
}

/// A failure to construct or change an Associated Resource.
#[derive(Debug, PartialEq, Eq)]
pub enum ResourceError {
    /// The target's URL syntax was malformed.
    MalformedWebUrl {
        /// The rejected value.
        url: String,
        /// Opaque parser failure.
        source: WebUrlSyntaxError,
    },
    /// An HTTP(S) target omitted its explicit authority or host.
    MissingWebUrlAuthority {
        /// The rejected value.
        url: String,
    },
    /// The parsed URL used a non-HTTP(S) scheme.
    UnsupportedWebUrlScheme {
        /// The rejected value.
        url: String,
        /// The rejected scheme.
        scheme: String,
    },
    /// The role was not one of the canonical Resource Roles.
    UnknownRole {
        /// The rejected value.
        role: String,
    },
    /// The label was empty or whitespace-only.
    EmptyLabel,
    /// The label included an unsafe control character.
    LabelControlCharacter {
        /// Character offset of the invalid value.
        position: usize,
    },
    /// The path was empty or whitespace-only.
    EmptyPath,
    /// The path included a terminal-unsafe control character.
    PathControlCharacter {
        /// Character offset of the invalid value.
        position: usize,
    },
    /// The path used a backslash, which is not portable across platforms.
    WorkspacePathBackslash {
        /// Character offset of the backslash.
        position: usize,
    },
    /// The path was absolute instead of workspace-relative.
    AbsoluteWorkspacePath {
        /// The rejected value.
        path: String,
    },
    /// Parent traversal left the workspace root.
    WorkspacePathEscape {
        /// The rejected value.
        path: String,
    },
    /// Normalization left the path empty (e.g. `a/..` or `.`).
    EmptyNormalizedWorkspacePath {
        /// The rejected value.
        path: String,
    },
    /// An identical target-and-role association already exists on the Issue.
    DuplicateTargetRole {
        /// The duplicated target.
        target: ResourceTarget,
        /// The duplicated role.
        role: ResourceRole,
    },
    /// A persisted resource identifier contained a control character.
    ResourceIdControlCharacter {
        /// Character offset of the invalid value.
        position: usize,
    },
    /// Two persisted resources had the same stable identifier.
    DuplicateResourceId {
        /// The duplicated identifier.
        id: ResourceId,
    },
    /// The per-Issue resource identifier sequence reached its maximum.
    IdSequenceExhausted,
    /// A persisted resource identifier was empty.
    EmptyResourceId,
    /// No field was provided to update.
    EmptyUpdate,
    /// The referenced resource does not exist on this Issue.
    ResourceNotFound {
        /// The unknown identifier.
        id: ResourceId,
    },
}

/// The abstract value of a [`ResourceError`].
pub enum ResourceErrorView {
    MalformedWebUrl { url: Seq<char>, source: url::ParseError, message: Seq<char> },
    MissingWebUrlAuthority { url: Seq<char> },
    UnsupportedWebUrlScheme { url: Seq<char>, scheme: Seq<char> },
    UnknownRole { role: Seq<char> },
    EmptyLabel,
    LabelControlCharacter { position: usize },
    EmptyPath,
    PathControlCharacter { position: usize },
    WorkspacePathBackslash { position: usize },
    AbsoluteWorkspacePath { path: Seq<char> },
    WorkspacePathEscape { path: Seq<char> },
    EmptyNormalizedWorkspacePath { path: Seq<char> },
    DuplicateTargetRole { target: TargetView, role: ResourceRole },
    ResourceIdControlCharacter { position: usize },
    DuplicateResourceId { id: Seq<char> },
    IdSequenceExhausted,
    EmptyResourceId,
    EmptyUpdate,
    ResourceNotFound { id: Seq<char> },
}

/// The user-facing message of a resource error; for a malformed URL the
/// parser's own description follows the prefix.
pub open spec fn resource_error_message(e: ResourceErrorView) -> Seq<char> {
    match e {
        ResourceErrorView::MalformedWebUrl { url, message, .. } => "Invalid web URL '"@ + url
            + "': "@ + message,
        ResourceErrorView::MissingWebUrlAuthority { url } => "Invalid web URL '"@ + url
            + "': URL must include an explicit host after '//'"@,
        ResourceErrorView::UnsupportedWebUrlScheme { url, scheme } => "Invalid web URL '"@ + url
            + "': unsupported scheme '"@ + scheme + "'"@,
        ResourceErrorView::UnknownRole { role } => "Unknown resource role '"@ + role
            + "' (valid: implementation, documentation, evidence, successor, reference)"@,
        ResourceErrorView::EmptyLabel => "Resource label cannot be empty"@,
        ResourceErrorView::LabelControlCharacter { position } =>
            "Resource label contains invalid control character at position "@ + decimal(
            position as nat,
        ),
        ResourceErrorView::EmptyPath => "Workspace path cannot be empty"@,
        ResourceErrorView::PathControlCharacter { position } =>
            "Workspace path contains invalid control character at position "@ + decimal(
            position as nat,
        ),
        ResourceErrorView::WorkspacePathBackslash { position } =>
            "Workspace path contains '\\' at position "@ + decimal(position as nat)
            + "; use '/' as the separator"@,
        ResourceErrorView::AbsoluteWorkspacePath { path } => "Workspace path '"@ + path
            + "' must be relative to the workspace root"@,
        ResourceErrorView::WorkspacePathEscape { path } => "Workspace path '"@ + path
            + "' escapes the workspace root"@,
        ResourceErrorView::EmptyNormalizedWorkspacePath { path } => "Workspace path '"@ + path
            + "' does not refer to anything under the workspace root"@,
        ResourceErrorView::DuplicateTargetRole { target, role } =>
            "Resource with target '"@ + target_text(target) + "' and role '"@ + role_name(role)
            + "' already exists on this issue"@,
        ResourceErrorView::ResourceIdControlCharacter { position } =>
            "Resource identifier contains invalid control character at position "@ + decimal(
            position as nat,
        ),
        ResourceErrorView::DuplicateResourceId { id } => "Resource identifier '"@ + id
            + "' appears more than once on this issue"@,
        ResourceErrorView::IdSequenceExhausted =>
            "Resource identifier sequence exhausted for this issue"@,
        ResourceErrorView::EmptyResourceId => "Resource identifier cannot be empty"@,
        ResourceErrorView::EmptyUpdate => "Resource update requires at least one field"@,
        ResourceErrorView::ResourceNotFound { id } => "Resource not found: "@ + id,
    }
}

/// url's `Display` of a `ParseError`: the parser's fixed description of the
/// failure. What the text is, for each error, is not stated; it is kept with
/// the error when the error is made.
#[verifier::external_body]
fn url_error_text(e: &url::ParseError) -> (r: String) {
    e.to_string()
}

impl ResourceError {
    /// The user-facing message.
    pub fn to_string(&self) -> (r: String)
        ensures
            r@ == resource_error_message(self@),
    {
        let mut v: Vec<char> = Vec::new();
        match self {
            ResourceError::MalformedWebUrl { url, source } => {
                push_str(&mut v, "Invalid web URL '");
                push_str(&mut v, url.as_str());
                push_str(&mut v, "': ");
                push_str(&mut v, source.message());
            },
            ResourceError::MissingWebUrlAuthority { url } => {
                push_str(&mut v, "Invalid web URL '");
                push_str(&mut v, url.as_str());
                push_str(&mut v, "': URL must include an explicit host after '//'");
            },
            ResourceError::UnsupportedWebUrlScheme { url, scheme } => {
                push_str(&mut v, "Invalid web URL '");
                push_str(&mut v, url.as_str());
                push_str(&mut v, "': unsupported scheme '");
                push_str(&mut v, scheme.as_str());
                push_str(&mut v, "'");
            },
            ResourceError::UnknownRole { role } => {
                push_str(&mut v, "Unknown resource role '");
                push_str(&mut v, role.as_str());
                push_str(
                    &mut v,
                    "' (valid: implementation, documentation, evidence, successor, reference)",
                );
            },
            ResourceError::EmptyLabel => push_str(&mut v, "Resource label cannot be empty"),
            ResourceError::LabelControlCharacter { position } => {
                push_str(&mut v, "Resource label contains invalid control character at position ");
                push_decimal(&mut v, *position as u64);
            },
            ResourceError::EmptyPath => push_str(&mut v, "Workspace path cannot be empty"),
            ResourceError::PathControlCharacter { position } => {
                push_str(&mut v, "Workspace path contains invalid control character at position ");
                push_decimal(&mut v, *position as u64);
            },
            ResourceError::WorkspacePathBackslash { position } => {
                push_str(&mut v, "Workspace path contains '\\' at position ");
                push_decimal(&mut v, *position as u64);
                push_str(&mut v, "; use '/' as the separator");
            },
            ResourceError::AbsoluteWorkspacePath { path } => {
                push_str(&mut v, "Workspace path '");
                push_str(&mut v, path.as_str());
                push_str(&mut v, "' must be relative to the workspace root");
            },
            ResourceError::WorkspacePathEscape { path } => {
                push_str(&mut v, "Workspace path '");
                push_str(&mut v, path.as_str());
                push_str(&mut v, "' escapes the workspace root");
            },
            ResourceError::EmptyNormalizedWorkspacePath { path } => {
                push_str(&mut v, "Workspace path '");
                push_str(&mut v, path.as_str());
                push_str(&mut v, "' does not refer to anything under the workspace root");
            },
            ResourceError::DuplicateTargetRole { target, role } => {
                push_str(&mut v, "Resource with target '");
                let t = target.to_string();
                push_str(&mut v, t.as_str());
                push_str(&mut v, "' and role '");
                push_str(&mut v, role.as_str());
                push_str(&mut v, "' already exists on this issue");
            },
            ResourceError::ResourceIdControlCharacter { position } => {
                push_str(
                    &mut v,
                    "Resource identifier contains invalid control character at position ",
                );
                push_decimal(&mut v, *position as u64);
            },
            ResourceError::DuplicateResourceId { id } => {
                push_str(&mut v, "Resource identifier '");
                push_str(&mut v, id.as_str());
                push_str(&mut v, "' appears more than once on this issue");
            },
            ResourceError::IdSequenceExhausted => push_str(
                &mut v,
                "Resource identifier sequence exhausted for this issue",
            ),
            ResourceError::EmptyResourceId => push_str(&mut v, "Resource identifier cannot be empty"),
            ResourceError::EmptyUpdate => push_str(
                &mut v,
                "Resource update requires at least one field",
            ),
            ResourceError::ResourceNotFound { id } => {
                push_str(&mut v, "Resource not found: ");
                push_str(&mut v, id.as_str());
            },
        }
        assert(v@ =~= resource_error_message(self@));
        string_of(&v)
    }
}

impl View for ResourceError {
    type V = ResourceErrorView;

    open spec fn view(&self) -> ResourceErrorView {
        match self {
            ResourceError::MalformedWebUrl { url, source } => ResourceErrorView::MalformedWebUrl {
                url: url@,
                source: source.spec_source(),
                message: source.spec_message(),
            },
            ResourceError::MissingWebUrlAuthority { url } =>
                ResourceErrorView::MissingWebUrlAuthority { url: url@ },
            ResourceError::UnsupportedWebUrlScheme { url, scheme } =>
                ResourceErrorView::UnsupportedWebUrlScheme { url: url@, scheme: scheme@ },
            ResourceError::UnknownRole { role } => ResourceErrorView::UnknownRole { role: role@ },
            ResourceError::EmptyLabel => ResourceErrorView::EmptyLabel,
            ResourceError::LabelControlCharacter { position } =>
                ResourceErrorView::LabelControlCharacter { position: *position },
            ResourceError::EmptyPath => ResourceErrorView::EmptyPath,
            ResourceError::PathControlCharacter { position } =>
                ResourceErrorView::PathControlCharacter { position: *position },
            ResourceError::WorkspacePathBackslash { position } =>
                ResourceErrorView::WorkspacePathBackslash { position: *position },
            ResourceError::AbsoluteWorkspacePath { path } =>
                ResourceErrorView::AbsoluteWorkspacePath { path: path@ },
            ResourceError::WorkspacePathEscape { path } => ResourceErrorView::WorkspacePathEscape {
                path: path@,
            },
            ResourceError::EmptyNormalizedWorkspacePath { path } =>
                ResourceErrorView::EmptyNormalizedWorkspacePath { path: path@ },
            ResourceError::DuplicateTargetRole { target, role } =>
                ResourceErrorView::DuplicateTargetRole { target: target@, role: *role },
            ResourceError::ResourceIdControlCharacter { position } =>
                ResourceErrorView::ResourceIdControlCharacter { position: *position },
            ResourceError::DuplicateResourceId { id } => ResourceErrorView::DuplicateResourceId {
                id: id@,
            },
            ResourceError::IdSequenceExhausted => ResourceErrorView::IdSequenceExhausted,
            ResourceError::EmptyResourceId => ResourceErrorView::EmptyResourceId,
            ResourceError::EmptyUpdate => ResourceErrorView::EmptyUpdate,
            ResourceError::ResourceNotFound { id } => ResourceErrorView::ResourceNotFound {
                id: id@,
            },
        }
    }
}


// ---------------------------------------------------------------------------
// Parsing Web URLs
// ---------------------------------------------------------------------------

/// What a successful `url::Url::parse` exposes to the validator.
pub struct UrlParts {
    /// The (lowercased) scheme, e.g. `https`.
    pub scheme: String,
    /// Whether the URL has a host.
    pub has_host: bool,
    /// The normalized serialization of the whole URL.
    pub serialization: String,
}

/// The result of `url::Url::parse` on `input`: scheme, whether it has a
/// host, and its serialization; `None` when parsing fails.
pub uninterp spec fn parsed_url(input: Seq<char>) -> Option<(Seq<char>, bool, Seq<char>)>;

/// Calls `url::Url::parse`. The contract ties every success to
/// [`parsed_url`] of the input; which parse error a failure carries is left
/// unsaid.
#[verifier::external_body]
fn parse_url(input: &str) -> (r: Result<UrlParts, url::ParseError>)
    ensures
        match r {
            Ok(p) => parsed_url(input@) == Some((p.scheme@, p.has_host, p.serialization@)),
            Err(_) => parsed_url(input@) is None,
        },
{
    match url::Url::parse(input) {
        Ok(u) => Ok(
            UrlParts {
                scheme: u.scheme().to_string(),
                has_host: u.has_host(),
                serialization: u.into(),
            },
        ),
        Err(e) => Err(e),
    }
}

/// The characters `url::Url::parse` strips from both ends: space and C0
/// controls.
pub open spec fn is_url_pad(c: char) -> bool {
    c == ' ' || c <= '\u{1f}'
}

pub open spec fn url_trim_start(s: Seq<char>) -> Seq<char>
    decreases s.len(),
{
    if s.len() > 0 && is_url_pad(s[0]) {
        url_trim_start(s.drop_first())
    } else {
        s
    }
}

pub open spec fn url_trim_end(s: Seq<char>) -> Seq<char>
    decreases s.len(),
{
    if s.len() > 0 && is_url_pad(s.last()) {
        url_trim_end(s.drop_last())
    } else {
        s
    }
}

/// `raw.trim_matches(|c| c == ' ' || c <= '\u{1f}')`.
pub open spec fn url_trim(s: Seq<char>) -> Seq<char> {
    url_trim_end(url_trim_start(s))
}

proof fn lemma_url_trim_start_skip(s: Seq<char>, i: int)
    requires
        0 <= i <= s.len(),
        forall|j: int| 0 <= j < i ==> is_url_pad(#[trigger] s[j]),
    ensures
        url_trim_start(s) == url_trim_start(s.subrange(i, s.len() as int)),
    decreases i,
{
    if i > 0 {
        assert(s.drop_first() =~= s.subrange(1, s.len() as int));
        lemma_url_trim_start_skip(s.drop_first(), i - 1);
        assert(s.drop_first().subrange(i - 1, s.drop_first().len() as int) =~= s.subrange(
            i,
            s.len() as int,
        ));
    } else {
        assert(s.subrange(0, s.len() as int) =~= s);
    }
}

proof fn lemma_url_trim_end_skip(s: Seq<char>, k: int)
    requires
        0 <= k <= s.len(),
        forall|j: int| k <= j < s.len() ==> is_url_pad(#[trigger] s[j]),
    ensures
        url_trim_end(s) == url_trim_end(s.subrange(0, k)),
    decreases s.len() - k,
{
    if k < s.len() {
        assert(s.drop_last() =~= s.subrange(0, s.len() - 1));
        lemma_url_trim_end_skip(s.drop_last(), k);
        assert(s.drop_last().subrange(0, k) =~= s.subrange(0, k));
    } else {
        assert(s.subrange(0, k) =~= s);
    }
}

fn char_is_url_pad(c: char) -> (b: bool)
    ensures
        b == is_url_pad(c),
{
    c == ' ' || c <= '\u{1f}'
}

/// [`url_trim`] on a character vector.
fn url_trim_chars(s: &Vec<char>) -> (t: Vec<char>)
    ensures
        t@ == url_trim(s@),
{
    let n = s.len();
    let mut a: usize = 0;
    while a < n && char_is_url_pad(s[a])
        invariant
            a <= n,
            n == s.len(),
            forall|j: int| 0 <= j < a ==> is_url_pad(#[trigger] s@[j]),
        decreases n - a,
    {
        a += 1;
    }
    let mut b: usize = n;
    while b > a && char_is_url_pad(s[b - 1])
        invariant
            a <= b <= n,
            n == s.len(),
            forall|j: int| b <= j < n ==> is_url_pad(#[trigger] s@[j]),
        decreases b,
    {
        b -= 1;
    }
    proof {
        lemma_url_trim_start_skip(s@, a as int);
        let t = s@.subrange(a as int, n as int);
        if a < n {
            assert(t[0] == s@[a as int]);
        }
        assert(url_trim_start(t) == t);
        lemma_url_trim_end_skip(t, b - a);
        assert(t.subrange(0, b - a) =~= s@.subrange(a as int, b as int));
        let u = s@.subrange(a as int, b as int);
        if a < b {
            assert(u.last() == s@[b - 1]);
        }
        assert(url_trim_end(u) == u);
    }
    let mut t: Vec<char> = Vec::new();
    let mut i: usize = a;
    while i < b
        invariant
            a <= i <= b,
            b <= s.len(),
            t@ == s@.subrange(a as int, i as int),
        decreases b - i,
    {
        t.push(s[i]);
        i += 1;
        assert(t@ =~= s@.subrange(a as int, i as int));
    }
    t
}

/// The character index at which byte offset `n` falls in `s`, when `n` is
/// a character boundary (what `str::get(n..)` needs).
pub open spec fn char_at_byte(s: Seq<char>, n: int) -> Option<nat>
    decreases s.len(),
{
    if n == 0 {
        Some(0)
    } else if n < 0 || s.len() == 0 {
        None
    } else {
        match char_at_byte(s.drop_first(), n - crate::text::utf8_width(s[0])) {
            Some(k) => Some(k + 1),
            None => None,
        }
    }
}

/// Whether the text after the scheme starts with `://`.
pub open spec fn has_explicit_authority(trimmed: Seq<char>, scheme: Seq<char>) -> bool {
    match char_at_byte(trimmed, crate::text::utf8_len(scheme) as int) {
        Some(k) => k + 3 <= trimmed.len() && trimmed[k as int] == ':' && trimmed[k + 1 as int] == '/'
            && trimmed[k + 2 as int] == '/',
        None => false,
    }
}

pub open spec fn is_http_scheme(scheme: Seq<char>) -> bool {
    scheme == "http"@ || scheme == "https"@
}

proof fn lemma_char_at_byte_step(s: Seq<char>, i: int, n: int)
    requires
        0 <= i < s.len(),
        n != 0,
    ensures
        char_at_byte(s.subrange(i, s.len() as int), n) == match char_at_byte(
            s.subrange(i + 1, s.len() as int),
            n - crate::text::utf8_width(s[i]),
        ) {
            Some(k) => if n < 0 { None } else { Some(k + 1) },
            None => None::<nat>,
        },
{
    let t = s.subrange(i, s.len() as int);
    assert(t.drop_first() =~= s.subrange(i + 1, s.len() as int));
    assert(t[0] == s[i]);
}

/// `char_at_byte(s, n)`.
fn find_char_at_byte(s: &Vec<char>, n: usize) -> (r: Option<usize>)
    ensures
        match r {
            Some(k) => char_at_byte(s@, n as int) == Some(k as nat),
            None => char_at_byte(s@, n as int) is None,
        },
{
    let mut i: usize = 0;
    let mut rem: usize = n;
    assert(s@.subrange(0, s@.len() as int) =~= s@);
    while i < s.len() && rem > 0
        invariant
            i <= s.len(),
            rem <= n,
            char_at_byte(s@, n as int) == match char_at_byte(
                s@.subrange(i as int, s@.len() as int),
                rem as int,
            ) {
                Some(k) => Some((k + i) as nat),
                None => None::<nat>,
            },
        decreases s.len() - i,
    {
        let w = crate::text::char_utf8_width(s[i]);
        proof {
            lemma_char_at_byte_step(s@, i as int, rem as int);
        }
        if w > rem {
            proof {
                let t = s@.subrange(i as int + 1, s@.len() as int);
                assert(char_at_byte(t, rem - w) is None) by {
                    if t.len() == 0 {
                    } else {
                    }
                }
            }
            return None;
        }
        rem = rem - w;
        i += 1;
    }
    if rem == 0 {
        Some(i)
    } else {
        proof {
            assert(s@.subrange(i as int, s@.len() as int).len() == 0);
        }
        None
    }
}

/// Decide a Web URL from the parse of its trimmed text.
pub fn web_url_from_parsed(
    raw: &str,
    trimmed: &Vec<char>,
    parsed: Result<UrlParts, url::ParseError>,
) -> (r: Result<WebUrl, ResourceError>)
    ensures
        match parsed {
            Err(e) => match r {
                Err(err) => err@ is MalformedWebUrl && err@->MalformedWebUrl_url == raw@
                    && err@->MalformedWebUrl_source == e,
                Ok(_) => false,
            },
            Ok(p) => if is_http_scheme(p.scheme@) {
                if has_explicit_authority(trimmed@, p.scheme@) && p.has_host {
                    match r {
                        Ok(u) => u@ == p.serialization@,
                        Err(_) => false,
                    }
                } else {
                    match r {
                        Err(err) => err@ == (ResourceErrorView::MissingWebUrlAuthority {
                            url: raw@,
                        }),
                        Ok(_) => false,
                    }
                }
            } else {
                match r {
                    Err(err) => err@ == (ResourceErrorView::UnsupportedWebUrlScheme {
                        url: raw@,
                        scheme: p.scheme@,
                    }),
                    Ok(_) => false,
                }
            },
        },
{
    match parsed {
        Err(e) => Err(
            ResourceError::MalformedWebUrl {
                url: owned(raw),
                source: WebUrlSyntaxError::from_parse_error(e),
            },
        ),
        Ok(p) => {
            let is_http = str_eq(p.scheme.as_str(), "http") || str_eq(p.scheme.as_str(), "https");
            if !is_http {
                return Err(
                    ResourceError::UnsupportedWebUrlScheme { url: owned(raw), scheme: p.scheme },
                );
            }
            let scheme_bytes = crate::text::byte_len(p.scheme.as_str());
            let explicit = match find_char_at_byte(trimmed, scheme_bytes) {
                Some(k) => k <= trimmed.len() && trimmed.len() - k >= 3 && trimmed[k] == ':'
                    && trimmed[k + 1] == '/' && trimmed[k + 2] == '/',
                None => false,
            };
            if explicit && p.has_host {
                Ok(WebUrl(p.serialization))
            } else {
                Err(ResourceError::MissingWebUrlAuthority { url: owned(raw) })
            }
        },
    }
}

impl WebUrl {
    /// Parse an absolute HTTP or HTTPS URL.
    ///
    /// Spaces and C0 controls are stripped from both ends before parsing;
    /// the URL must then parse, use the `http` or `https` scheme, write
    /// `://` right after the scheme, and name a host. The stored value is
    /// the parser's normalized serialization.
    pub fn new(raw: &str) -> (r: Result<WebUrl, ResourceError>)
        ensures
            web_url_outcome(
                raw@,
                match r {
                    Ok(u) => Ok(u@),
                    Err(e) => Err(e@),
                },
            ),
            match parsed_url(url_trim(raw@)) {
                None => match r {
                    Err(err) => err@ is MalformedWebUrl && err@->MalformedWebUrl_url == raw@,
                    Ok(_) => false,
                },
                Some(p) => if is_http_scheme(p.0) {
                    if has_explicit_authority(url_trim(raw@), p.0) && p.1 {
                        match r {
                            Ok(u) => u@ == p.2,
                            Err(_) => false,
                        }
                    } else {
                        match r {
                            Err(err) => err@ == (ResourceErrorView::MissingWebUrlAuthority {
                                url: raw@,
                            }),
                            Ok(_) => false,
                        }
                    }
                } else {
                    match r {
                        Err(err) => err@ == (ResourceErrorView::UnsupportedWebUrlScheme {
                            url: raw@,
                            scheme: p.0,
                        }),
                        Ok(_) => false,
                    }
                },
            },
    {
        let v = chars_of(raw);
        let trimmed = url_trim_chars(&v);
        let text = string_of(&trimmed);
        let parsed = parse_url(text.as_str());
        web_url_from_parsed(raw, &trimmed, parsed)
    }
}

} // verus!
