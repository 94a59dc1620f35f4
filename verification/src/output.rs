//! Text rendering for the command line: output settings, semantic colors and
//! icons, and dependency trees.
//!
//! Colors come from the `colored` crate, which decides at run time (from the
//! environment and its global override) whether to emit ANSI escapes. Every
//! function here is exact when `use_colors` is off; with colors on, each
//! painted piece is either left as it is or wrapped in its SGR sequence.

use colored::Colorize;
use vstd::prelude::*;

use crate::domain::{
    Dependency, DependencyType, IssueKind, IssueStatus, dep_type_name, kind_name, status_name,
};
use crate::text::{decimal, owned, parse_u64_from, parse_u64_spec, push_all, push_decimal, push_str,
    string_of, string_push};

verus! {

/// Default maximum content width for text wrapping.
pub const DEFAULT_MAX_CONTENT_WIDTH: usize = 80;

/// Output format for CLI commands.
#[derive(Debug, Clone, Copy, PartialEq, Eq, Structural)]
pub enum OutputMode {
    /// Human-readable text output.
    Text,
    /// JSON output for programmatic use.
    Json,
}

/// Settings that control how output is formatted.
#[derive(Debug, Clone, Copy, PartialEq, Eq, Structural)]
pub struct OutputConfig {
    /// Maximum content width for text wrapping.
    pub max_width: usize,
    /// Whether to use ASCII-only icons instead of Unicode.
    pub use_ascii: bool,
    /// Whether to use colors in output.
    pub use_colors: bool,
}

/// ASCII lower case of one character.
pub open spec fn ascii_lower(c: char) -> char {
    if 'A' <= c && c <= 'Z' {
        ((c as int) + 32) as char
    } else {
        c
    }
}

/// `str::eq_ignore_ascii_case`.
pub open spec fn eq_ignore_ascii_case(a: Seq<char>, b: Seq<char>) -> bool {
    a.len() == b.len() && forall|i: int| 0 <= i < a.len() ==> #[trigger] ascii_lower(a[i])
        == ascii_lower(b[i])
}

fn char_ascii_lower(c: char) -> (r: char)
    ensures
        r == ascii_lower(c),
{
    if c >= 'A' && c <= 'Z' {
        ((c as u8) + 32) as char
    } else {
        c
    }
}

pub(crate) fn str_eq_ignore_ascii_case(a: &str, b: &str) -> (r: bool)
    ensures
        r == eq_ignore_ascii_case(a@, b@),
{
    let x = crate::text::chars_of(a);
    let y = crate::text::chars_of(b);
    if x.len() != y.len() {
        return false;
    }
    let mut i: usize = 0;
    while i < x.len()
        invariant
            i <= x@.len(),
            x@ == a@,
            y@ == b@,
            x@.len() == y@.len(),
            forall|t: int| 0 <= t < i ==> #[trigger] ascii_lower(x@[t]) == ascii_lower(y@[t]),
        decreases x.len() - i,
    {
        if char_ascii_lower(x[i]) != char_ascii_lower(y[i]) {
            return false;
        }
        i += 1;
    }
    true
}

/// `RIVETS_MAX_WIDTH`: a non-empty value that parses as `usize`, else 80.
pub open spec fn width_setting(v: Option<Seq<char>>) -> usize {
    match v {
        Some(s) => if s.len() > 0 {
            match parse_u64_spec(s) {
                Some(n) => if n <= usize::MAX {
                    n as usize
                } else {
                    DEFAULT_MAX_CONTENT_WIDTH
                },
                None => DEFAULT_MAX_CONTENT_WIDTH,
            }
        } else {
            DEFAULT_MAX_CONTENT_WIDTH
        },
        None => DEFAULT_MAX_CONTENT_WIDTH,
    }
}

/// `RIVETS_ASCII`: on for `1` or `true` (any ASCII case), off otherwise.
pub open spec fn ascii_setting(v: Option<Seq<char>>) -> bool {
    match v {
        Some(s) => s == "1"@ || eq_ignore_ascii_case(s, "true"@),
        None => false,
    }
}

/// Colors are on unless `NO_COLOR` is set or `RIVETS_COLOR` is `0` or
/// `false` (any ASCII case).
pub open spec fn color_setting(no_color: Option<Seq<char>>, rivets_color: Option<Seq<char>>) -> bool {
    no_color is None && match rivets_color {
        Some(s) => s != "0"@ && !eq_ignore_ascii_case(s, "false"@),
        None => true,
    }
}

impl OutputConfig {
    /// A configuration with explicit values.
    pub fn new(max_width: usize, use_ascii: bool, use_colors: bool) -> (c: Self)
        ensures
            c.max_width == max_width,
            c.use_ascii == use_ascii,
            c.use_colors == use_colors,
    {
        OutputConfig { max_width, use_ascii, use_colors }
    }

    /// The configuration the environment asks for, from the values of
    /// `RIVETS_MAX_WIDTH`, `RIVETS_ASCII`, `NO_COLOR` and `RIVETS_COLOR`
    /// (`None` for a variable that is unset or not Unicode).
    pub fn from_env_values(
        max_width: Option<&str>,
        ascii: Option<&str>,
        no_color: Option<&str>,
        rivets_color: Option<&str>,
    ) -> (c: Self)
        ensures
            c.max_width == width_setting(crate::domain::opt_view(max_width)),
            c.use_ascii == ascii_setting(crate::domain::opt_view(ascii)),
            c.use_colors == color_setting(
                crate::domain::opt_view(no_color),
                crate::domain::opt_view(rivets_color),
            ),
    {
        let width = match max_width {
            Some(s) => {
                let v = crate::text::chars_of(s);
                if v.len() > 0 {
                    assert(v@.subrange(0, v@.len() as int) =~= v@);
                    match parse_u64_from(&v, 0) {
                        Some(n) => if n <= usize::MAX as u64 {
                            n as usize
                        } else {
                            DEFAULT_MAX_CONTENT_WIDTH
                        },
                        None => DEFAULT_MAX_CONTENT_WIDTH,
                    }
                } else {
                    DEFAULT_MAX_CONTENT_WIDTH
                }
            },
            None => DEFAULT_MAX_CONTENT_WIDTH,
        };
        let use_ascii = match ascii {
            Some(s) => {
                crate::text::str_eq(s, "1") || str_eq_ignore_ascii_case(s, "true")
            },
            None => false,
        };
        let use_colors = match no_color {
            Some(_) => false,
            None => match rivets_color {
                Some(s) => {
                    !crate::text::str_eq(s, "0") && !str_eq_ignore_ascii_case(s, "false")
                },
                None => true,
            },
        };
        OutputConfig { max_width: width, use_ascii, use_colors }
    }
}

impl Default for OutputConfig {
    fn default() -> (c: Self)
        ensures
            c.max_width == DEFAULT_MAX_CONTENT_WIDTH,
            !c.use_ascii,
            c.use_colors,
    {
        OutputConfig { max_width: DEFAULT_MAX_CONTENT_WIDTH, use_ascii: false, use_colors: true }
    }
}

// ---------------------------------------------------------------------------
// ANSI styling through `colored`
// ---------------------------------------------------------------------------

/// The SGR sequence that starts a style.
pub open spec fn sgr(code: Seq<char>) -> Seq<char> {
    seq!['\u{1b}', '['] + code + seq!['m']
}

/// The SGR reset sequence.
pub open spec fn sgr_reset() -> Seq<char> {
    seq!['\u{1b}', '[', '0', 'm']
}

/// What a `colored` call can turn `text` into: the text itself (colors off)
/// or, when the text holds no escape character, the text wrapped in the
/// style's SGR sequence and a reset.
pub open spec fn styled(text: Seq<char>, code: Seq<char>, r: Seq<char>) -> bool {
    r == text || text.contains('\u{1b}') || r == sgr(code) + text + sgr_reset()
}

pub open spec fn code_red() -> Seq<char> {
    seq!['3', '1']
}

pub open spec fn code_green() -> Seq<char> {
    seq!['3', '2']
}

pub open spec fn code_yellow() -> Seq<char> {
    seq!['3', '3']
}

pub open spec fn code_blue() -> Seq<char> {
    seq!['3', '4']
}

pub open spec fn code_magenta() -> Seq<char> {
    seq!['3', '5']
}

pub open spec fn code_cyan() -> Seq<char> {
    seq!['3', '6']
}

pub open spec fn code_white() -> Seq<char> {
    seq!['3', '7']
}

pub open spec fn code_bold() -> Seq<char> {
    seq!['1']
}

pub open spec fn code_dimmed() -> Seq<char> {
    seq!['2']
}

/// Bold is written before the color.
pub open spec fn code_bold_with(color: Seq<char>) -> Seq<char> {
    seq!['1', ';'] + color
}

/// colored's `Colorize::red`, rendered with `to_string`: the text unchanged
/// when colorizing is off, else `ESC[31m` + text + `ESC[0m` (a text holding
/// reset sequences gets the style re-inserted after each; that case is not
/// stated).
#[verifier::external_body]
fn paint_red(text: &str) -> (r: String)
    ensures
        styled(text@, code_red(), r@),
{
    text.red().to_string()
}

/// colored's `Colorize::green`, rendered with `to_string`; as [`paint_red`]
/// with `ESC[32m`.
#[verifier::external_body]
fn paint_green(text: &str) -> (r: String)
    ensures
        styled(text@, code_green(), r@),
{
    text.green().to_string()
}

/// colored's `Colorize::yellow`, rendered with `to_string`; as
/// [`paint_red`] with `ESC[33m`.
#[verifier::external_body]
fn paint_yellow(text: &str) -> (r: String)
    ensures
        styled(text@, code_yellow(), r@),
{
    text.yellow().to_string()
}

/// colored's `Colorize::blue`, rendered with `to_string`; as [`paint_red`]
/// with `ESC[34m`.
#[verifier::external_body]
fn paint_blue(text: &str) -> (r: String)
    ensures
        styled(text@, code_blue(), r@),
{
    text.blue().to_string()
}

/// colored's `Colorize::magenta`, rendered with `to_string`; as
/// [`paint_red`] with `ESC[35m`.
#[verifier::external_body]
fn paint_magenta(text: &str) -> (r: String)
    ensures
        styled(text@, code_magenta(), r@),
{
    text.magenta().to_string()
}

/// colored's `Colorize::cyan`, rendered with `to_string`; as [`paint_red`]
/// with `ESC[36m`.
#[verifier::external_body]
fn paint_cyan(text: &str) -> (r: String)
    ensures
        styled(text@, code_cyan(), r@),
{
    text.cyan().to_string()
}

/// colored's `Colorize::white`, rendered with `to_string`; as [`paint_red`]
/// with `ESC[37m`.
#[verifier::external_body]
fn paint_white(text: &str) -> (r: String)
    ensures
        styled(text@, code_white(), r@),
{
    text.white().to_string()
}

/// colored's `Colorize::bold`, rendered with `to_string`; as [`paint_red`]
/// with `ESC[1m`.
#[verifier::external_body]
fn paint_bold(text: &str) -> (r: String)
    ensures
        styled(text@, code_bold(), r@),
{
    text.bold().to_string()
}

/// colored's `Colorize::dimmed`, rendered with `to_string`; as
/// [`paint_red`] with `ESC[2m`.
#[verifier::external_body]
fn paint_dimmed(text: &str) -> (r: String)
    ensures
        styled(text@, code_dimmed(), r@),
{
    text.dimmed().to_string()
}

/// colored's `red().bold()`, rendered with `to_string`; as [`paint_red`]
/// with `ESC[1;31m`.
#[verifier::external_body]
fn paint_red_bold(text: &str) -> (r: String)
    ensures
        styled(text@, code_bold_with(code_red()), r@),
{
    text.red().bold().to_string()
}

/// colored's `magenta().bold()`, rendered with `to_string`; as
/// [`paint_red`] with `ESC[1;35m`.
#[verifier::external_body]
fn paint_magenta_bold(text: &str) -> (r: String)
    ensures
        styled(text@, code_bold_with(code_magenta()), r@),
{
    text.magenta().bold().to_string()
}

/// colored's `cyan().bold()`, rendered with `to_string`; as [`paint_red`]
/// with `ESC[1;36m`.
#[verifier::external_body]
fn paint_cyan_bold(text: &str) -> (r: String)
    ensures
        styled(text@, code_bold_with(code_cyan()), r@),
{
    text.cyan().bold().to_string()
}

/// Bold cyan, the style of a tree's root icon.
pub(crate) fn bold_cyan(text: &str) -> (r: String)
    ensures
        styled(text@, code_bold_with(code_cyan()), r@),
{
    paint_cyan_bold(text)
}

/// The text painted with `code` when colors are on, unchanged otherwise.
pub open spec fn painted(text: Seq<char>, code: Seq<char>, config: OutputConfig, r: Seq<char>) -> bool {
    if config.use_colors {
        styled(text, code, r)
    } else {
        r == text
    }
}

// ---------------------------------------------------------------------------
// Rendered text as a sequence of pieces
// ---------------------------------------------------------------------------

/// A piece of rendered text: written as it is, or painted with an SGR code
/// when colors are on.
pub enum Piece {
    /// Text written unchanged.
    Plain(Seq<char>),
    /// Text and the code it is painted with.
    Paint(Seq<char>, Seq<char>),
}

/// The text of a piece, before any painting.
pub open spec fn piece_text(p: Piece) -> Seq<char> {
    match p {
        Piece::Plain(t) => t,
        Piece::Paint(t, _) => t,
    }
}

/// What writing a piece can give.
pub open spec fn piece_shows(p: Piece, config: OutputConfig, r: Seq<char>) -> bool {
    match p {
        Piece::Plain(t) => r == t,
        Piece::Paint(t, code) => painted(t, code, config, r),
    }
}

/// The texts of the pieces one after another, unpainted.
pub open spec fn plain(pieces: Seq<Piece>) -> Seq<char>
    decreases pieces.len(),
{
    if pieces.len() == 0 {
        Seq::<char>::empty()
    } else {
        plain(pieces.drop_last()) + piece_text(pieces.last())
    }
}

/// The texts `rs` are what writing the pieces one by one gave.
pub open spec fn writes(pieces: Seq<Piece>, config: OutputConfig, rs: Seq<Seq<char>>) -> bool {
    &&& rs.len() == pieces.len()
    &&& forall|k: int| 0 <= k < rs.len() ==> piece_shows(pieces[k], config, #[trigger] rs[k])
}

/// `out` is `base` followed by what writing each piece in turn can give.
pub open spec fn shows(base: Seq<char>, pieces: Seq<Piece>, config: OutputConfig, out: Seq<char>) -> bool {
    exists|rs: Seq<Seq<char>>| writes(pieces, config, rs) && out == base + rs.flatten_alt()
}

proof fn lemma_flatten_alt_concat(a: Seq<Seq<char>>, b: Seq<Seq<char>>)
    ensures
        (a + b).flatten_alt() == a.flatten_alt() + b.flatten_alt(),
    decreases b.len(),
{
    if b.len() == 0 {
        assert(a + b =~= a);
        assert(a.flatten_alt() + b.flatten_alt() =~= a.flatten_alt());
    } else {
        lemma_flatten_alt_concat(a, b.drop_last());
        assert((a + b).drop_last() =~= a + b.drop_last());
        assert((a + b).last() == b.last());
        assert((a + b).flatten_alt() =~= a.flatten_alt() + b.flatten_alt());
    }
}

proof fn lemma_writes_plain(pieces: Seq<Piece>, config: OutputConfig, rs: Seq<Seq<char>>)
    requires
        !config.use_colors,
        writes(pieces, config, rs),
    ensures
        rs.flatten_alt() == plain(pieces),
    decreases pieces.len(),
{
    if pieces.len() > 0 {
        let n = pieces.len() - 1;
        assert(piece_shows(pieces[n], config, rs[n]));
        assert forall|k: int| 0 <= k < rs.drop_last().len() implies piece_shows(
            pieces.drop_last()[k],
            config,
            #[trigger] rs.drop_last()[k],
        ) by {
            assert(piece_shows(pieces[k], config, rs[k]));
        }
        lemma_writes_plain(pieces.drop_last(), config, rs.drop_last());
    }
}

/// The plain text of two runs of pieces is their plain texts in turn.
pub proof fn lemma_plain_concat(a: Seq<Piece>, b: Seq<Piece>)
    ensures
        plain(a + b) == plain(a) + plain(b),
    decreases b.len(),
{
    if b.len() == 0 {
        assert(a + b =~= a);
        assert(plain(a) + plain(b) =~= plain(a));
    } else {
        lemma_plain_concat(a, b.drop_last());
        assert((a + b).drop_last() =~= a + b.drop_last());
        assert((a + b).last() == b.last());
        assert(plain(a + b) =~= plain(a) + plain(b));
    }
}

/// With colors off, the pieces are written as their plain texts.
pub proof fn lemma_shows_plain(base: Seq<char>, pieces: Seq<Piece>, config: OutputConfig, out: Seq<char>)
    requires
        !config.use_colors,
        shows(base, pieces, config, out),
    ensures
        out == base + plain(pieces),
{
    let rs = choose|rs: Seq<Seq<char>>| writes(pieces, config, rs) && out == base + rs.flatten_alt();
    lemma_writes_plain(pieces, config, rs);
}

/// Writing one more piece after what the pieces so far gave.
pub proof fn lemma_shows_push(
    base: Seq<char>,
    pieces: Seq<Piece>,
    config: OutputConfig,
    mid: Seq<char>,
    p: Piece,
    r: Seq<char>,
)
    requires
        shows(base, pieces, config, mid),
        piece_shows(p, config, r),
    ensures
        shows(base, pieces.push(p), config, mid + r),
{
    let rs = choose|rs: Seq<Seq<char>>| writes(pieces, config, rs) && mid == base + rs.flatten_alt();
    let rs2 = rs.push(r);
    assert(rs2.drop_last() =~= rs);
    assert forall|k: int| 0 <= k < rs2.len() implies piece_shows(
        pieces.push(p)[k],
        config,
        #[trigger] rs2[k],
    ) by {
        if k < rs.len() {
            assert(piece_shows(pieces[k], config, rs[k]));
        }
    }
    assert(mid + r =~= base + rs2.flatten_alt());
    assert(writes(pieces.push(p), config, rs2));
}

/// Writing two runs of pieces one after the other.
pub proof fn lemma_shows_concat(
    base: Seq<char>,
    a: Seq<Piece>,
    b: Seq<Piece>,
    config: OutputConfig,
    mid: Seq<char>,
    out: Seq<char>,
)
    requires
        shows(base, a, config, mid),
        shows(mid, b, config, out),
    ensures
        shows(base, a + b, config, out),
{
    let ra = choose|rs: Seq<Seq<char>>| writes(a, config, rs) && mid == base + rs.flatten_alt();
    let rb = choose|rs: Seq<Seq<char>>| writes(b, config, rs) && out == mid + rs.flatten_alt();
    let rs = ra + rb;
    assert forall|k: int| 0 <= k < rs.len() implies piece_shows((a + b)[k], config, #[trigger] rs[k]) by {
        if k < ra.len() {
            assert(piece_shows(a[k], config, ra[k]));
        } else {
            assert(piece_shows(b[k - ra.len()], config, rb[k - ra.len()]));
        }
    }
    lemma_flatten_alt_concat(ra, rb);
    assert(out =~= base + rs.flatten_alt());
    assert(writes(a + b, config, rs));
}

/// What the pieces give after `base` they also give after `pre + base`.
pub proof fn lemma_shows_rebase(
    pre: Seq<char>,
    base: Seq<char>,
    pieces: Seq<Piece>,
    config: OutputConfig,
    out: Seq<char>,
)
    requires
        shows(base, pieces, config, out),
    ensures
        shows(pre + base, pieces, config, pre + out),
{
    let rs = choose|rs: Seq<Seq<char>>| writes(pieces, config, rs) && out == base + rs.flatten_alt();
    assert(pre + out =~= (pre + base) + rs.flatten_alt());
}

/// Pushes `s`, which is what writing piece `i` of `t` gave.
pub(crate) fn push_piece(
    v: &mut Vec<char>,
    s: &str,
    Ghost(base): Ghost<Seq<char>>,
    Ghost(t): Ghost<Seq<Piece>>,
    Ghost(i): Ghost<int>,
    config: &OutputConfig,
)
    requires
        0 <= i < t.len(),
        shows(base, t.take(i), *config, old(v)@),
        piece_shows(t[i], *config, s@),
    ensures
        shows(base, t.take(i + 1), *config, final(v)@),
{
    let ghost before = v@;
    push_str(v, s);
    proof {
        lemma_shows_push(base, t.take(i), *config, before, t[i], s@);
        assert(t.take(i).push(t[i]) =~= t.take(i + 1));
    }
}

/// Pushes `c`, the plain piece `i` of `t`.
pub(crate) fn push_piece_char(
    v: &mut Vec<char>,
    c: char,
    Ghost(base): Ghost<Seq<char>>,
    Ghost(t): Ghost<Seq<Piece>>,
    Ghost(i): Ghost<int>,
    config: &OutputConfig,
)
    requires
        0 <= i < t.len(),
        shows(base, t.take(i), *config, old(v)@),
        t[i] == Piece::Plain(seq![c]),
    ensures
        shows(base, t.take(i + 1), *config, final(v)@),
{
    let ghost before = v@;
    v.push(c);
    proof {
        lemma_shows_push(base, t.take(i), *config, before, t[i], seq![c]);
        assert(t.take(i).push(t[i]) =~= t.take(i + 1));
        assert(v@ =~= before + seq![c]);
    }
}

/// Writing a single piece.
pub proof fn lemma_shows_one(base: Seq<char>, p: Piece, config: OutputConfig, r: Seq<char>)
    requires
        piece_shows(p, config, r),
    ensures
        shows(base, seq![p], config, base + r),
{
    lemma_shows_start(base, Seq::<Piece>::empty(), config);
    assert(Seq::<Piece>::empty().take(0) =~= Seq::<Piece>::empty());
    lemma_shows_push(base, Seq::<Piece>::empty(), config, base, p, r);
    assert(Seq::<Piece>::empty().push(p) =~= seq![p]);
}

/// Starts writing `t` after `base`.
pub proof fn lemma_shows_start(base: Seq<char>, t: Seq<Piece>, config: OutputConfig)
    ensures
        shows(base, t.take(0), config, base),
{
    let rs = Seq::<Seq<char>>::empty();
    assert(base + rs.flatten_alt() =~= base);
    assert(writes(t.take(0), config, rs));
}

/// Semantic "success" color (green).
pub fn success(text: &str, config: &OutputConfig) -> (r: String)
    ensures
        painted(text@, code_green(), *config, r@),
{
    if !config.use_colors {
        return owned(text);
    }
    paint_green(text)
}

/// Semantic "error" color (red).
pub fn error(text: &str, config: &OutputConfig) -> (r: String)
    ensures
        painted(text@, code_red(), *config, r@),
{
    if !config.use_colors {
        return owned(text);
    }
    paint_red(text)
}

/// Semantic "warning" color (yellow).
pub fn warning(text: &str, config: &OutputConfig) -> (r: String)
    ensures
        painted(text@, code_yellow(), *config, r@),
{
    if !config.use_colors {
        return owned(text);
    }
    paint_yellow(text)
}

/// Semantic "info" color (cyan).
pub fn info(text: &str, config: &OutputConfig) -> (r: String)
    ensures
        painted(text@, code_cyan(), *config, r@),
{
    if !config.use_colors {
        return owned(text);
    }
    paint_cyan(text)
}

/// Dimmed style (field labels, connectors).
pub fn dimmed(text: &str, config: &OutputConfig) -> (r: String)
    ensures
        painted(text@, code_dimmed(), *config, r@),
{
    if !config.use_colors {
        return owned(text);
    }
    paint_dimmed(text)
}

/// Bold style (section headers).
pub fn bold(text: &str, config: &OutputConfig) -> (r: String)
    ensures
        painted(text@, code_bold(), *config, r@),
{
    if !config.use_colors {
        return owned(text);
    }
    paint_bold(text)
}

/// Cyan (arrows and connectors).
pub fn cyan(text: &str, config: &OutputConfig) -> (r: String)
    ensures
        painted(text@, code_cyan(), *config, r@),
{
    if !config.use_colors {
        return owned(text);
    }
    paint_cyan(text)
}

/// Yellow (arrows and connectors).
pub fn yellow(text: &str, config: &OutputConfig) -> (r: String)
    ensures
        painted(text@, code_yellow(), *config, r@),
{
    if !config.use_colors {
        return owned(text);
    }
    paint_yellow(text)
}

/// The color of each status: white, yellow, red, green.
pub open spec fn status_code(s: IssueStatus) -> Seq<char> {
    match s {
        IssueStatus::Open => code_white(),
        IssueStatus::InProgress => code_yellow(),
        IssueStatus::Blocked => code_red(),
        IssueStatus::Closed => code_green(),
    }
}

fn paint_status(text: &str, status: IssueStatus) -> (r: String)
    ensures
        styled(text@, status_code(status), r@),
{
    match status {
        IssueStatus::Open => paint_white(text),
        IssueStatus::InProgress => paint_yellow(text),
        IssueStatus::Blocked => paint_red(text),
        IssueStatus::Closed => paint_green(text),
    }
}

/// The status name, colored by status.
pub fn colorize_status(status: IssueStatus, config: &OutputConfig) -> (r: String)
    ensures
        painted(status_name(status), status_code(status), *config, r@),
{
    let text = status.as_str();
    if !config.use_colors {
        return owned(text);
    }
    paint_status(text, status)
}

/// `P{priority}`.
pub open spec fn priority_text(p: u8) -> Seq<char> {
    seq!['P'] + decimal(p as nat)
}

fn priority_string(p: u8) -> (r: String)
    ensures
        r@ == priority_text(p),
{
    let mut v: Vec<char> = Vec::new();
    v.push('P');
    push_decimal(&mut v, p as u64);
    string_of(&v)
}

/// The piece `P{priority}`: P0 bold red, P1 yellow, others plain.
pub open spec fn priority_piece(priority: u8) -> Piece {
    if priority == 0 {
        Piece::Paint(priority_text(priority), code_bold_with(code_red()))
    } else if priority == 1 {
        Piece::Paint(priority_text(priority), code_yellow())
    } else {
        Piece::Plain(priority_text(priority))
    }
}

/// `P{priority}`: P0 bold red, P1 yellow, others plain even with colors.
pub fn colorize_priority(priority: u8, config: &OutputConfig) -> (r: String)
    ensures
        piece_shows(priority_piece(priority), *config, r@),
        !config.use_colors || priority > 1 ==> r@ == priority_text(priority),
        config.use_colors && priority == 0 ==> styled(
            priority_text(priority),
            code_bold_with(code_red()),
            r@,
        ),
        config.use_colors && priority == 1 ==> styled(priority_text(priority), code_yellow(), r@),
{
    let text = priority_string(priority);
    if !config.use_colors {
        return text;
    }
    if priority == 0 {
        paint_red_bold(text.as_str())
    } else if priority == 1 {
        paint_yellow(text.as_str())
    } else {
        text
    }
}

/// An issue identifier in cyan.
pub fn colorize_id(id: &str, config: &OutputConfig) -> (r: String)
    ensures
        painted(id@, code_cyan(), *config, r@),
{
    if !config.use_colors {
        return owned(id);
    }
    paint_cyan(id)
}

/// The labels joined with `, `.
pub open spec fn join_labels(labels: Seq<Seq<char>>) -> Seq<char>
    decreases labels.len(),
{
    if labels.len() == 0 {
        Seq::<char>::empty()
    } else if labels.len() == 1 {
        labels[0]
    } else {
        join_labels(labels.drop_last()) + seq![',', ' '] + labels.last()
    }
}

/// The labels joined with `, ` in magenta; nothing for no labels.
pub fn colorize_labels(labels: &[String], config: &OutputConfig) -> (r: String)
    ensures
        labels@.len() == 0 ==> r@ == Seq::<char>::empty(),
        labels@.len() > 0 ==> painted(
            join_labels(crate::domain::strings_view(labels@)),
            code_magenta(),
            *config,
            r@,
        ),
{
    if labels.len() == 0 {
        return String::new();
    }
    let ghost views = crate::domain::strings_view(labels@);
    let mut v: Vec<char> = Vec::new();
    let mut i: usize = 0;
    while i < labels.len()
        invariant
            i <= labels@.len(),
            views == crate::domain::strings_view(labels@),
            v@ == join_labels(views.take(i as int)),
        decreases labels.len() - i,
    {
        let ghost prev = views.take(i as int);
        let ghost next = views.take(i as int + 1);
        assert(next.drop_last() =~= prev);
        if i > 0 {
            push_str(&mut v, ", ");
            proof {
                reveal_strlit(", ");
            }
        }
        push_str(&mut v, labels[i].as_str());
        i += 1;
        proof {
            if i == 1 {
                assert(next =~= seq![labels@[0]@]);
            }
            assert(v@ =~= join_labels(next));
        }
    }
    assert(views.take(labels@.len() as int) =~= views);
    let text = string_of(&v);
    if !config.use_colors {
        return text;
    }
    paint_magenta(text.as_str())
}

/// The status icon: `o > x +` in ASCII mode, `○ ▶ ✗ ✓` otherwise.
pub open spec fn status_icon_text(s: IssueStatus, config: OutputConfig) -> Seq<char> {
    if config.use_ascii {
        match s {
            IssueStatus::Open => "o"@,
            IssueStatus::InProgress => ">"@,
            IssueStatus::Blocked => "x"@,
            IssueStatus::Closed => "+"@,
        }
    } else {
        match s {
            IssueStatus::Open => "○"@,
            IssueStatus::InProgress => "▶"@,
            IssueStatus::Blocked => "✗"@,
            IssueStatus::Closed => "✓"@,
        }
    }
}

fn status_icon(status: IssueStatus, config: &OutputConfig) -> (r: &'static str)
    ensures
        r@ == status_icon_text(status, *config),
{
    if config.use_ascii {
        match status {
            IssueStatus::Open => "o",
            IssueStatus::InProgress => ">",
            IssueStatus::Blocked => "x",
            IssueStatus::Closed => "+",
        }
    } else {
        match status {
            IssueStatus::Open => "○",
            IssueStatus::InProgress => "▶",
            IssueStatus::Blocked => "✗",
            IssueStatus::Closed => "✓",
        }
    }
}

/// The status icon, colored by status.
pub fn colored_status_icon(status: IssueStatus, config: &OutputConfig) -> (r: String)
    ensures
        painted(status_icon_text(status, *config), status_code(status), *config, r@),
{
    let icon = status_icon(status, config);
    if !config.use_colors {
        return owned(icon);
    }
    paint_status(icon, status)
}

/// The kind icon: `- * + # .` in ASCII mode, `◇ ● ★ ◆ ○` otherwise.
pub open spec fn kind_icon_text(k: IssueKind, config: OutputConfig) -> Seq<char> {
    if config.use_ascii {
        match k {
            IssueKind::Task => "-"@,
            IssueKind::Bug => "*"@,
            IssueKind::Feature => "+"@,
            IssueKind::Epic => "#"@,
            IssueKind::Chore => "."@,
        }
    } else {
        match k {
            IssueKind::Task => "◇"@,
            IssueKind::Bug => "●"@,
            IssueKind::Feature => "★"@,
            IssueKind::Epic => "◆"@,
            IssueKind::Chore => "○"@,
        }
    }
}

/// The icon of an issue kind.
pub fn type_icon(issue_type: IssueKind, config: &OutputConfig) -> (r: &'static str)
    ensures
        r@ == kind_icon_text(issue_type, *config),
{
    if config.use_ascii {
        match issue_type {
            IssueKind::Task => "-",
            IssueKind::Bug => "*",
            IssueKind::Feature => "+",
            IssueKind::Epic => "#",
            IssueKind::Chore => ".",
        }
    } else {
        match issue_type {
            IssueKind::Task => "◇",
            IssueKind::Bug => "●",
            IssueKind::Feature => "★",
            IssueKind::Epic => "◆",
            IssueKind::Chore => "○",
        }
    }
}

/// The style of each kind's icon: bug red, feature green, epic bold
/// magenta, task blue, chore dimmed.
pub open spec fn kind_code(k: IssueKind) -> Seq<char> {
    match k {
        IssueKind::Bug => code_red(),
        IssueKind::Feature => code_green(),
        IssueKind::Epic => code_bold_with(code_magenta()),
        IssueKind::Task => code_blue(),
        IssueKind::Chore => code_dimmed(),
    }
}

/// The kind icon, colored by kind.
pub fn colored_type_icon(issue_type: IssueKind, config: &OutputConfig) -> (r: String)
    ensures
        painted(kind_icon_text(issue_type, *config), kind_code(issue_type), *config, r@),
{
    let icon = type_icon(issue_type, config);
    if !config.use_colors {
        return owned(icon);
    }
    match issue_type {
        IssueKind::Bug => paint_red(icon),
        IssueKind::Feature => paint_green(icon),
        IssueKind::Epic => paint_magenta_bold(icon),
        IssueKind::Task => paint_blue(icon),
        IssueKind::Chore => paint_dimmed(icon),
    }
}

} // verus!
