//! Core domain types for issue tracking: identifiers, vocabularies, Notes,
//! and the shared field validation rules.

use vstd::prelude::*;
use vstd::string::*;
use vstd::std_specs::cmp::PartialOrdSpecImpl;

use crate::text::{
    chars_lt, chars_of, decimal, find_line_control, find_multiline_control, first_match,
    lemma_utf8_len_trim, line_control_pred, multiline_control_pred, owned, push_decimal,
    push_str, seq_lt, string_of, trim, trim_chars, utf8_len, utf8_length, is_multiline_control,
    char_is_multiline_control, byte_len, is_blank, push_all, str_eq,
};

verus! {

// ---------------------------------------------------------------------------
// Limits
// ---------------------------------------------------------------------------

/// Maximum length for issue titles (in UTF-8 bytes, like `str::len`).
pub const MAX_TITLE_LENGTH: usize = 200;

/// Minimum priority level (0 = critical).
pub const MIN_PRIORITY: u8 = 0;

/// Maximum priority level (4 = backlog).
pub const MAX_PRIORITY: u8 = 4;

// ---------------------------------------------------------------------------
// IssueId
// ---------------------------------------------------------------------------

/// Unique identifier for an issue.
#[derive(Debug, PartialEq, Eq, Ord, Hash)]
pub struct IssueId(String);

impl View for IssueId {
    type V = Seq<char>;

    closed spec fn view(&self) -> Seq<char> {
        self.0@
    }
}

impl Clone for IssueId {
    fn clone(&self) -> (r: Self)
        ensures
            r@ == self@,
    {
        IssueId(self.0.clone())
    }
}

impl From<String> for IssueId {
    fn from(id: String) -> (r: Self)
        ensures
            r@ == id@,
    {
        IssueId(id)
    }
}

impl vstd::std_specs::convert::FromSpecImpl<String> for IssueId {
    open spec fn obeys_from_spec() -> bool {
        true
    }

    closed spec fn from_spec(id: String) -> IssueId {
        IssueId(id)
    }
}

impl From<&str> for IssueId {
    fn from(id: &str) -> (r: Self)
        ensures
            r@ == id@,
    {
        IssueId(owned(id))
    }
}

/// Identifiers order as their strings do.
impl PartialOrd for IssueId {
    fn partial_cmp(&self, other: &IssueId) -> (r: Option<core::cmp::Ordering>) {
        if self.same_as(other) {
            Some(core::cmp::Ordering::Equal)
        } else if self.lt(other) {
            Some(core::cmp::Ordering::Less)
        } else {
            Some(core::cmp::Ordering::Greater)
        }
    }
}

impl PartialOrdSpecImpl for IssueId {
    open spec fn obeys_partial_cmp_spec() -> bool {
        true
    }

    open spec fn partial_cmp_spec(&self, other: &IssueId) -> Option<core::cmp::Ordering> {
        if self@ == other@ {
            Some(core::cmp::Ordering::Equal)
        } else if seq_lt(self@, other@) {
            Some(core::cmp::Ordering::Less)
        } else {
            Some(core::cmp::Ordering::Greater)
        }
    }
}

impl vstd::std_specs::convert::FromSpecImpl<&str> for IssueId {
    open spec fn obeys_from_spec() -> bool {
        false
    }

    closed spec fn from_spec(id: &str) -> IssueId {
        vstd::pervasive::arbitrary()
    }
}

impl IssueId {
    /// Create a new issue ID.
    pub fn new(id: &str) -> (r: IssueId)
        ensures
            r@ == id@,
    {
        IssueId(owned(id))
    }

    /// Create an issue ID that takes ownership of `id`.
    pub fn from_string(id: String) -> (r: IssueId)
        ensures
            r@ == id@,
    {
        IssueId(id)
    }

    /// Get the ID as a string slice.
    pub fn as_str(&self) -> (r: &str)
        ensures
            r@ == self@,
    {
        self.0.as_str()
    }

    /// The ID as an owned string (what `Display` prints).
    pub fn to_string(&self) -> (r: String)
        ensures
            r@ == self@,
    {
        self.0.clone()
    }

    /// Whether two IDs are the same string.
    pub fn same_as(&self, other: &IssueId) -> (r: bool)
        ensures
            r == (self@ == other@),
    {
        self.0 == other.0
    }

    /// Whether this ID is strictly before `other` in `String` order.
    pub fn lt(&self, other: &IssueId) -> (r: bool)
        ensures
            r == seq_lt(self@, other@),
    {
        let a = chars_of(self.0.as_str());
        let b = chars_of(other.0.as_str());
        chars_lt(&a, &b)
    }
}

/// What std's `Debug` prints for a string: the text in double quotes, with
/// quotes, backslashes and unprintable characters escaped.
pub uninterp spec fn std_debug_str(s: Seq<char>) -> Seq<char>;

/// std's `Debug` formatting of a string slice.
#[verifier::external_body]
fn debug_str(s: &str) -> (r: String)
    ensures
        r@ == std_debug_str(s@),
{
    format!("{:?}", s)
}

/// What `Debug` prints for one Issue ID: `IssueId("...")`.
pub open spec fn id_debug_text(id: Seq<char>) -> Seq<char> {
    "IssueId("@ + std_debug_str(id) + seq![')']
}

/// The `Debug` items of a list of Issue IDs, separated by `, `.
pub open spec fn ids_debug_items(ids: Seq<Seq<char>>) -> Seq<char>
    decreases ids.len(),
{
    if ids.len() == 0 {
        Seq::<char>::empty()
    } else if ids.len() == 1 {
        id_debug_text(ids[0])
    } else {
        ids_debug_items(ids.drop_last()) + seq![',', ' '] + id_debug_text(ids.last())
    }
}

/// What `Debug` prints for a list of Issue IDs: `[IssueId("a"), IssueId("b")]`.
pub open spec fn ids_debug_text(ids: Seq<Seq<char>>) -> Seq<char> {
    seq!['['] + ids_debug_items(ids) + seq![']']
}

/// The views of a list of Issue IDs.
pub open spec fn ids_view(ids: Seq<IssueId>) -> Seq<Seq<char>> {
    ids.map_values(|i: IssueId| i@)
}

/// The `Debug` text of a list of Issue IDs.
pub fn issue_ids_debug(ids: &[IssueId]) -> (r: String)
    ensures
        r@ == ids_debug_text(ids_view(ids@)),
{
    let mut v: Vec<char> = Vec::new();
    v.push('[');
    let ghost views = ids_view(ids@);
    let mut i: usize = 0;
    while i < ids.len()
        invariant
            i <= ids@.len(),
            views == ids_view(ids@),
            v@ == seq!['['] + ids_debug_items(views.take(i as int)),
        decreases ids.len() - i,
    {
        let ghost before = v@;
        if i > 0 {
            v.push(',');
            v.push(' ');
        }
        push_str(&mut v, "IssueId(");
        let d = debug_str(ids[i].as_str());
        push_str(&mut v, d.as_str());
        v.push(')');
        proof {
            reveal_strlit("IssueId(");
            let p = views.take(i as int + 1);
            assert(p.drop_last() =~= views.take(i as int));
            assert(p.last() == ids@[i as int]@);
            if i == 0 {
                assert(p.len() == 1);
                assert(v@ =~= seq!['['] + id_debug_text(p[0]));
            } else {
                assert(v@ =~= before + seq![',', ' '] + id_debug_text(p.last()));
            }
        }
        i += 1;
    }
    assert(views.take(ids@.len() as int) =~= views);
    v.push(']');
    string_of(&v)
}

// ---------------------------------------------------------------------------
// Control-character positions
// ---------------------------------------------------------------------------

/// The position of the first element satisfying `p`, as a function.
pub open spec fn first_pos(s: Seq<char>, p: spec_fn(char) -> bool) -> Option<nat>
    decreases s.len(),
{
    if s.len() == 0 {
        None
    } else if p(s[0]) {
        Some(0)
    } else {
        match first_pos(s.drop_first(), p) {
            Some(i) => Some(i + 1),
            None => None,
        }
    }
}

pub open spec fn as_nat_opt(o: Option<usize>) -> Option<nat> {
    match o {
        Some(i) => Some(i as nat),
        None => None,
    }
}

pub proof fn lemma_first_pos(s: Seq<char>, p: spec_fn(char) -> bool, r: Option<usize>)
    requires
        first_match(s, p, r),
    ensures
        first_pos(s, p) == as_nat_opt(r),
    decreases s.len(),
{
    if s.len() > 0 {
        if p(s[0]) {
            match r {
                Some(i) => {
                    if i > 0 {
                        assert(!p(s[0]));
                    }
                },
                None => {
                    assert(!p(s[0]));
                },
            }
        } else {
            let t = s.drop_first();
            let rr: Option<usize> = match r {
                Some(i) => Some((i - 1) as usize),
                None => None,
            };
            match r {
                Some(i) => {
                    assert(i > 0);
                    assert forall|j: int| 0 <= j < i - 1 implies !p(#[trigger] t[j]) by {
                        assert(t[j] == s[j + 1]);
                    }
                    assert(t[i - 1] == s[i as int]);
                },
                None => {
                    assert forall|j: int| 0 <= j < t.len() implies !p(#[trigger] t[j]) by {
                        assert(t[j] == s[j + 1]);
                    }
                },
            }
            lemma_first_pos(t, p, rr);
        }
    }
}

/// Position of the first single-line control character
/// (C0 except tab, DEL, C1).
pub fn find_control_char(s: &str) -> (r: Option<usize>)
    ensures
        first_match(s@, line_control_pred(), r),
        first_pos(s@, line_control_pred()) == as_nat_opt(r),
{
    let v = chars_of(s);
    let r = find_line_control(&v);
    proof {
        lemma_first_pos(s@, line_control_pred(), r);
    }
    r
}

/// Position of the first character unsafe in multi-line text
/// (like [`find_control_char`] but LF and CR are allowed).
pub fn find_control_char_multiline(s: &str) -> (r: Option<usize>)
    ensures
        first_match(s@, multiline_control_pred(), r),
        first_pos(s@, multiline_control_pred()) == as_nat_opt(r),
{
    let v = chars_of(s);
    let r = find_multiline_control(&v);
    proof {
        lemma_first_pos(s@, multiline_control_pred(), r);
    }
    r
}

/// Whether a character is unsafe in a multiline domain text value.
pub fn is_unsafe_multiline_control(c: char) -> (b: bool)
    ensures
        b == is_multiline_control(c),
{
    char_is_multiline_control(c)
}

/// `"<field> contains invalid control character at position <pos>"`.
pub open spec fn control_message(field: Seq<char>, pos: nat) -> Seq<char> {
    field + " contains invalid control character at position "@ + decimal(pos)
}

fn control_message_string(field: &str, pos: usize) -> (r: String)
    ensures
        r@ == control_message(field@, pos as nat),
{
    let mut v: Vec<char> = Vec::new();
    push_str(&mut v, field);
    push_str(&mut v, " contains invalid control character at position ");
    push_decimal(&mut v, pos as u64);
    string_of(&v)
}

// ---------------------------------------------------------------------------
// Title and priority
// ---------------------------------------------------------------------------

/// The error, if any, that title-and-priority validation reports.
pub open spec fn title_priority_error(title: Seq<char>, priority: u8) -> Option<Seq<char>> {
    let t = trim(title);
    if t.len() == 0 {
        Some("Title cannot be empty"@)
    } else if utf8_len(t) > MAX_TITLE_LENGTH {
        Some(
            "Title cannot exceed "@ + decimal(MAX_TITLE_LENGTH as nat) + " characters (got "@
                + decimal(utf8_len(t)) + ")"@,
        )
    } else if first_pos(t, line_control_pred()) is Some {
        Some(control_message("Title"@, first_pos(t, line_control_pred())->0))
    } else if priority > MAX_PRIORITY {
        Some(
            "Priority must be in range "@ + decimal(MIN_PRIORITY as nat) + "-"@ + decimal(
                MAX_PRIORITY as nat,
            ) + " (got "@ + decimal(priority as nat) + ")"@,
        )
    } else {
        None
    }
}

/// Validate title and priority fields.
///
/// The title is trimmed first; it must be non-empty, at most
/// [`MAX_TITLE_LENGTH`] bytes, and free of control characters. The
/// priority must be at most [`MAX_PRIORITY`].
pub fn validate_title_and_priority(title: &str, priority: u8) -> (r: Result<(), String>)
    ensures
        match r {
            Ok(()) => title_priority_error(title@, priority) is None,
            Err(msg) => title_priority_error(title@, priority) == Some(msg@),
        },
{
    let _total = byte_len(title);
    let chars = chars_of(title);
    let t = trim_chars(&chars);
    if t.len() == 0 {
        return Err(String::from_str("Title cannot be empty"));
    }
    proof {
        lemma_utf8_len_trim(title@);
    }
    let n = utf8_length(&t);
    if n > MAX_TITLE_LENGTH {
        let mut v: Vec<char> = Vec::new();
        push_str(&mut v, "Title cannot exceed ");
        push_decimal(&mut v, MAX_TITLE_LENGTH as u64);
        push_str(&mut v, " characters (got ");
        push_decimal(&mut v, n as u64);
        push_str(&mut v, ")");
        return Err(string_of(&v));
    }
    let pos = find_line_control(&t);
    proof {
        lemma_first_pos(t@, line_control_pred(), pos);
    }
    if let Some(p) = pos {
        return Err(control_message_string("Title", p));
    }
    if priority > MAX_PRIORITY {
        let mut v: Vec<char> = Vec::new();
        push_str(&mut v, "Priority must be in range ");
        push_decimal(&mut v, MIN_PRIORITY as u64);
        push_str(&mut v, "-");
        push_decimal(&mut v, MAX_PRIORITY as u64);
        push_str(&mut v, " (got ");
        push_decimal(&mut v, priority as u64);
        push_str(&mut v, ")");
        return Err(string_of(&v));
    }
    Ok(())
}


// ---------------------------------------------------------------------------
// Text fields
// ---------------------------------------------------------------------------

/// The first label (from index `from` on) holding a control character.
pub open spec fn labels_error(labels: Seq<Seq<char>>, from: nat) -> Option<Seq<char>>
    decreases labels.len() - from,
{
    if from >= labels.len() {
        None
    } else {
        match first_pos(labels[from as int], line_control_pred()) {
            Some(p) => Some(control_message("Label "@ + decimal(from), p)),
            None => labels_error(labels, from + 1),
        }
    }
}

pub open spec fn opt_view(o: Option<&str>) -> Option<Seq<char>> {
    match o {
        Some(s) => Some(s@),
        None => None,
    }
}

pub open spec fn strings_view(v: Seq<String>) -> Seq<Seq<char>> {
    v.map_values(|s: String| s@)
}

/// The error, if any, that text-field validation reports.
pub open spec fn text_fields_error(
    description: Seq<char>,
    assignee: Option<Seq<char>>,
    labels: Seq<Seq<char>>,
    design: Option<Seq<char>>,
    acceptance_criteria: Option<Seq<char>>,
) -> Option<Seq<char>> {
    if first_pos(description, multiline_control_pred()) is Some {
        Some(control_message("Description"@, first_pos(description, multiline_control_pred())->0))
    } else if assignee is Some && first_pos(assignee->0, line_control_pred()) is Some {
        Some(control_message("Assignee"@, first_pos(assignee->0, line_control_pred())->0))
    } else if labels_error(labels, 0) is Some {
        labels_error(labels, 0)
    } else if design is Some && first_pos(design->0, multiline_control_pred()) is Some {
        Some(control_message("Design"@, first_pos(design->0, multiline_control_pred())->0))
    } else if acceptance_criteria is Some && first_pos(
        acceptance_criteria->0,
        multiline_control_pred(),
    ) is Some {
        Some(
            control_message(
                "Acceptance criteria"@,
                first_pos(acceptance_criteria->0, multiline_control_pred())->0,
            ),
        )
    } else {
        None
    }
}

proof fn lemma_labels_error_skip(labels: Seq<Seq<char>>, i: nat)
    requires
        i < labels.len(),
        first_pos(labels[i as int], line_control_pred()) is None,
    ensures
        labels_error(labels, i) == labels_error(labels, i + 1),
{
}

/// Validate all text fields for terminal-unsafe control characters.
///
/// Description, design and acceptance criteria are multi-line (tab, LF, CR
/// allowed); the assignee and labels are single-line (tab allowed).
pub fn validate_text_fields(
    description: &str,
    assignee: Option<&str>,
    labels: &[String],
    design: Option<&str>,
    acceptance_criteria: Option<&str>,
) -> (r: Result<(), String>)
    ensures
        match r {
            Ok(()) => text_fields_error(
                description@,
                opt_view(assignee),
                strings_view(labels@),
                opt_view(design),
                opt_view(acceptance_criteria),
            ) is None,
            Err(msg) => text_fields_error(
                description@,
                opt_view(assignee),
                strings_view(labels@),
                opt_view(design),
                opt_view(acceptance_criteria),
            ) == Some(msg@),
        },
{
    if let Some(pos) = find_control_char_multiline(description) {
        return Err(control_message_string("Description", pos));
    }
    if let Some(val) = assignee {
        if let Some(pos) = find_control_char(val) {
            return Err(control_message_string("Assignee", pos));
        }
    }
    let ghost lv = strings_view(labels@);
    let mut i: usize = 0;
    while i < labels.len()
        invariant
            i <= labels.len(),
            lv == strings_view(labels@),
            labels_error(lv, 0) == labels_error(lv, i as nat),
            first_pos(description@, multiline_control_pred()) is None,
            !(opt_view(assignee) is Some && first_pos(opt_view(assignee)->0, line_control_pred()) is Some),
        decreases labels.len() - i,
    {
        let pos = find_control_char(labels[i].as_str());
        if let Some(p) = pos {
            let mut v: Vec<char> = Vec::new();
            push_str(&mut v, "Label ");
            push_decimal(&mut v, i as u64);
            let field = string_of(&v);
            let msg = control_message_string(field.as_str(), p);
            assert(lv[i as int] == labels@[i as int]@);
            return Err(msg);
        }
        proof {
            assert(lv[i as int] == labels@[i as int]@);
            lemma_labels_error_skip(lv, i as nat);
        }
        i += 1;
    }
    assert(labels_error(lv, labels.len() as nat) is None);
    if let Some(val) = design {
        if let Some(pos) = find_control_char_multiline(val) {
            return Err(control_message_string("Design", pos));
        }
    }
    if let Some(val) = acceptance_criteria {
        if let Some(pos) = find_control_char_multiline(val) {
            return Err(control_message_string("Acceptance criteria", pos));
        }
    }
    Ok(())
}

pub fn opt_as_str(o: &Option<String>) -> (r: Option<&str>)
    ensures
        opt_view(r) == match o {
            Some(s) => Some(s@),
            None => None::<Seq<char>>,
        },
{
    match o {
        Some(s) => Some(s.as_str()),
        None => None,
    }
}

pub open spec fn opt_string_view(o: Option<String>) -> Option<Seq<char>> {
    match o {
        Some(s) => Some(s@),
        None => None,
    }
}

// ---------------------------------------------------------------------------
// Notes
// ---------------------------------------------------------------------------

/// A failure to construct valid Note content.
#[derive(Debug, Clone, Copy, PartialEq, Eq, Structural)]
pub enum NoteError {
    /// Note content was empty or whitespace-only.
    EmptyContent,
    /// Note content included an unsafe control character.
    InvalidControlCharacter {
        /// Character offset of the invalid value.
        position: usize,
    },
}

impl NoteError {
    /// The user-facing message.
    pub fn to_string(&self) -> (r: String)
        ensures
            r@ == note_error_message(*self),
    {
        match self {
            NoteError::EmptyContent => String::from_str("Note content cannot be empty"),
            NoteError::InvalidControlCharacter { position } => {
                let mut v: Vec<char> = Vec::new();
                push_str(&mut v, "Note content contains invalid control character at position ");
                push_decimal(&mut v, *position as u64);
                string_of(&v)
            },
        }
    }
}

pub open spec fn note_error_message(e: NoteError) -> Seq<char> {
    match e {
        NoteError::EmptyContent => "Note content cannot be empty"@,
        NoteError::InvalidControlCharacter { position } =>
            "Note content contains invalid control character at position "@ + decimal(position as nat),
    }
}

/// Why `content` is not valid Note content, if it is not.
pub open spec fn note_error(content: Seq<char>) -> Option<NoteError> {
    if trim(content).len() == 0 {
        Some(NoteError::EmptyContent)
    } else if first_pos(content, multiline_control_pred()) is Some {
        Some(
            NoteError::InvalidControlCharacter {
                position: first_pos(content, multiline_control_pred())->0 as usize,
            },
        )
    } else {
        None
    }
}

/// Validated content for a Note that has not yet been timestamped.
#[derive(Debug, PartialEq, Eq)]
pub struct NoteContent(String);

impl View for NoteContent {
    type V = Seq<char>;

    closed spec fn view(&self) -> Seq<char> {
        self.0@
    }
}

impl Clone for NoteContent {
    fn clone(&self) -> (r: Self)
        ensures
            r@ == self@,
    {
        NoteContent(self.0.clone())
    }
}

impl NoteContent {
    /// Parse Note content without changing its characters.
    ///
    /// Rejects content that is empty after trimming, or that contains a
    /// control character unsafe for multiline terminal output.
    pub fn new(content: &str) -> (r: Result<NoteContent, NoteError>)
        ensures
            match r {
                Ok(n) => note_error(content@) is None && n@ == content@,
                Err(e) => note_error(content@) == Some(e),
            },
    {
        let v = chars_of(content);
        if is_blank(&v) {
            return Err(NoteError::EmptyContent);
        }
        if let Some(position) = find_control_char_multiline(content) {
            return Err(NoteError::InvalidControlCharacter { position });
        }
        Ok(NoteContent(owned(content)))
    }

    /// Canonical Note content for a close reason: `"Closed: <reason>"`.
    ///
    /// The reason is validated before the prefix is added, so error
    /// positions refer to the caller's text.
    pub fn closing_reason(reason: &str) -> (r: Result<NoteContent, NoteError>)
        ensures
            match r {
                Ok(n) => note_error(reason@) is None && n@ == "Closed"@ + ": "@ + reason@,
                Err(e) => note_error(reason@) == Some(e),
            },
    {
        Self::lifecycle_reason("Closed", reason)
    }

    /// Canonical Note content for a reopen reason: `"Reopened: <reason>"`.
    pub fn reopening_reason(reason: &str) -> (r: Result<NoteContent, NoteError>)
        ensures
            match r {
                Ok(n) => note_error(reason@) is None && n@ == "Reopened"@ + ": "@ + reason@,
                Err(e) => note_error(reason@) == Some(e),
            },
    {
        Self::lifecycle_reason("Reopened", reason)
    }

    fn lifecycle_reason(prefix: &str, reason: &str) -> (r: Result<NoteContent, NoteError>)
        ensures
            match r {
                Ok(n) => note_error(reason@) is None && n@ == prefix@ + ": "@ + reason@,
                Err(e) => note_error(reason@) == Some(e),
            },
    {
        let checked = Self::new(reason)?;
        let mut v: Vec<char> = Vec::new();
        push_str(&mut v, prefix);
        push_str(&mut v, ": ");
        let body = chars_of(checked.0.as_str());
        push_all(&mut v, &body);
        Ok(NoteContent(string_of(&v)))
    }

    /// The content as a string slice.
    pub fn as_str(&self) -> (r: &str)
        ensures
            r@ == self@,
    {
        self.0.as_str()
    }

    /// Consume the content and return its text.
    pub fn into_string(self) -> (r: String)
        ensures
            r@ == self@,
    {
        self.0
    }
}

/// A point in time: seconds since the Unix epoch plus nanoseconds.
#[derive(Debug, Clone, Copy, PartialEq, Eq, Structural)]
pub struct Timestamp {
    /// Whole seconds since 1970-01-01T00:00:00Z.
    pub secs: i64,
    /// Sub-second nanoseconds.
    pub nanos: u32,
}

/// Strict chronological order.
pub open spec fn ts_before(a: Timestamp, b: Timestamp) -> bool {
    a.secs < b.secs || (a.secs == b.secs && a.nanos < b.nanos)
}

/// An integer that orders instants as [`ts_before`] does.
pub open spec fn ts_key(t: Timestamp) -> int {
    t.secs * 0x1_0000_0000 + t.nanos
}

/// Chronological order is the order of [`ts_key`].
pub proof fn lemma_ts_key_order(a: Timestamp, b: Timestamp)
    ensures
        ts_before(a, b) <==> ts_key(a) < ts_key(b),
{
    if a.secs < b.secs {
        assert(a.secs * 0x1_0000_0000 + a.nanos < b.secs * 0x1_0000_0000 + b.nanos) by (nonlinear_arith)
            requires
                a.secs < b.secs,
                a.nanos < 0x1_0000_0000,
                b.nanos >= 0,
        ;
    } else if a.secs > b.secs {
        assert(a.secs * 0x1_0000_0000 + a.nanos > b.secs * 0x1_0000_0000 + b.nanos) by (nonlinear_arith)
            requires
                a.secs > b.secs,
                b.nanos < 0x1_0000_0000,
                a.nanos >= 0,
        ;
    }
}

/// Whether `a` is strictly before `b`.
pub fn timestamp_before(a: &Timestamp, b: &Timestamp) -> (r: bool)
    ensures
        r == ts_before(*a, *b),
{
    a.secs < b.secs || (a.secs == b.secs && a.nanos < b.nanos)
}

/// An immutable, timestamped entry in an Issue's chronological history.
#[derive(Debug, Clone, PartialEq, Eq)]
pub struct Note {
    content: String,
    created_at: Timestamp,
}

impl Note {
    pub closed spec fn spec_content(&self) -> Seq<char> {
        self.content@
    }

    pub closed spec fn spec_created_at(&self) -> Timestamp {
        self.created_at
    }

    /// A Note from validated content and its timestamp.
    pub fn from_parts(content: NoteContent, created_at: Timestamp) -> (r: Note)
        ensures
            r.spec_content() == content@,
            r.spec_created_at() == created_at,
    {
        Note { content: content.into_string(), created_at }
    }

    /// The Note content exactly as recorded.
    pub fn content(&self) -> (r: &str)
        ensures
            r@ == self.spec_content(),
    {
        self.content.as_str()
    }

    /// The creation timestamp.
    pub fn created_at(&self) -> (r: Timestamp)
        ensures
            r == self.spec_created_at(),
    {
        self.created_at
    }
}

// ---------------------------------------------------------------------------
// Issue status
// ---------------------------------------------------------------------------

/// Status of an issue.
#[derive(Debug, Clone, Copy, PartialEq, Eq, Structural)]
pub enum IssueStatus {
    /// Issue is open and ready to work on.
    Open,
    /// Issue is currently being worked on.
    InProgress,
    /// Issue is blocked by dependencies.
    Blocked,
    /// Issue has been completed.
    Closed,
}

/// Canonical spelling of each status (Display, serde, CLI value name).
pub open spec fn status_name(s: IssueStatus) -> Seq<char> {
    match s {
        IssueStatus::Open => "open"@,
        IssueStatus::InProgress => "in_progress"@,
        IssueStatus::Blocked => "blocked"@,
        IssueStatus::Closed => "closed"@,
    }
}

pub proof fn lemma_status_names_distinct()
    ensures
        forall|a: IssueStatus, b: IssueStatus| status_name(a) == status_name(b) ==> a == b,
{
    reveal_strlit("open");
    reveal_strlit("in_progress");
    reveal_strlit("blocked");
    reveal_strlit("closed");
    assert forall|a: IssueStatus, b: IssueStatus| status_name(a) == status_name(b) implies a
        == b by {
        if a != b {
            assert(status_name(a).len() != status_name(b).len() || status_name(a)[0] != status_name(b)[0]);
        }
    }
}

/// A failure to parse an [`IssueStatus`].
#[derive(Debug, Clone, PartialEq, Eq)]
pub enum IssueStatusError {
    /// The string was not a canonical Issue Status name.
    UnknownStatus {
        /// The rejected input string.
        status: String,
    },
}

impl IssueStatusError {
    /// The user-facing message: `Unknown issue status '<status>'`.
    pub fn to_string(&self) -> (r: String)
        ensures
            r@ == match self {
                IssueStatusError::UnknownStatus { status } => "Unknown issue status '"@ + status@
                    + "'"@,
            },
    {
        match self {
            IssueStatusError::UnknownStatus { status } => {
                let mut v: Vec<char> = Vec::new();
                push_str(&mut v, "Unknown issue status '");
                push_str(&mut v, status.as_str());
                push_str(&mut v, "'");
                string_of(&v)
            },
        }
    }
}

/// The outcome of a status transition under the domain rules.
pub open spec fn transition_result(current: IssueStatus, target: IssueStatus) -> Result<
    (),
    StatusTransitionError,
> {
    match (current, target) {
        (IssueStatus::Closed, IssueStatus::Closed) => Err(
            StatusTransitionError::AlreadyClosed { current },
        ),
        (IssueStatus::Closed, _) => Ok(()),
        (_, IssueStatus::Open) => Err(StatusTransitionError::NotClosed { current }),
        _ => Ok(()),
    }
}

impl IssueStatus {
    /// The canonical spelling (what `Display` prints).
    pub fn to_string(&self) -> (r: String)
        ensures
            r@ == status_name(*self),
    {
        String::from_str(self.as_str())
    }

    /// The other spelling the command line accepts for a status, if any:
    /// `in-progress` for In Progress.
    pub fn alias(&self) -> (r: Option<&'static str>)
        ensures
            match self {
                IssueStatus::InProgress => r matches Some(a) && a@ == "in-progress"@,
                _ => r is None,
            },
    {
        match self {
            IssueStatus::InProgress => Some("in-progress"),
            _ => None,
        }
    }

    /// The canonical spelling as a static string.
    pub fn as_str(&self) -> (r: &'static str)
        ensures
            r@ == status_name(*self),
    {
        match self {
            IssueStatus::Open => "open",
            IssueStatus::InProgress => "in_progress",
            IssueStatus::Blocked => "blocked",
            IssueStatus::Closed => "closed",
        }
    }

    /// Parse a canonical status spelling; nothing else is accepted.
    pub fn parse_str(s: &str) -> (r: Result<IssueStatus, IssueStatusError>)
        ensures
            match r {
                Ok(x) => status_name(x) == s@,
                Err(IssueStatusError::UnknownStatus { status }) => status@ == s@ && forall|
                    x: IssueStatus,
                | status_name(x) != s@,
            },
            forall|x: IssueStatus| status_name(x) == s@ ==> r == Ok::<IssueStatus, IssueStatusError>(x),
    {
        proof {
            lemma_status_names_distinct();
            assert(status_name(IssueStatus::Open) == "open"@);
            assert(status_name(IssueStatus::InProgress) == "in_progress"@);
            assert(status_name(IssueStatus::Blocked) == "blocked"@);
            assert(status_name(IssueStatus::Closed) == "closed"@);
        }
        if str_eq(s, "open") {
            Ok(IssueStatus::Open)
        } else if str_eq(s, "in_progress") {
            Ok(IssueStatus::InProgress)
        } else if str_eq(s, "blocked") {
            Ok(IssueStatus::Blocked)
        } else if str_eq(s, "closed") {
            Ok(IssueStatus::Closed)
        } else {
            Err(IssueStatusError::UnknownStatus { status: owned(s) })
        }
    }

    /// Comma-separated canonical status names, for error messages.
    pub fn valid_values() -> (r: String)
        ensures
            r@ == status_name(IssueStatus::Open) + ", "@ + status_name(IssueStatus::InProgress)
                + ", "@ + status_name(IssueStatus::Blocked) + ", "@ + status_name(
                IssueStatus::Closed,
            ),
    {
        let mut v: Vec<char> = Vec::new();
        push_str(&mut v, IssueStatus::Open.as_str());
        push_str(&mut v, ", ");
        push_str(&mut v, IssueStatus::InProgress.as_str());
        push_str(&mut v, ", ");
        push_str(&mut v, IssueStatus::Blocked.as_str());
        push_str(&mut v, ", ");
        push_str(&mut v, IssueStatus::Closed.as_str());
        string_of(&v)
    }

    /// Validate a status transition per the domain rules.
    ///
    /// `Closed -> Closed` is rejected (an Issue cannot be closed twice), and
    /// any non-`Closed` status `-> Open` is rejected (only closed Issues can
    /// be reopened). Every other transition is allowed.
    pub fn validate_transition(self, target: IssueStatus) -> (r: Result<(), StatusTransitionError>)
        ensures
            r == transition_result(self, target),
    {
        match (self, target) {
            (IssueStatus::Closed, IssueStatus::Closed) => Err(
                StatusTransitionError::AlreadyClosed { current: self },
            ),
            (IssueStatus::Closed, _) => Ok(()),
            (current, IssueStatus::Open) => Err(StatusTransitionError::NotClosed { current }),
            _ => Ok(()),
        }
    }
}

impl core::str::FromStr for IssueStatus {
    type Err = IssueStatusError;

    fn from_str(s: &str) -> (r: Result<Self, Self::Err>)
        ensures
            match r {
                Ok(x) => status_name(x) == s@,
                Err(IssueStatusError::UnknownStatus { status }) => status@ == s@ && forall|
                    x: IssueStatus,
                | status_name(x) != s@,
            },
            forall|x: IssueStatus| status_name(x) == s@ ==> r == Ok::<IssueStatus, IssueStatusError>(x),
    {
        Self::parse_str(s)
    }
}

/// A status change rejected by the domain transition rules.
#[derive(Debug, Clone, Copy, PartialEq, Eq, Structural)]
pub enum StatusTransitionError {
    /// Closing an Issue that is already closed.
    AlreadyClosed {
        /// The Issue's status when the close was rejected.
        current: IssueStatus,
    },
    /// Reopening an Issue that is not closed.
    NotClosed {
        /// The Issue's status when the reopen was rejected.
        current: IssueStatus,
    },
}

impl StatusTransitionError {
    /// The full user-facing message.
    pub fn to_string(&self) -> (r: String)
        ensures
            r@ == match *self {
                StatusTransitionError::AlreadyClosed { current } => "Issue is already closed (status: "@
                    + status_name(current) + ")"@,
                StatusTransitionError::NotClosed { current } => "Issue is not closed (status: "@
                    + status_name(current) + ")"@,
            },
    {
        let mut v: Vec<char> = Vec::new();
        match self {
            StatusTransitionError::AlreadyClosed { current } => {
                push_str(&mut v, "Issue is already closed (status: ");
                push_str(&mut v, current.as_str());
            },
            StatusTransitionError::NotClosed { current } => {
                push_str(&mut v, "Issue is not closed (status: ");
                push_str(&mut v, current.as_str());
            },
        }
        push_str(&mut v, ")");
        string_of(&v)
    }
}

// ---------------------------------------------------------------------------
// Issue kind
// ---------------------------------------------------------------------------

/// Current classification of an issue.
#[derive(Debug, Clone, Copy, PartialEq, Eq, Structural)]
pub enum IssueKind {
    /// Bug fix.
    Bug,
    /// New feature.
    Feature,
    /// General task.
    Task,
    /// Epic (parent issue).
    Epic,
    /// Maintenance/chore.
    Chore,
}

/// Canonical spelling of each kind.
pub open spec fn kind_name(k: IssueKind) -> Seq<char> {
    match k {
        IssueKind::Bug => "bug"@,
        IssueKind::Feature => "feature"@,
        IssueKind::Task => "task"@,
        IssueKind::Epic => "epic"@,
        IssueKind::Chore => "chore"@,
    }
}

pub proof fn lemma_kind_names_distinct()
    ensures
        forall|a: IssueKind, b: IssueKind| kind_name(a) == kind_name(b) ==> a == b,
{
    reveal_strlit("bug");
    reveal_strlit("feature");
    reveal_strlit("task");
    reveal_strlit("epic");
    reveal_strlit("chore");
    assert forall|a: IssueKind, b: IssueKind| kind_name(a) == kind_name(b) implies a == b by {
        if a != b {
            assert(kind_name(a).len() != kind_name(b).len() || kind_name(a)[0] != kind_name(b)[0]);
        }
    }
}

/// A failure to parse an [`IssueKind`].
#[derive(Debug, Clone, PartialEq, Eq)]
pub enum IssueKindError {
    /// The string was not a canonical Issue Kind name.
    UnknownKind {
        /// The rejected input string.
        kind: String,
    },
}

impl IssueKindError {
    /// The user-facing message: `Unknown issue kind '<kind>'`.
    pub fn to_string(&self) -> (r: String)
        ensures
            r@ == match self {
                IssueKindError::UnknownKind { kind } => "Unknown issue kind '"@ + kind@ + "'"@,
            },
    {
        match self {
            IssueKindError::UnknownKind { kind } => {
                let mut v: Vec<char> = Vec::new();
                push_str(&mut v, "Unknown issue kind '");
                push_str(&mut v, kind.as_str());
                push_str(&mut v, "'");
                string_of(&v)
            },
        }
    }
}

impl IssueKind {
    /// The canonical spelling as a static string.
    pub fn as_str(&self) -> (r: &'static str)
        ensures
            r@ == kind_name(*self),
    {
        match self {
            IssueKind::Bug => "bug",
            IssueKind::Feature => "feature",
            IssueKind::Task => "task",
            IssueKind::Epic => "epic",
            IssueKind::Chore => "chore",
        }
    }

    /// The canonical spelling (what `Display` prints).
    pub fn to_string(&self) -> (r: String)
        ensures
            r@ == kind_name(*self),
    {
        String::from_str(self.as_str())
    }

    /// Parse a canonical kind spelling; nothing else is accepted.
    pub fn parse_str(s: &str) -> (r: Result<IssueKind, IssueKindError>)
        ensures
            match r {
                Ok(x) => kind_name(x) == s@,
                Err(IssueKindError::UnknownKind { kind }) => kind@ == s@ && forall|x: IssueKind|
                    kind_name(x) != s@,
            },
            forall|x: IssueKind| kind_name(x) == s@ ==> r == Ok::<IssueKind, IssueKindError>(x),
    {
        proof {
            lemma_kind_names_distinct();
            assert(kind_name(IssueKind::Bug) == "bug"@);
            assert(kind_name(IssueKind::Feature) == "feature"@);
            assert(kind_name(IssueKind::Task) == "task"@);
            assert(kind_name(IssueKind::Epic) == "epic"@);
            assert(kind_name(IssueKind::Chore) == "chore"@);
        }
        if str_eq(s, "bug") {
            Ok(IssueKind::Bug)
        } else if str_eq(s, "feature") {
            Ok(IssueKind::Feature)
        } else if str_eq(s, "task") {
            Ok(IssueKind::Task)
        } else if str_eq(s, "epic") {
            Ok(IssueKind::Epic)
        } else if str_eq(s, "chore") {
            Ok(IssueKind::Chore)
        } else {
            Err(IssueKindError::UnknownKind { kind: owned(s) })
        }
    }
}

impl core::str::FromStr for IssueKind {
    type Err = IssueKindError;

    fn from_str(s: &str) -> (r: Result<Self, Self::Err>)
        ensures
            match r {
                Ok(x) => kind_name(x) == s@,
                Err(IssueKindError::UnknownKind { kind }) => kind@ == s@ && forall|x: IssueKind|
                    kind_name(x) != s@,
            },
            forall|x: IssueKind| kind_name(x) == s@ ==> r == Ok::<IssueKind, IssueKindError>(x),
    {
        Self::parse_str(s)
    }
}

// ---------------------------------------------------------------------------
// Dependencies
// ---------------------------------------------------------------------------

/// Type of dependency relationship.
#[derive(Debug, Clone, Copy, PartialEq, Eq, Structural)]
pub enum DependencyType {
    /// Hard blocker - prevents work.
    Blocks,
    /// Soft link - informational.
    Related,
    /// Hierarchical - epic to task.
    ParentChild,
    /// Found during work.
    DiscoveredFrom,
}

/// Canonical spelling of each dependency type.
pub open spec fn dep_type_name(d: DependencyType) -> Seq<char> {
    match d {
        DependencyType::Blocks => "blocks"@,
        DependencyType::Related => "related"@,
        DependencyType::ParentChild => "parent-child"@,
        DependencyType::DiscoveredFrom => "discovered-from"@,
    }
}

pub proof fn lemma_dep_type_names_distinct()
    ensures
        forall|a: DependencyType, b: DependencyType| dep_type_name(a) == dep_type_name(b) ==> a
            == b,
{
    reveal_strlit("blocks");
    reveal_strlit("related");
    reveal_strlit("parent-child");
    reveal_strlit("discovered-from");
    assert forall|a: DependencyType, b: DependencyType| dep_type_name(a) == dep_type_name(
        b,
    ) implies a == b by {
        if a != b {
            assert(dep_type_name(a).len() != dep_type_name(b).len() || dep_type_name(a)[0]
                != dep_type_name(b)[0]);
        }
    }
}

/// A failure to parse a [`DependencyType`].
#[derive(Debug, Clone, PartialEq, Eq)]
pub enum DependencyTypeError {
    /// The string was not a canonical Dependency Type name.
    UnknownDependencyType {
        /// The rejected input string.
        dependency_type: String,
    },
}

impl DependencyTypeError {
    /// The user-facing message: `Unknown dependency type '<type>'`.
    pub fn to_string(&self) -> (r: String)
        ensures
            r@ == match self {
                DependencyTypeError::UnknownDependencyType { dependency_type } =>
                    "Unknown dependency type '"@ + dependency_type@ + "'"@,
            },
    {
        match self {
            DependencyTypeError::UnknownDependencyType { dependency_type } => {
                let mut v: Vec<char> = Vec::new();
                push_str(&mut v, "Unknown dependency type '");
                push_str(&mut v, dependency_type.as_str());
                push_str(&mut v, "'");
                string_of(&v)
            },
        }
    }
}

impl DependencyType {
    /// The canonical spelling as a static string.
    pub fn as_str(&self) -> (r: &'static str)
        ensures
            r@ == dep_type_name(*self),
    {
        match self {
            DependencyType::Blocks => "blocks",
            DependencyType::Related => "related",
            DependencyType::ParentChild => "parent-child",
            DependencyType::DiscoveredFrom => "discovered-from",
        }
    }

    /// The canonical spelling (what `Display` prints).
    pub fn to_string(&self) -> (r: String)
        ensures
            r@ == dep_type_name(*self),
    {
        String::from_str(self.as_str())
    }

    /// Parse a canonical dependency-type spelling; nothing else is accepted.
    pub fn parse_str(s: &str) -> (r: Result<DependencyType, DependencyTypeError>)
        ensures
            match r {
                Ok(x) => dep_type_name(x) == s@,
                Err(DependencyTypeError::UnknownDependencyType { dependency_type }) =>
                    dependency_type@ == s@ && forall|x: DependencyType| dep_type_name(x) != s@,
            },
            forall|x: DependencyType|
                dep_type_name(x) == s@ ==> r == Ok::<DependencyType, DependencyTypeError>(x),
    {
        proof {
            lemma_dep_type_names_distinct();
            assert(dep_type_name(DependencyType::Blocks) == "blocks"@);
            assert(dep_type_name(DependencyType::Related) == "related"@);
            assert(dep_type_name(DependencyType::ParentChild) == "parent-child"@);
            assert(dep_type_name(DependencyType::DiscoveredFrom) == "discovered-from"@);
        }
        if str_eq(s, "blocks") {
            Ok(DependencyType::Blocks)
        } else if str_eq(s, "related") {
            Ok(DependencyType::Related)
        } else if str_eq(s, "parent-child") {
            Ok(DependencyType::ParentChild)
        } else if str_eq(s, "discovered-from") {
            Ok(DependencyType::DiscoveredFrom)
        } else {
            Err(DependencyTypeError::UnknownDependencyType { dependency_type: owned(s) })
        }
    }

    /// Comma-separated canonical dependency-type names, for error messages.
    pub fn valid_values() -> (r: String)
        ensures
            r@ == dep_type_name(DependencyType::Blocks) + ", "@ + dep_type_name(
                DependencyType::Related,
            ) + ", "@ + dep_type_name(DependencyType::ParentChild) + ", "@ + dep_type_name(
                DependencyType::DiscoveredFrom,
            ),
    {
        let mut v: Vec<char> = Vec::new();
        push_str(&mut v, DependencyType::Blocks.as_str());
        push_str(&mut v, ", ");
        push_str(&mut v, DependencyType::Related.as_str());
        push_str(&mut v, ", ");
        push_str(&mut v, DependencyType::ParentChild.as_str());
        push_str(&mut v, ", ");
        push_str(&mut v, DependencyType::DiscoveredFrom.as_str());
        string_of(&v)
    }
}

impl core::str::FromStr for DependencyType {
    type Err = DependencyTypeError;

    fn from_str(s: &str) -> (r: Result<Self, Self::Err>)
        ensures
            match r {
                Ok(x) => dep_type_name(x) == s@,
                Err(DependencyTypeError::UnknownDependencyType { dependency_type }) =>
                    dependency_type@ == s@ && forall|x: DependencyType| dep_type_name(x) != s@,
            },
            forall|x: DependencyType|
                dep_type_name(x) == s@ ==> r == Ok::<DependencyType, DependencyTypeError>(x),
    {
        Self::parse_str(s)
    }
}

/// Dependency between issues.
#[derive(Debug, Clone, PartialEq, Eq)]
pub struct Dependency {
    /// ID of the issue this depends on.
    pub depends_on_id: IssueId,
    /// Type of dependency.
    pub dep_type: DependencyType,
}

/// Sort policy for ready work queries.
#[derive(Debug, Clone, Copy, PartialEq, Eq, Structural)]
pub enum SortPolicy {
    /// Recent issues (< 48h) by priority, older by age (the default).
    Hybrid,
    /// Strict priority, ties broken by creation date.
    Priority,
    /// Oldest issues first.
    Oldest,
}

impl Default for SortPolicy {
    fn default() -> (r: Self)
        ensures
            r == SortPolicy::Hybrid,
    {
        SortPolicy::Hybrid
    }
}

/// A workflow transition intent owned by storage.
#[derive(Debug, Clone, PartialEq, Eq)]
pub enum LifecycleAction {
    /// Move an Open Issue into In Progress; an Assignee is required.
    Start,
    /// Move an In Progress Issue back to Open while retaining its Assignee.
    ReturnToOpen,
    /// Close an Issue and optionally append one canonical reason Note.
    Close { reason: Option<NoteContent> },
    /// Reopen a Closed Issue and optionally append one canonical reason Note.
    Reopen { reason: Option<NoteContent> },
}

// ---------------------------------------------------------------------------
// New issues, updates and filters
// ---------------------------------------------------------------------------

/// Data for creating a new issue.
#[derive(Debug, Clone)]
pub struct NewIssue {
    /// Issue title.
    pub title: String,
    /// Issue description.
    pub description: String,
    /// Priority level (0-4).
    pub priority: u8,
    /// Issue kind.
    pub issue_kind: IssueKind,
    /// Assignee (optional).
    pub assignee: Option<String>,
    /// Labels.
    pub labels: Vec<String>,
    /// Design notes (optional).
    pub design: Option<String>,
    /// Acceptance criteria (optional).
    pub acceptance_criteria: Option<String>,
    /// Initial Note recorded with the Issue creation timestamp.
    pub initial_note: Option<NoteContent>,
    /// Blocking prerequisite Issues to attach at creation.
    pub prerequisites: Vec<IssueId>,
}

/// The first validation error of a new issue's fields, if any.
pub open spec fn issue_fields_error(
    title: Seq<char>,
    priority: u8,
    description: Seq<char>,
    assignee: Option<Seq<char>>,
    labels: Seq<Seq<char>>,
    design: Option<Seq<char>>,
    acceptance_criteria: Option<Seq<char>>,
) -> Option<Seq<char>> {
    if title_priority_error(title, priority) is Some {
        title_priority_error(title, priority)
    } else {
        text_fields_error(description, assignee, labels, design, acceptance_criteria)
    }
}

impl NewIssue {
    pub open spec fn fields_error(&self) -> Option<Seq<char>> {
        issue_fields_error(
            self.title@,
            self.priority,
            self.description@,
            opt_string_view(self.assignee),
            strings_view(self.labels@),
            opt_string_view(self.design),
            opt_string_view(self.acceptance_criteria),
        )
    }

    /// Validate the new issue data: title and priority first, then every
    /// text field for control characters.
    pub fn validate(&self) -> (r: Result<(), String>)
        ensures
            match r {
                Ok(()) => self.fields_error() is None,
                Err(msg) => self.fields_error() == Some(msg@),
            },
    {
        validate_title_and_priority(self.title.as_str(), self.priority)?;
        validate_text_fields(
            self.description.as_str(),
            opt_as_str(&self.assignee),
            self.labels.as_slice(),
            opt_as_str(&self.design),
            opt_as_str(&self.acceptance_criteria),
        )
    }
}

impl Default for NewIssue {
    /// Title "Untitled Issue", empty description, priority 2, kind Task,
    /// and every optional field empty.
    fn default() -> (r: Self)
        ensures
            r.title@ == "Untitled Issue"@,
            r.description@ == Seq::<char>::empty(),
            r.priority == 2,
            r.issue_kind == IssueKind::Task,
            r.assignee is None,
            r.labels@.len() == 0,
            r.design is None,
            r.acceptance_criteria is None,
            r.initial_note is None,
            r.prerequisites@.len() == 0,
    {
        NewIssue {
            title: String::from_str("Untitled Issue"),
            description: String::new(),
            priority: 2,
            issue_kind: IssueKind::Task,
            assignee: None,
            labels: Vec::new(),
            design: None,
            acceptance_criteria: None,
            initial_note: None,
            prerequisites: Vec::new(),
        }
    }
}

/// Data for updating an existing issue; `None` leaves a field unchanged.
#[derive(Debug, Clone)]
pub struct IssueUpdate {
    /// New title (if updating).
    pub title: Option<String>,
    /// New description (if updating).
    pub description: Option<String>,
    /// New status (if updating).
    pub status: Option<IssueStatus>,
    /// New priority (if updating).
    pub priority: Option<u8>,
    /// New issue kind (if reclassifying).
    pub issue_kind: Option<IssueKind>,
    /// `None` keeps the assignee, `Some(None)` clears it, `Some(Some(n))` sets it.
    pub assignee: Option<Option<String>>,
    /// New design notes (if updating).
    pub design: Option<String>,
    /// New acceptance criteria (if updating).
    pub acceptance_criteria: Option<String>,
    /// Note to append with this mutation's timestamp.
    pub note: Option<NoteContent>,
    /// New labels (if updating) - replaces existing labels.
    pub labels: Option<Vec<String>>,
}

impl Default for IssueUpdate {
    fn default() -> (r: Self)
        ensures
            r.title is None && r.description is None && r.status is None && r.priority is None
                && r.issue_kind is None && r.assignee is None && r.design is None
                && r.acceptance_criteria is None && r.note is None && r.labels is None,
    {
        IssueUpdate {
            title: None,
            description: None,
            status: None,
            priority: None,
            issue_kind: None,
            assignee: None,
            design: None,
            acceptance_criteria: None,
            note: None,
            labels: None,
        }
    }
}

/// Filter for querying issues.
#[derive(Debug, Clone)]
pub struct IssueFilter {
    /// Filter by status.
    pub status: Option<IssueStatus>,
    /// Filter by priority.
    pub priority: Option<u8>,
    /// Filter by issue kind.
    pub issue_kind: Option<IssueKind>,
    /// Filter by assignee.
    pub assignee: Option<String>,
    /// Filter by label.
    pub label: Option<crate::label::Label>,
    /// Limit number of results.
    pub limit: Option<usize>,
}

impl Default for IssueFilter {
    fn default() -> (r: Self)
        ensures
            r.status is None && r.priority is None && r.issue_kind is None && r.assignee is None
                && r.label is None && r.limit is None,
    {
        IssueFilter {
            status: None,
            priority: None,
            issue_kind: None,
            assignee: None,
            label: None,
            limit: None,
        }
    }
}

} // verus!
