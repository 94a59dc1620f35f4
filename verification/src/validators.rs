//! Validation of command-line input: prefixes, issue identifiers, titles and
//! free-text fields.

use vstd::prelude::*;

use crate::domain::{control_message, first_pos, lemma_first_pos, MAX_TITLE_LENGTH};
use crate::init::{check_prefix, prefix_problem, prefix_problem_message, prefix_problem_message_lower};
use crate::text::{
    byte_len, char_is_ascii_alnum, chars_of, decimal, eq_pred, find_char, find_line_control,
    find_multiline_control, is_ascii_alnum, line_control_pred, multiline_control_pred, owned,
    push_all, push_decimal, push_str, string_of, trim, trim_chars, utf8_len,
};

verus! {

/// The outcome of validating a command-line prefix: it is trimmed, then must
/// pass the workspace prefix rules.
pub open spec fn cli_prefix_result(s: Seq<char>) -> Result<Seq<char>, Seq<char>> {
    match prefix_problem(trim(s)) {
        Some(k) => Err(prefix_problem_message(k)),
        None => Ok(trim(s)),
    }
}

/// Validate an issue ID prefix given on the command line; the trimmed prefix
/// is returned.
pub fn validate_prefix(s: &str) -> (r: Result<String, String>)
    ensures
        match r {
            Ok(p) => cli_prefix_result(s@) == Ok::<Seq<char>, Seq<char>>(p@),
            Err(e) => cli_prefix_result(s@) == Err::<Seq<char>, Seq<char>>(e@),
        },
{
    let v = chars_of(s);
    let t = string_of(&trim_chars(&v));
    match check_prefix(t.as_str()) {
        Some(k) => Err(k.message()),
        None => Ok(t),
    }
}

/// A suffix character: an ASCII letter, digit or hyphen.
pub open spec fn suffix_char(c: char) -> bool {
    is_ascii_alnum(c) || c == '-'
}

/// Two hyphens in a row somewhere in `s`.
pub open spec fn has_double_hyphen(s: Seq<char>) -> bool {
    exists|i: int| 0 <= i < s.len() - 1 && #[trigger] s[i] == '-' && s[i + 1] == '-'
}

/// The error for an issue ID suffix, if any.
pub open spec fn suffix_error(suffix: Seq<char>) -> Option<Seq<char>> {
    if suffix.len() == 0 {
        Some("Issue ID suffix cannot be empty"@)
    } else if !(forall|i: int| 0 <= i < suffix.len() ==> suffix_char(#[trigger] suffix[i])) {
        Some("Issue ID suffix must contain only alphanumerics and hyphens"@)
    } else if suffix[0] == '-' {
        Some("Issue ID suffix cannot start with a hyphen"@)
    } else if suffix.last() == '-' {
        Some("Issue ID suffix cannot end with a hyphen"@)
    } else if has_double_hyphen(suffix) {
        Some("Issue ID suffix cannot contain consecutive hyphens"@)
    } else {
        None
    }
}

/// The message for an identifier without a hyphen.
pub open spec fn missing_hyphen_message(t: Seq<char>) -> Seq<char> {
    "Invalid issue ID format: '"@ + t
        + "'. Expected format: prefix-suffix (e.g., proj-abc or proj-abc-123)"@
}

/// The outcome of validating an issue identifier `prefix-suffix`: the
/// input is trimmed; the prefix (everything before the first hyphen, as it
/// stands) follows the workspace prefix rules; the suffix is non-empty, made of
/// ASCII letters, digits and single inner hyphens.
pub open spec fn issue_id_result(s: Seq<char>) -> Result<Seq<char>, Seq<char>> {
    let t = trim(s);
    if t.len() == 0 {
        Err("Issue ID cannot be empty"@)
    } else {
        match first_pos(t, eq_pred('-')) {
            None => Err(missing_hyphen_message(t)),
            Some(k) => {
                let prefix = t.take(k as int);
                let suffix = t.skip(k as int + 1);
                match prefix_problem(prefix) {
                    Some(p) => Err("Issue ID "@ + prefix_problem_message_lower(p)),
                    None => match suffix_error(suffix) {
                        Some(m) => Err(m),
                        None => Ok(t),
                    },
                }
            },
        }
    }
}

fn suffix_check(suffix: &Vec<char>) -> (r: Option<String>)
    ensures
        match r {
            Some(m) => suffix_error(suffix@) == Some(m@),
            None => suffix_error(suffix@) is None,
        },
{
    let n = suffix.len();
    if n == 0 {
        return Some(owned("Issue ID suffix cannot be empty"));
    }
    let mut i: usize = 0;
    while i < n
        invariant
            i <= n,
            n == suffix@.len(),
            forall|t: int| 0 <= t < i ==> suffix_char(#[trigger] suffix@[t]),
        decreases n - i,
    {
        if !(char_is_ascii_alnum(suffix[i]) || suffix[i] == '-') {
            assert(!suffix_char(suffix@[i as int]));
            return Some(owned("Issue ID suffix must contain only alphanumerics and hyphens"));
        }
        i += 1;
    }
    if suffix[0] == '-' {
        return Some(owned("Issue ID suffix cannot start with a hyphen"));
    }
    if suffix[n - 1] == '-' {
        return Some(owned("Issue ID suffix cannot end with a hyphen"));
    }
    let mut j: usize = 0;
    while j < n - 1
        invariant
            n == suffix@.len(),
            n >= 1,
            j <= n - 1,
            forall|t: int| 0 <= t < n ==> suffix_char(#[trigger] suffix@[t]),
            suffix@[0] != '-',
            suffix@.last() != '-',
            forall|t: int| 0 <= t < j && t < n - 1 ==> !(#[trigger] suffix@[t] == '-' && suffix@[t
                + 1] == '-'),
        decreases n - j,
    {
        if suffix[j] == '-' && suffix[j + 1] == '-' {
            assert(suffix@[j as int] == '-' && suffix@[j as int + 1] == '-');
            assert(has_double_hyphen(suffix@));
            return Some(owned("Issue ID suffix cannot contain consecutive hyphens"));
        }
        j += 1;
    }
    assert(!has_double_hyphen(suffix@)) by {
        assert forall|t: int| 0 <= t < suffix@.len() - 1 implies !(#[trigger] suffix@[t] == '-'
            && suffix@[t + 1] == '-') by {}
    }
    None
}

/// Validate an issue identifier of the form `prefix-suffix`; the trimmed
/// identifier is returned.
pub fn validate_issue_id(s: &str) -> (r: Result<String, String>)
    ensures
        match r {
            Ok(id) => issue_id_result(s@) == Ok::<Seq<char>, Seq<char>>(id@),
            Err(e) => issue_id_result(s@) == Err::<Seq<char>, Seq<char>>(e@),
        },
{
    let v = chars_of(s);
    let t = trim_chars(&v);
    if t.len() == 0 {
        return Err(owned("Issue ID cannot be empty"));
    }
    let hyphen = find_char(&t, '-');
    proof {
        lemma_first_pos(t@, eq_pred('-'), hyphen);
    }
    let k = match hyphen {
        None => {
            let mut m: Vec<char> = Vec::new();
            push_str(&mut m, "Invalid issue ID format: '");
            push_all(&mut m, &t);
            push_str(
                &mut m,
                "'. Expected format: prefix-suffix (e.g., proj-abc or proj-abc-123)",
            );
            return Err(string_of(&m));
        },
        Some(k) => k,
    };
    let mut prefix: Vec<char> = Vec::new();
    let mut i: usize = 0;
    while i < k
        invariant
            i <= k,
            k < t@.len(),
            prefix@ == t@.take(i as int),
        decreases k - i,
    {
        prefix.push(t[i]);
        i += 1;
        assert(prefix@ =~= t@.take(i as int));
    }
    let mut suffix: Vec<char> = Vec::new();
    let mut j: usize = k + 1;
    while j < t.len()
        invariant
            k + 1 <= j <= t@.len(),
            suffix@ == t@.subrange(k + 1, j as int),
        decreases t.len() - j,
    {
        suffix.push(t[j]);
        j += 1;
        assert(suffix@ =~= t@.subrange(k + 1, j as int));
    }
    assert(suffix@ =~= t@.skip(k + 1));
    let prefix_text = string_of(&prefix);
    match check_prefix(prefix_text.as_str()) {
        Some(p) => {
            let mut m: Vec<char> = Vec::new();
            push_str(&mut m, "Issue ID ");
            let lower = p.message_lowercase();
            push_str(&mut m, lower.as_str());
            return Err(string_of(&m));
        },
        None => {},
    }
    match suffix_check(&suffix) {
        Some(m) => Err(m),
        None => Ok(string_of(&t)),
    }
}

/// The message for an over-long title.
pub open spec fn title_too_long_message(n: nat) -> Seq<char> {
    "Title cannot exceed "@ + decimal(MAX_TITLE_LENGTH as nat) + " characters, got "@ + decimal(n)
        + " characters"@
}

/// The outcome of validating a title: trimmed, non-empty, at most
/// `MAX_TITLE_LENGTH` characters, single-line and free of control characters.
pub open spec fn title_result(s: Seq<char>) -> Result<Seq<char>, Seq<char>> {
    let t = trim(s);
    if t.len() == 0 {
        Err("Title cannot be empty"@)
    } else if t.len() > MAX_TITLE_LENGTH {
        Err(title_too_long_message(t.len()))
    } else if t.contains('\n') || t.contains('\r') {
        Err("Title cannot contain newline characters"@)
    } else if first_pos(t, line_control_pred()) is Some {
        Err(
            "Title contains invalid control character at position "@ + decimal(
                first_pos(t, line_control_pred())->0,
            ),
        )
    } else {
        Ok(t)
    }
}

/// Validate a title; the trimmed title is returned.
pub fn validate_title(s: &str) -> (r: Result<String, String>)
    ensures
        match r {
            Ok(t) => title_result(s@) == Ok::<Seq<char>, Seq<char>>(t@),
            Err(e) => title_result(s@) == Err::<Seq<char>, Seq<char>>(e@),
        },
{
    let v = chars_of(s);
    let t = trim_chars(&v);
    if t.len() == 0 {
        return Err(owned("Title cannot be empty"));
    }
    let n = t.len();
    if n > MAX_TITLE_LENGTH {
        let mut m: Vec<char> = Vec::new();
        push_str(&mut m, "Title cannot exceed ");
        push_decimal(&mut m, MAX_TITLE_LENGTH as u64);
        push_str(&mut m, " characters, got ");
        push_decimal(&mut m, n as u64);
        push_str(&mut m, " characters");
        return Err(string_of(&m));
    }
    if crate::text::contains_char(&t, '\n') || crate::text::contains_char(&t, '\r') {
        return Err(owned("Title cannot contain newline characters"));
    }
    let pos = find_line_control(&t);
    proof {
        lemma_first_pos(t@, line_control_pred(), pos);
    }
    if let Some(p) = pos {
        let mut m: Vec<char> = Vec::new();
        push_str(&mut m, "Title contains invalid control character at position ");
        push_decimal(&mut m, p as u64);
        return Err(string_of(&m));
    }
    Ok(string_of(&t))
}

/// The outcome of validating a free-text field: newlines and tabs are
/// allowed, other control characters are not.
pub open spec fn text_field_result(s: Seq<char>, field: Seq<char>) -> Result<
    Seq<char>,
    Seq<char>,
> {
    match first_pos(s, multiline_control_pred()) {
        Some(pos) => Err(control_message(field, pos)),
        None => Ok(s),
    }
}

/// Validate a free-text field named `field_name`; the text is returned
/// unchanged.
pub fn validate_text_field(s: &str, field_name: &str) -> (r: Result<String, String>)
    ensures
        match r {
            Ok(t) => text_field_result(s@, field_name@) == Ok::<Seq<char>, Seq<char>>(t@),
            Err(e) => text_field_result(s@, field_name@) == Err::<Seq<char>, Seq<char>>(e@),
        },
{
    let v = chars_of(s);
    let pos = find_multiline_control(&v);
    proof {
        lemma_first_pos(s@, multiline_control_pred(), pos);
    }
    if let Some(p) = pos {
        let mut m: Vec<char> = Vec::new();
        push_str(&mut m, field_name);
        push_str(&mut m, " contains invalid control character at position ");
        push_decimal(&mut m, p as u64);
        return Err(string_of(&m));
    }
    Ok(owned(s))
}

/// Validate a description (a free-text field named `Description`).
pub fn validate_description(s: &str) -> (r: Result<String, String>)
    ensures
        match r {
            Ok(t) => text_field_result(s@, "Description"@) == Ok::<Seq<char>, Seq<char>>(t@),
            Err(e) => text_field_result(s@, "Description"@) == Err::<Seq<char>, Seq<char>>(e@),
        },
{
    validate_text_field(s, "Description")
}

} // verus!
