//! Canonical Issue Label value.

use vstd::prelude::*;
use vstd::string::*;

use crate::text::{
    byte_len, char_is_ascii_digit, char_is_ascii_lower, char_is_ascii_upper, chars_of, decimal,
    is_ascii_digit, is_ascii_lower, is_ascii_upper, owned, push_decimal, push_str, string_of,
    utf8_len,
};

verus! {

/// Maximum number of bytes in a canonical Issue Label.
pub const MAX_LABEL_LENGTH: usize = 50;

/// Why an Issue Label spelling is not canonical.
#[derive(Debug, Clone, Copy, PartialEq, Eq, Structural)]
pub enum LabelError {
    /// The spelling has no characters.
    Empty,
    /// The spelling exceeds [`MAX_LABEL_LENGTH`] bytes.
    TooLong {
        /// Rejected byte length.
        length: usize,
    },
    /// An uppercase ASCII letter appeared.
    Uppercase {
        /// Zero-based character position.
        position: usize,
    },
    /// A character is outside the canonical alphabet.
    InvalidCharacter {
        /// Zero-based character position.
        position: usize,
    },
    /// The spelling starts with a separator.
    InvalidStart,
    /// The spelling ends with a separator.
    InvalidEnd,
    /// Two separators are adjacent.
    ConsecutiveSeparators {
        /// Zero-based position of the second separator.
        position: usize,
    },
}

pub open spec fn is_separator(c: char) -> bool {
    c == '-' || c == '_'
}

/// The first rule broken at or after character `i`, scanning left to right.
pub open spec fn label_scan(v: Seq<char>, i: nat) -> Option<LabelError>
    decreases v.len() - i,
{
    if i >= v.len() {
        if v.len() > 0 && is_separator(v.last()) {
            Some(LabelError::InvalidEnd)
        } else {
            None
        }
    } else {
        let c = v[i as int];
        if is_ascii_upper(c) {
            Some(LabelError::Uppercase { position: i as usize })
        } else if !is_ascii_lower(c) && !is_ascii_digit(c) && !is_separator(c) {
            Some(LabelError::InvalidCharacter { position: i as usize })
        } else if i == 0 && is_separator(c) {
            Some(LabelError::InvalidStart)
        } else if i > 0 && is_separator(v[i - 1]) && is_separator(c) {
            Some(LabelError::ConsecutiveSeparators { position: i as usize })
        } else {
            label_scan(v, i + 1)
        }
    }
}

/// Why `v` is not a canonical Label spelling, if it is not.
pub open spec fn label_error(v: Seq<char>) -> Option<LabelError> {
    if v.len() == 0 {
        Some(LabelError::Empty)
    } else if utf8_len(v) > MAX_LABEL_LENGTH {
        Some(LabelError::TooLong { length: utf8_len(v) as usize })
    } else {
        label_scan(v, 0)
    }
}

/// A canonical Label: 1-50 bytes of lowercase ASCII letters, digits, `-`
/// and `_`, starting and ending with a letter or digit, with no two
/// separators adjacent.
pub open spec fn is_canonical_label(v: Seq<char>) -> bool {
    label_error(v) is None
}

/// A canonical Workspace-defined classification applied to an Issue.
#[derive(Debug, PartialEq, Eq, PartialOrd, Ord, Hash)]
pub struct Label(String);

impl View for Label {
    type V = Seq<char>;

    closed spec fn view(&self) -> Seq<char> {
        self.0@
    }
}

impl Clone for Label {
    fn clone(&self) -> (r: Self)
        ensures
            r@ == self@,
    {
        proof {
            use_type_invariant(self);
        }
        Label(self.0.clone())
    }
}

impl Label {
    /// Every Label value is canonical.
    #[verifier::type_invariant]
    closed spec fn canonical(self) -> bool {
        is_canonical_label(self.0@)
    }

    /// Parse a canonical Issue Label.
    pub fn new(value: &str) -> (r: Result<Label, LabelError>)
        ensures
            match r {
                Ok(l) => label_error(value@) is None && l@ == value@,
                Err(e) => label_error(value@) == Some(e),
            },
    {
        Self::parse_str(value)
    }

    /// Parse a canonical Issue Label (the `FromStr` rules).
    pub fn parse_str(value: &str) -> (r: Result<Label, LabelError>)
        ensures
            match r {
                Ok(l) => label_error(value@) is None && l@ == value@,
                Err(e) => label_error(value@) == Some(e),
            },
    {
        let v = chars_of(value);
        if v.len() == 0 {
            return Err(LabelError::Empty);
        }
        let n = byte_len(value);
        if n > MAX_LABEL_LENGTH {
            return Err(LabelError::TooLong { length: n });
        }
        let mut previous_was_separator = false;
        let mut position: usize = 0;
        while position < v.len()
            invariant
                position <= v.len(),
                v@ == value@,
                v@.len() > 0,
                utf8_len(v@) <= MAX_LABEL_LENGTH,
                label_scan(v@, 0) == label_scan(v@, position as nat),
                previous_was_separator == (position > 0 && is_separator(v@[position - 1])),
            decreases v.len() - position,
        {
            let c = v[position];
            if char_is_ascii_upper(c) {
                return Err(LabelError::Uppercase { position });
            }
            let is_sep = c == '-' || c == '_';
            if !char_is_ascii_lower(c) && !char_is_ascii_digit(c) && !is_sep {
                return Err(LabelError::InvalidCharacter { position });
            }
            if position == 0 && is_sep {
                return Err(LabelError::InvalidStart);
            }
            if previous_was_separator && is_sep {
                return Err(LabelError::ConsecutiveSeparators { position });
            }
            previous_was_separator = is_sep;
            position += 1;
        }
        if previous_was_separator {
            return Err(LabelError::InvalidEnd);
        }
        Ok(Label(owned(value)))
    }

    /// Borrow the canonical Label spelling.
    pub fn as_str(&self) -> (r: &str)
        ensures
            r@ == self@,
            is_canonical_label(r@),
    {
        proof {
            use_type_invariant(self);
        }
        self.0.as_str()
    }

    /// The canonical spelling (what `Display` prints).
    pub fn to_string(&self) -> (r: String)
        ensures
            r@ == self@,
    {
        self.0.clone()
    }

    /// Consume the Label and return its canonical spelling.
    pub fn into_string(self) -> (r: String)
        ensures
            r@ == self@,
    {
        self.0
    }
}

impl core::str::FromStr for Label {
    type Err = LabelError;

    fn from_str(value: &str) -> (r: Result<Self, Self::Err>)
        ensures
            match r {
                Ok(l) => label_error(value@) is None && l@ == value@,
                Err(e) => label_error(value@) == Some(e),
            },
    {
        Self::parse_str(value)
    }
}

impl LabelError {
    /// The user-facing message.
    pub fn to_string(&self) -> (r: String)
        ensures
            r@ == label_error_message(*self),
    {
        let mut v: Vec<char> = Vec::new();
        match self {
            LabelError::Empty => push_str(&mut v, "Label cannot be empty"),
            LabelError::TooLong { length } => {
                push_str(&mut v, "Label cannot exceed ");
                push_decimal(&mut v, MAX_LABEL_LENGTH as u64);
                push_str(&mut v, " bytes, got ");
                push_decimal(&mut v, *length as u64);
                push_str(&mut v, " bytes");
            },
            LabelError::Uppercase { position } => {
                push_str(&mut v, "Label must be lowercase; uppercase character at position ");
                push_decimal(&mut v, *position as u64);
            },
            LabelError::InvalidCharacter { position } => {
                push_str(
                    &mut v,
                    "Label must contain only lowercase letters, numbers, hyphens, and underscores; invalid character at position ",
                );
                push_decimal(&mut v, *position as u64);
            },
            LabelError::InvalidStart => push_str(&mut v, "Label must start with a letter or number"),
            LabelError::InvalidEnd => push_str(&mut v, "Label must end with a letter or number"),
            LabelError::ConsecutiveSeparators { position } => {
                push_str(&mut v, "Label cannot contain consecutive separators at position ");
                push_decimal(&mut v, *position as u64);
            },
        }
        string_of(&v)
    }
}

pub open spec fn label_error_message(e: LabelError) -> Seq<char> {
    match e {
        LabelError::Empty => "Label cannot be empty"@,
        LabelError::TooLong { length } => "Label cannot exceed "@ + decimal(
            MAX_LABEL_LENGTH as nat,
        ) + " bytes, got "@ + decimal(length as nat) + " bytes"@,
        LabelError::Uppercase { position } =>
            "Label must be lowercase; uppercase character at position "@ + decimal(position as nat),
        LabelError::InvalidCharacter { position } =>
            "Label must contain only lowercase letters, numbers, hyphens, and underscores; invalid character at position "@
                + decimal(position as nat),
        LabelError::InvalidStart => "Label must start with a letter or number"@,
        LabelError::InvalidEnd => "Label must end with a letter or number"@,
        LabelError::ConsecutiveSeparators { position } =>
            "Label cannot contain consecutive separators at position "@ + decimal(position as nat),
    }
}

} // verus!
