//! Character-level rules for identifiers, paths and free text.

use vstd::prelude::*;
use vstd::string::*;
use vstd::utf8::encode_utf8;
use crate::error::SchemaError;

verus! {

/// The longest description, in bytes.
pub const MAX_DESCRIPTION: usize = 1024;

/// The longest literal response of a string endpoint, in bytes.
pub const MAX_RESPONSE: usize = 4096;

/// A set of characters that a piece of a definition may be written in.
#[derive(Clone, Copy, Debug, PartialEq, Eq, Structural)]
pub enum CharClass {
    /// ASCII letters, digits and `_`.
    Identifier,
    /// Identifier characters and `/`, `-`, `.`.
    Path,
    /// Everything but control characters.
    Text,
}

/// Whether `c` is an ASCII letter, a digit or `_`.
pub open spec fn is_id_char(c: char) -> bool {
    ('a' <= c && c <= 'z') || ('A' <= c && c <= 'Z') || ('0' <= c && c <= '9') || c == '_'
}

/// Whether `c` is a control character: U+0000 to U+001F or U+007F to U+009F.
pub open spec fn is_control(c: char) -> bool {
    c <= '\u{1f}' || ('\u{7f}' <= c && c <= '\u{9f}')
}

impl CharClass {
    /// Whether the class holds `c`.
    pub open spec fn allows(self, c: char) -> bool {
        match self {
            CharClass::Identifier => is_id_char(c),
            CharClass::Path => is_id_char(c) || c == '/' || c == '-' || c == '.',
            CharClass::Text => !is_control(c),
        }
    }

    /// Whether the class holds `c`.
    pub fn accepts(self, c: char) -> (r: bool)
        ensures
            r == self.allows(c),
    {
        let id = ('a' <= c && c <= 'z') || ('A' <= c && c <= 'Z') || ('0' <= c && c <= '9') || c
            == '_';
        match self {
            CharClass::Identifier => id,
            CharClass::Path => id || c == '/' || c == '-' || c == '.',
            CharClass::Text => !(c <= '\u{1f}' || ('\u{7f}' <= c && c <= '\u{9f}')),
        }
    }
}

/// Whether every character of `s` is in `class`.
pub open spec fn all_allowed(class: CharClass, s: Seq<char>) -> bool {
    forall|j: int| 0 <= j < s.len() ==> class.allows(#[trigger] s[j])
}

/// Whether `i` is the position of the first character of `s` outside `class`.
pub open spec fn is_first_rejected(class: CharClass, s: Seq<char>, i: int) -> bool {
    &&& 0 <= i < s.len()
    &&& !class.allows(s[i])
    &&& forall|j: int| 0 <= j < i ==> class.allows(#[trigger] s[j])
}

/// The first character of `s` outside `class`, if there is one.
pub open spec fn first_rejected(class: CharClass, s: Seq<char>) -> Option<char> {
    if all_allowed(class, s) {
        None
    } else {
        Some(s[choose|i: int| is_first_rejected(class, s, i)])
    }
}

/// The outcome of checking an identifier: it is not empty and all of its
/// characters are identifier characters.
pub open spec fn id_check(s: Seq<char>) -> Result<(), SchemaError> {
    if s.len() == 0 {
        Err(SchemaError::EmptyIdentifier)
    } else {
        match first_rejected(CharClass::Identifier, s) {
            Some(c) => Err(SchemaError::InvalidChar(c)),
            None => Ok(()),
        }
    }
}

/// The outcome of checking an endpoint or file path: it is not empty and all
/// of its characters are path characters.
pub open spec fn path_check(s: Seq<char>) -> Result<(), SchemaError> {
    if s.len() == 0 {
        Err(SchemaError::EmptyPath)
    } else {
        match first_rejected(CharClass::Path, s) {
            Some(c) => Err(SchemaError::InvalidChar(c)),
            None => Ok(()),
        }
    }
}

/// The outcome of checking a free text against a bound in bytes: its UTF-8
/// encoding is no longer than `max` and it holds no control character.
pub open spec fn text_check(s: Seq<char>, max: nat) -> Result<(), SchemaError> {
    if encode_utf8(s).len() > max {
        Err(SchemaError::TextTooLong)
    } else if first_rejected(CharClass::Text, s) is Some {
        Err(SchemaError::ControlChar)
    } else {
        Ok(())
    }
}

/// The outcome of checking a description that may be absent.
pub open spec fn description_check(d: Option<String>) -> Result<(), SchemaError> {
    match d {
        Some(text) => text_check(text@, MAX_DESCRIPTION as nat),
        None => Ok(()),
    }
}

/// The first failure of two checks made in order.
pub open spec fn and_then(a: Result<(), SchemaError>, b: Result<(), SchemaError>) -> Result<
    (),
    SchemaError,
> {
    if a is Err {
        a
    } else {
        b
    }
}

/// Whether `i` is the position of the first failure in `outcomes`.
pub open spec fn is_first_failure(outcomes: Seq<Result<(), SchemaError>>, i: int) -> bool {
    &&& 0 <= i < outcomes.len()
    &&& outcomes[i] is Err
    &&& forall|j: int| 0 <= j < i ==> (#[trigger] outcomes[j]) is Ok
}

/// The first failure among `outcomes`, or success when there is none.
pub open spec fn first_failure(outcomes: Seq<Result<(), SchemaError>>) -> Result<(), SchemaError> {
    if forall|j: int| 0 <= j < outcomes.len() ==> (#[trigger] outcomes[j]) is Ok {
        Ok(())
    } else {
        outcomes[choose|i: int| is_first_failure(outcomes, i)]
    }
}

/// A failure that no earlier failure precedes is the first failure.
pub proof fn lemma_first_failure_at(outcomes: Seq<Result<(), SchemaError>>, i: int)
    requires
        is_first_failure(outcomes, i),
    ensures
        first_failure(outcomes) == outcomes[i],
{
    let k = choose|k: int| is_first_failure(outcomes, k);
    assert(is_first_failure(outcomes, k));
    if k < i {
        assert(outcomes[k] is Ok);
    }
    if i < k {
        assert(outcomes[i] is Ok);
    }
}

/// The first character of `s` that `class` does not hold.
pub fn find_rejected(class: CharClass, s: &str) -> (r: Option<char>)
    ensures
        r == first_rejected(class, s@),
{
    for c in it: s.chars()
        invariant
            it.seq() == s@,
            forall|j: int| 0 <= j < it.index() ==> class.allows(#[trigger] s@[j]),
    {
        if !class.accepts(c) {
            proof {
                let i = it.index() as int;
                assert(is_first_rejected(class, s@, i));
                let k = choose|k: int| is_first_rejected(class, s@, k);
                assert(is_first_rejected(class, s@, k));
                if k < i {
                    assert(class.allows(s@[k]));
                }
                if i < k {
                    assert(class.allows(s@[i]));
                }
            }
            return Some(c);
        }
    }
    None
}

/// Checks that `id` is a non-empty run of ASCII letters, digits and `_`.
pub fn validate_id(id: &str) -> (r: Result<(), SchemaError>)
    ensures
        r == id_check(id@),
{
    if id.is_empty() {
        return Err(SchemaError::EmptyIdentifier);
    }
    match find_rejected(CharClass::Identifier, id) {
        Some(c) => Err(SchemaError::InvalidChar(c)),
        None => Ok(()),
    }
}

/// Checks that `text` takes at most `max_length` bytes and holds no control
/// character.
pub fn validate_text(text: &str, max_length: usize) -> (r: Result<(), SchemaError>)
    ensures
        r == text_check(text@, max_length as nat),
{
    if text.as_bytes().len() > max_length {
        return Err(SchemaError::TextTooLong);
    }
    match find_rejected(CharClass::Text, text) {
        Some(_) => Err(SchemaError::ControlChar),
        None => Ok(()),
    }
}

/// Checks that `path` is a non-empty run of identifier characters, `/`, `-`
/// and `.`.
pub fn validate_api_path(path: &str) -> (r: Result<(), SchemaError>)
    ensures
        r == path_check(path@),
{
    if path.is_empty() {
        return Err(SchemaError::EmptyPath);
    }
    match find_rejected(CharClass::Path, path) {
        Some(c) => Err(SchemaError::InvalidChar(c)),
        None => Ok(()),
    }
}

/// Checks the path of a local file by the rules of an endpoint path.
pub fn validate_file_path(path: &str) -> (r: Result<(), SchemaError>)
    ensures
        r == path_check(path@),
{
    validate_api_path(path)
}

/// Checks a description that may be absent.
pub fn validate_description(description: &Option<String>) -> (r: Result<(), SchemaError>)
    ensures
        r == description_check(*description),
{
    match description {
        Some(text) => validate_text(text.as_str(), MAX_DESCRIPTION),
        None => Ok(()),
    }
}

} // verus!
