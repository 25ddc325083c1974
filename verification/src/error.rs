//! The kinds of failure that the engine reports.

use vstd::prelude::*;
use vstd::string::*;

verus! {

/// How a failure is surfaced to the caller.
#[derive(Clone, Copy, Debug, PartialEq, Eq, Structural)]
pub enum ErrorKind {
    /// Malformed schema text, a bad identifier, oversized text or an
    /// unsupported query construct.
    Validation,
    /// An unknown model, endpoint path or projected field.
    NotFound,
    /// An access rule denies the request, or authentication fails.
    Permission,
    /// The storage backend failed.
    Storage,
    /// A required field is absent on create, or a row has no id on update.
    MissingField,
}

/// The first violation found while validating a definition.
#[derive(Clone, Copy, Debug, PartialEq, Eq, Structural)]
pub enum SchemaError {
    /// An identifier with no characters.
    EmptyIdentifier,
    /// A character outside the set that the place allows.
    InvalidChar(char),
    /// A text longer than its bound, in bytes.
    TextTooLong,
    /// A control character inside a text.
    ControlChar,
    /// An endpoint or file path with no characters.
    EmptyPath,
    /// A schema version other than the supported one.
    UnsupportedVersion,
}

impl SchemaError {
    /// What the violation reads as.
    pub open spec fn text(self) -> Seq<char> {
        match self {
            SchemaError::EmptyIdentifier => "empty identifier"@,
            SchemaError::InvalidChar(c) => "invalid char: '"@.push(c) + "'"@,
            SchemaError::TextTooLong => "text too long"@,
            SchemaError::ControlChar => "invalid control char in string"@,
            SchemaError::EmptyPath => "empty api path"@,
            SchemaError::UnsupportedVersion => "Unsupported schema version"@,
        }
    }

    /// What the violation reads as.
    pub fn message(&self) -> (r: String)
        ensures
            r@ == self.text(),
    {
        match self {
            SchemaError::EmptyIdentifier => "empty identifier".to_owned(),
            SchemaError::InvalidChar(c) => {
                let mut out = "invalid char: '".to_owned();
                out.push(*c);
                out.append("'");
                out
            },
            SchemaError::TextTooLong => "text too long".to_owned(),
            SchemaError::ControlChar => "invalid control char in string".to_owned(),
            SchemaError::EmptyPath => "empty api path".to_owned(),
            SchemaError::UnsupportedVersion => "Unsupported schema version".to_owned(),
        }
    }

    /// Every schema violation is a validation failure.
    pub fn kind(&self) -> (r: ErrorKind)
        ensures
            r == ErrorKind::Validation,
    {
        ErrorKind::Validation
    }
}

} // verus!
