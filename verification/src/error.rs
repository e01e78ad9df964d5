use vstd::prelude::*;
use vstd::string::StringExecFns;

use crate::entity::sol::Verdict;

verus! {

/// A typed error: every pipeline operation aborts with one of these on its
/// first failure.
#[derive(Debug)]
pub enum Error {
    /// A filesystem or process-launch failure, or a process that exited with
    /// a nonzero status where that is fatal.
    IOError { message: String },
    /// The manifest violates an invariant or references an unknown language.
    ConfInvalid { description: String },
    /// A solution's aggregate verdict differed from its declared expected
    /// verdict.
    VerdictMismatch { expected: Verdict, actual: Verdict },
    /// The manifest could not be serialized.
    TomlSerError { message: String },
    /// The manifest could not be parsed.
    TomlDeError { message: String },
    /// An entity type other than the known ones was requested.
    UnknownEntityType { entity_type: String },
    /// A validator rejected an input file.
    ValidationFailed { validator: String, infile: String, message: String },
}

impl Error {
    /// The rendering of this error produced by [`Error::describe`].
    pub open spec fn describe_spec(self) -> Seq<char> {
        match self {
            Error::IOError { message } => "I/O error occurred: "@ + message@,
            Error::ConfInvalid { description } => "Config file has invalid configuration: "@
                + description@,
            Error::VerdictMismatch { expected, actual } => "Verdict is not as expected (expected = "@
                + expected.label_spec() + ", actual = "@ + actual.label_spec() + ")"@,
            Error::TomlSerError { message } => "Toml serialization failed: "@ + message@,
            Error::TomlDeError { message } => "Toml deserialization failed: "@ + message@,
            Error::UnknownEntityType { entity_type } => "Unknown entity type: "@ + entity_type@,
            Error::ValidationFailed { validator, infile, message } => "Validation failed: validator = "@
                + validator@ + ", infile = "@ + infile@ + ": "@ + message@,
        }
    }

    /// Renders this error as one human-readable line.
    pub fn describe(&self) -> (r: String)
        ensures
            r@ =~= self.describe_spec(),
    {
        match self {
            Error::IOError { message } => {
                let mut s = String::new();
                s.append("I/O error occurred: ");
                s.append(message.as_str());
                s
            },
            Error::ConfInvalid { description } => {
                let mut s = String::new();
                s.append("Config file has invalid configuration: ");
                s.append(description.as_str());
                s
            },
            Error::VerdictMismatch { expected, actual } => {
                let mut s = String::new();
                s.append("Verdict is not as expected (expected = ");
                s.append(expected.label());
                s.append(", actual = ");
                s.append(actual.label());
                s.append(")");
                s
            },
            Error::TomlSerError { message } => {
                let mut s = String::new();
                s.append("Toml serialization failed: ");
                s.append(message.as_str());
                s
            },
            Error::TomlDeError { message } => {
                let mut s = String::new();
                s.append("Toml deserialization failed: ");
                s.append(message.as_str());
                s
            },
            Error::UnknownEntityType { entity_type } => {
                let mut s = String::new();
                s.append("Unknown entity type: ");
                s.append(entity_type.as_str());
                s
            },
            Error::ValidationFailed { validator, infile, message } => {
                let mut s = String::new();
                s.append("Validation failed: validator = ");
                s.append(validator.as_str());
                s.append(", infile = ");
                s.append(infile.as_str());
                s.append(": ");
                s.append(message.as_str());
                s
            },
        }
    }
}

} // verus!
