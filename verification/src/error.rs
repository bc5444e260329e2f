//! The error carried out of a failed generation.
//!
//! An error holds a message and, where known, the entity and field that were
//! being generated when it arose; `to_text` renders the three parts the way
//! callers print them.

use vstd::prelude::*;
use crate::strutil::push_char;

verus! {

/// Why a generation call failed: an unresolved reference, an unknown template
/// key, or a number no JSON value can carry.
#[derive(Debug, Clone)]
pub struct JgdGeneratorError {
    /// What went wrong.
    pub message: String,
    /// The entity being generated, where known.
    pub entity: Option<String>,
    /// The field being generated, where known.
    pub field: Option<String>,
}

/// The printed form of an error: the message, then the known location parts.
pub open spec fn spec_error_text(
    message: Seq<char>,
    entity: Option<Seq<char>>,
    field: Option<Seq<char>>,
) -> Seq<char> {
    match (entity, field) {
        (Some(e), Some(f)) => message + " (entity: "@ + e + ", field: "@ + f + ")"@,
        (Some(e), None) => message + " (entity: "@ + e + ")"@,
        (None, Some(f)) => message + " (field: "@ + f + ")"@,
        (None, None) => message,
    }
}

impl JgdGeneratorError {
    /// An error with a message alone.
    pub fn new(message: String) -> (r: JgdGeneratorError)
        ensures
            r.message@ == message@,
            r.entity is None,
            r.field is None,
    {
        JgdGeneratorError { message, entity: None, field: None }
    }

    /// The spec-level view: message and location parts as sequences.
    pub open spec fn text(&self) -> Seq<char> {
        spec_error_text(
            self.message@,
            match self.entity {
                Some(ref e) => Some(e@),
                None => None,
            },
            match self.field {
                Some(ref f) => Some(f@),
                None => None,
            },
        )
    }

    /// Renders the error as one line of text.
    pub fn to_text(&self) -> (r: String)
        ensures
            r@ == self.text(),
    {
        let mut out = self.message.clone();
        match (&self.entity, &self.field) {
            (Some(e), Some(f)) => {
                out.append(" (entity: ");
                out.append(e.as_str());
                out.append(", field: ");
                out.append(f.as_str());
                out.append(")");
            },
            (Some(e), None) => {
                out.append(" (entity: ");
                out.append(e.as_str());
                out.append(")");
            },
            (None, Some(f)) => {
                out.append(" (field: ");
                out.append(f.as_str());
                out.append(")");
            },
            (None, None) => {},
        }
        proof {
            assert(out@ =~= self.text());
        }
        out
    }
}

} // verus!
