//! Parser for a textual world manifest: three global counts, a declared zone
//! count, and a list of zone records, each with a zone number, a room count,
//! a quoted name, and up to three optional trailing fields (alignment keyword,
//! quoted owner, numeric uid).
//!
//! The grammar engine (lexer + recognizer) turns the document into a parse
//! tree; the transformer turns the tree into the typed `WorldList` model.
//! Every stage carries a contract relating it to the specification-level
//! parsing functions, so `parse` returns `Ok` exactly on the documents the
//! grammar accepts, with the exact model the grammar assigns to them.
use vstd::prelude::*;

pub mod grammar;
pub mod laws;
pub mod lexer;
pub mod model;
pub mod transform;

use crate::grammar::spec_engine;
use crate::grammar::WorldParser;
use crate::model::ParseError;
use crate::model::WorldList;
use crate::model::WorldModel;
use crate::transform::spec_transform;
use crate::transform::transform;

verus! {

/// The meaning of a document: the world list it denotes, or `None` where the
/// grammar rejects it.
pub open spec fn spec_parse(s: Seq<char>) -> Option<WorldModel> {
    match spec_engine(s) {
        Some(tree) => Some(spec_transform(tree)),
        None => None,
    }
}

/// Parse a world manifest. Returns the document's world list exactly when
/// the grammar accepts the document, and the opaque `ParseError` (carrying no
/// partial result) exactly when it does not.
pub fn parse(world: &str) -> (r: Result<WorldList, ParseError>)
    ensures
        match r {
            Ok(w) => spec_parse(world@) == Some(w@),
            Err(_) => spec_parse(world@) is None,
        },
{
    match WorldParser::parse_document(world) {
        Ok(tree) => Ok(transform(tree)),
        Err(e) => Err(e),
    }
}

} // verus!
