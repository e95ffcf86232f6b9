//! Compile-time mutual-exclusion code generation.
//!
//! The library consumes a token sequence describing a list of gated
//! expressions (`"gate" => body,` segments) and produces, for each one, a
//! guard block holding the body together with one conflict diagnostic for
//! every other gate in the list, so that a build in which two gates are
//! active at once fails with a message naming both.

pub mod generate;
pub mod input;

use vstd::prelude::*;

verus! {

use crate::generate::{generate_spec, blocks_v, GuardBlock};
use crate::input::{parse_spec, toks, ConflictingInput, ParseError, ParseErrorV, Token};

/// Full pipeline over one token sequence: parse the gated-expression list,
/// then lay out one guard block per item with its conflict diagnostics.
///
/// On a malformed sequence the parse error is handed back unchanged and
/// nothing is generated.
pub fn conflicting(tokens: &Vec<Token>) -> (r: Result<Vec<GuardBlock>, ParseError>)
    ensures
        match r {
            Ok(out) => parse_spec(toks(tokens@), 0) matches Ok(items)
                && blocks_v(out@) == generate_spec(items),
            Err(e) => parse_spec(toks(tokens@), 0) == Err::<Seq<crate::input::GatedExprV>, ParseErrorV>(e@),
        },
{
    match ConflictingInput::parse(tokens) {
        Ok(input) => Ok(crate::generate::generate(&input)),
        Err(e) => Err(e),
    }
}

} // verus!
