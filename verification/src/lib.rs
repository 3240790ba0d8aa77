//! A small embeddable filter-expression language.
//!
//! A textual query of the form `field operator value`, composed with the
//! connectives `AND`, `OR`, `NOT` and parenthesised grouping, is lexed into
//! positioned tokens, parsed into an immutable condition tree (consulting a
//! caller-supplied field registry), and evaluated against a typed data record
//! through a finite dispatch table from (native field kind, operator) to a
//! comparison. Every fallible step returns a typed error; nothing panics.

pub mod error;
pub mod lexer;
pub mod matcher;
pub mod operator;
pub mod parser;
pub mod registry;
pub mod token;
pub mod value;

use vstd::prelude::*;
use crate::error::{Error, ErrorView};
use crate::lexer::{spec_tokenize, tokenize};
use crate::parser::{Condition, ConditionView, parse, spec_parse};
use crate::registry::{DescriptorView, FieldRegistry};

verus! {

/// What parsing a whole query text against a registry returns: the lexer's
/// error, or the parser's outcome on the lexer's tokens.
pub open spec fn spec_parse_query(s: Seq<char>, reg: Seq<DescriptorView>) -> Result<
    ConditionView,
    ErrorView,
> {
    match spec_tokenize(s) {
        Ok(toks) => spec_parse(toks, reg),
        Err(e) => Err(e),
    }
}

/// Lexes and parses a query text into a condition tree, exactly as
/// `spec_parse_query` says.
pub fn parse_query(input: &str, registry: &FieldRegistry) -> (r: Result<Condition, Error>)
    requires
        input@.len() < usize::MAX,
    ensures
        match r {
            Ok(c) => spec_parse_query(input@, registry@) == Ok::<ConditionView, ErrorView>(c@),
            Err(e) => spec_parse_query(input@, registry@) == Err::<ConditionView, ErrorView>(e@),
        },
{
    match tokenize(input) {
        Ok(toks) => parse(&toks, registry),
        Err(e) => Err(e),
    }
}

} // verus!
