//! Every way a query can be rejected: lexical and syntax errors anchored at a
//! 1-based source column, binding errors naming the offending field or
//! operator, and type-coercion errors naming the offending literal. Every
//! fallible step of the engine returns one of these; nothing panics, and a
//! successful `false` evaluation is an ordinary result, never an error.

use vstd::prelude::*;
use crate::operator::Operator;
use crate::registry::{Field, FieldView};
use crate::value::{DecimalValue, ValueView, Values};

verus! {

/// Spec-level shape of an `Error`.
#[verifier::ext_equal]
pub ghost enum ErrorView {
    ShouldEndHere { column: int },
    ShouldOpenParenthesisHere { column: int },
    ShouldCloseParenthesisHere { column: int },
    UnsupportedOperator { field: FieldView, operator: Operator },
    FieldNotEndabled { field: FieldView },
    UnknownField { field: Seq<char> },
    UnknownOperator { operator: Seq<char> },
    FieldRequireOperator { field: FieldView },
    FieldRequireValue { field: FieldView },
    MissingValue { column: int },
    MissingQuote { column: int },
    ShouldCloseBraceHere { column: int },
    ShouldValueHere { column: int },
    ShouldOpenBraceOrQuote { column: int },
    MissingCondition { column: int },
    IntegerParseFailed { column: int },
    DecimalParseFailed { column: int },
    NotAString { value: ValueView },
    NotAnInteger { value: ValueView },
    NotADecimal { value: ValueView },
    RefValueInEmptyList,
}

/// The error taxonomy of the engine.
#[derive(Debug, PartialEq)]
pub enum Error {
    /// Trailing input after a complete expression.
    ShouldEndHere { column: usize },
    /// A token that cannot start a term where one was expected.
    ShouldOpenParenthesisHere { column: usize },
    /// An opening parenthesis without its closing one.
    ShouldCloseParenthesisHere { column: usize },
    /// The operator is not in the field's enabled-operator set.
    UnsupportedOperator { field: Field, operator: Operator },
    /// The field exists but is administratively disabled.
    FieldNotEndabled { field: Field },
    /// The field name is not declared in the registry.
    UnknownField { field: String },
    /// An operator symbol sequence outside the fixed symbol table.
    UnknownOperator { operator: String },
    /// A field name not followed by an operator token.
    FieldRequireOperator { field: Field },
    /// A field and operator not followed by any value.
    FieldRequireValue { field: Field },
    /// Input ended inside a list where a value was expected.
    MissingValue { column: usize },
    /// A string literal without its closing quote before newline or end.
    MissingQuote { column: usize },
    /// A list without its closing brace.
    ShouldCloseBraceHere { column: usize },
    /// A token that cannot start a value where one was expected.
    ShouldValueHere { column: usize },
    /// A bare word where a quoted text or a list was expected.
    ShouldOpenBraceOrQuote { column: usize },
    /// A connective with no condition to apply to.
    MissingCondition { column: usize },
    /// An integer literal of more than eighteen digits.
    IntegerParseFailed { column: usize },
    /// A malformed decimal literal, or one beyond the supported precision.
    DecimalParseFailed { column: usize },
    /// The comparison needed a text, but the literal is of another kind.
    NotAString { value: Values },
    /// The comparison needed an integer, but the literal is of another kind.
    NotAnInteger { value: Values },
    /// The comparison needed a decimal, but the literal is of another kind.
    NotADecimal { value: Values },
    /// A coercion accessor was asked for the first entry of an empty list.
    RefValueInEmptyList,
}

impl View for Error {
    type V = ErrorView;

    open spec fn view(&self) -> ErrorView {
        match self {
            Error::ShouldEndHere { column } => ErrorView::ShouldEndHere { column: *column as int },
            Error::ShouldOpenParenthesisHere { column } => ErrorView::ShouldOpenParenthesisHere {
                column: *column as int,
            },
            Error::ShouldCloseParenthesisHere { column } => ErrorView::ShouldCloseParenthesisHere {
                column: *column as int,
            },
            Error::UnsupportedOperator { field, operator } => ErrorView::UnsupportedOperator {
                field: field@,
                operator: *operator,
            },
            Error::FieldNotEndabled { field } => ErrorView::FieldNotEndabled { field: field@ },
            Error::UnknownField { field } => ErrorView::UnknownField { field: field@ },
            Error::UnknownOperator { operator } => ErrorView::UnknownOperator { operator: operator@ },
            Error::FieldRequireOperator { field } => ErrorView::FieldRequireOperator { field: field@ },
            Error::FieldRequireValue { field } => ErrorView::FieldRequireValue { field: field@ },
            Error::MissingValue { column } => ErrorView::MissingValue { column: *column as int },
            Error::MissingQuote { column } => ErrorView::MissingQuote { column: *column as int },
            Error::ShouldCloseBraceHere { column } => ErrorView::ShouldCloseBraceHere {
                column: *column as int,
            },
            Error::ShouldValueHere { column } => ErrorView::ShouldValueHere { column: *column as int },
            Error::ShouldOpenBraceOrQuote { column } => ErrorView::ShouldOpenBraceOrQuote {
                column: *column as int,
            },
            Error::MissingCondition { column } => ErrorView::MissingCondition { column: *column as int },
            Error::IntegerParseFailed { column } => ErrorView::IntegerParseFailed {
                column: *column as int,
            },
            Error::DecimalParseFailed { column } => ErrorView::DecimalParseFailed {
                column: *column as int,
            },
            Error::NotAString { value } => ErrorView::NotAString { value: value@ },
            Error::NotAnInteger { value } => ErrorView::NotAnInteger { value: value@ },
            Error::NotADecimal { value } => ErrorView::NotADecimal { value: value@ },
            Error::RefValueInEmptyList => ErrorView::RefValueInEmptyList,
        }
    }
}

/// View of a boolean result, for exact contracts.
pub open spec fn bool_result_view(r: Result<bool, Error>) -> Result<bool, ErrorView> {
    match r {
        Ok(b) => Ok(b),
        Err(e) => Err(e@),
    }
}

/// View of an integer-coercion result.
pub open spec fn int_result_view(r: Result<i64, Error>) -> Result<i64, ErrorView> {
    match r {
        Ok(i) => Ok(i),
        Err(e) => Err(e@),
    }
}

/// View of a decimal-coercion result.
pub open spec fn dec_result_view(r: Result<DecimalValue, Error>) -> Result<DecimalValue, ErrorView> {
    match r {
        Ok(d) => Ok(d),
        Err(e) => Err(e@),
    }
}

/// View of a text-coercion result.
pub open spec fn text_result_view(r: Result<String, Error>) -> Result<Seq<char>, ErrorView> {
    match r {
        Ok(s) => Ok(s@),
        Err(e) => Err(e@),
    }
}

} // verus!
