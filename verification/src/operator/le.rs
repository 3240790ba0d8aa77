//! The less-or-equal operator, as a trait over each native representation,
//! with a content-length variant for text fields.

use vstd::prelude::*;
use crate::error::{Error, ErrorView, bool_result_view};
use crate::value::{DecimalValue, ValueView, Values, spec_as_decimal, spec_as_integer};
use crate::operator::spec_dec_le;
use vstd::string::StrSliceExecFns;

verus! {

/// What less-or-equal returns for an integer left-hand side: the literal
/// coerced to an integer, or that coercion's error.
pub open spec fn spec_le_int(x: int, lit: ValueView) -> Result<bool, ErrorView> {
    match spec_as_integer(lit) {
        Ok(n) => Ok(x <= n),
        Err(e) => Err(e),
    }
}

/// What less-or-equal returns for a decimal left-hand side.
pub open spec fn spec_le_dec(a: DecimalValue, lit: ValueView) -> Result<bool, ErrorView> {
    match spec_as_decimal(lit) {
        Ok(b) => Ok(spec_dec_le(a, b)),
        Err(e) => Err(e),
    }
}

/// What less-or-equal returns in content-length mode: the character count of
/// the text compared against the literal coerced to an integer.
pub open spec fn spec_le_content_len(count: int, lit: ValueView) -> Result<bool, ErrorView> {
    match spec_as_integer(lit) {
        Ok(n) => Ok(count <= n),
        Err(e) => Err(e),
    }
}

/// The less-or-equal comparison against a literal operand.
pub trait LeOperator<T> {
    fn le_ope(&self, target: T) -> Result<bool, Error>;
}

/// The less-or-equal comparison in content-length mode: the character count
/// of the receiver, not its text, is compared against an integer literal.
pub trait LeOperatorForContentLen<T> {
    fn le_ope_for_content_len(&self, target: T) -> Result<bool, Error>;
}

impl LeOperator<&Values> for i64 {
    fn le_ope(&self, target: &Values) -> (r: Result<bool, Error>)
        ensures
            bool_result_view(r) == spec_le_int(*self as int, target@),
    {
        match target.get_an_integer() {
            Ok(n) => Ok(*self <= n),
            Err(e) => Err(e),
        }
    }
}

impl LeOperator<&Values> for i32 {
    fn le_ope(&self, target: &Values) -> (r: Result<bool, Error>)
        ensures
            bool_result_view(r) == spec_le_int(*self as int, target@),
    {
        (*self as i64).le_ope(target)
    }
}

impl LeOperator<&Values> for Option<i32> {
    /// An absent value compares false for every operand, never an error.
    fn le_ope(&self, target: &Values) -> (r: Result<bool, Error>)
        ensures
            bool_result_view(r) == match *self {
                Some(x) => spec_le_int(x as int, target@),
                None => Ok::<bool, ErrorView>(false),
            },
    {
        if let Some(x) = self {
            x.le_ope(target)
        } else {
            Ok(false)
        }
    }
}

impl LeOperator<&Values> for DecimalValue {
    fn le_ope(&self, target: &Values) -> (r: Result<bool, Error>)
        ensures
            bool_result_view(r) == spec_le_dec(*self, target@),
    {
        match target.get_a_decimal() {
            Ok(b) => Ok(self.units < b.units || (self.units == b.units && self.nanos <= b.nanos)),
            Err(e) => Err(e),
        }
    }
}

impl LeOperatorForContentLen<&Values> for String {
    fn le_ope_for_content_len(&self, target: &Values) -> (r: Result<bool, Error>)
        ensures
            bool_result_view(r) == spec_le_content_len(self@.len() as int, target@),
    {
        let count = self.as_str().unicode_len();
        match target.get_an_integer() {
            Ok(n) => Ok(n >= 0 && count as u64 <= n as u64),
            Err(e) => Err(e),
        }
    }
}

impl LeOperatorForContentLen<&Values> for Option<String> {
    /// An absent value compares false for every operand, never an error.
    fn le_ope_for_content_len(&self, target: &Values) -> (r: Result<bool, Error>)
        ensures
            bool_result_view(r) == match self {
                Some(s) => spec_le_content_len(s@.len() as int, target@),
                None => Ok::<bool, ErrorView>(false),
            },
    {
        if let Some(s) = self {
            s.le_ope_for_content_len(target)
        } else {
            Ok(false)
        }
    }
}

} // verus!
