//! The comparison operators of the query language, and the spec-level meaning
//! of each operator on the numeric native kinds.

pub mod le;

use vstd::prelude::*;
use crate::value::DecimalValue;

verus! {

/// A named relation that a field may support for comparison.
#[derive(Clone, Copy, Debug, PartialEq, Eq, Structural)]
pub enum Operator {
    /// `<=`
    Le,
    /// `<`
    Lt,
    /// `>=`
    Ge,
    /// `>`
    Gt,
    /// `=`
    Equal,
    /// `!=`
    NotEqual,
    /// `~`, a regular-expression match. It is recognised by the lexer, but no
    /// entry of the dispatch table provides it, so a registry that enables it
    /// for a field asks for a comparison the engine does not have.
    Regex,
}

/// What `op` means on two integers, or `None` where the dispatch table has no
/// entry for the operator on an integer kind.
pub open spec fn spec_int_compare(op: Operator, x: int, n: int) -> Option<bool> {
    match op {
        Operator::Le => Some(x <= n),
        Operator::Lt => Some(x < n),
        Operator::Ge => Some(x >= n),
        Operator::Gt => Some(x > n),
        Operator::Equal => Some(x == n),
        Operator::NotEqual => Some(x != n),
        Operator::Regex => None,
    }
}

/// What `op` means on two decimals, or `None` where the dispatch table has no
/// entry. Decimals compare by their scaled numeric value; on canonical values
/// the field-wise order used here agrees with it (`lemma_dec_le_scaled`).
pub open spec fn spec_dec_compare(op: Operator, a: DecimalValue, b: DecimalValue) -> Option<bool> {
    match op {
        Operator::Le => Some(spec_dec_le(a, b)),
        Operator::Lt => Some(spec_dec_lt(a, b)),
        Operator::Ge => Some(spec_dec_le(b, a)),
        Operator::Gt => Some(spec_dec_lt(b, a)),
        Operator::Equal => Some(a == b),
        Operator::NotEqual => Some(a != b),
        Operator::Regex => None,
    }
}

/// Field-wise less-or-equal on decimals.
pub open spec fn spec_dec_le(a: DecimalValue, b: DecimalValue) -> bool {
    a.units < b.units || (a.units == b.units && a.nanos <= b.nanos)
}

/// Field-wise strictly-less on decimals.
pub open spec fn spec_dec_lt(a: DecimalValue, b: DecimalValue) -> bool {
    a.units < b.units || (a.units == b.units && a.nanos < b.nanos)
}

/// On canonical decimals the field-wise order is the numeric order.
pub proof fn lemma_dec_le_scaled(a: DecimalValue, b: DecimalValue)
    requires
        a.wf(),
        b.wf(),
    ensures
        spec_dec_le(a, b) == (a.scaled() <= b.scaled()),
        spec_dec_lt(a, b) == (a.scaled() < b.scaled()),
        (a == b) == (a.scaled() == b.scaled()),
{
    if a.units < b.units {
        assert(a.units * 1_000_000_000 + 1_000_000_000 <= b.units * 1_000_000_000);
    }
    if b.units < a.units {
        assert(b.units * 1_000_000_000 + 1_000_000_000 <= a.units * 1_000_000_000);
    }
}

/// Executable integer comparison, exact against `spec_int_compare`.
pub fn int_compare(op: Operator, x: i64, n: i64) -> (r: Option<bool>)
    ensures
        r == spec_int_compare(op, x as int, n as int),
{
    match op {
        Operator::Le => Some(x <= n),
        Operator::Lt => Some(x < n),
        Operator::Ge => Some(x >= n),
        Operator::Gt => Some(x > n),
        Operator::Equal => Some(x == n),
        Operator::NotEqual => Some(x != n),
        Operator::Regex => None,
    }
}

/// Executable decimal comparison, exact against `spec_dec_compare`.
pub fn dec_compare(op: Operator, a: DecimalValue, b: DecimalValue) -> (r: Option<bool>)
    ensures
        r == spec_dec_compare(op, a, b),
{
    match op {
        Operator::Le => Some(a.units < b.units || (a.units == b.units && a.nanos <= b.nanos)),
        Operator::Lt => Some(a.units < b.units || (a.units == b.units && a.nanos < b.nanos)),
        Operator::Ge => Some(b.units < a.units || (b.units == a.units && b.nanos <= a.nanos)),
        Operator::Gt => Some(b.units < a.units || (b.units == a.units && b.nanos < a.nanos)),
        Operator::Equal => Some(a == b),
        Operator::NotEqual => Some(a != b),
        Operator::Regex => None,
    }
}

} // verus!
