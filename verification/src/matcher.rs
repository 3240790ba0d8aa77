//! The matcher: walks a condition tree against a caller-supplied data record,
//! dispatching each leaf through the finite table from (native kind,
//! operator) to a comparison, and combining children with short-circuiting
//! boolean logic. A successful `false` is an ordinary result, never an error,
//! and an absent optional value compares false before any dispatch happens.

use vstd::prelude::*;
use vstd::string::StrSliceExecFns;
use crate::error::{Error, ErrorView, bool_result_view};
use crate::operator::{Operator, dec_compare, int_compare, spec_dec_compare, spec_int_compare};
use crate::parser::{Condition, ConditionView};
use crate::registry::{Field, FieldView, str_eq};
use crate::value::{DecimalValue, ValueView, Values, spec_as_decimal, spec_as_integer};

verus! {

broadcast use vstd::std_specs::vec::group_vec_axioms;

/// Spec-level shape of a native value.
#[verifier::ext_equal]
pub ghost enum NativeView {
    Int64(i64),
    Int32(i32),
    OptionalInt32(Option<i32>),
    Decimal64(DecimalValue),
    Text(Seq<char>),
    OptionalText(Option<Seq<char>>),
}

/// A field's current value in the data record being matched. The optional
/// variants model a field that may be absent; absence evaluates every
/// comparison to false by design, never to an error.
#[derive(Debug, PartialEq)]
pub enum NativeValue {
    Int64(i64),
    Int32(i32),
    OptionalInt32(Option<i32>),
    Decimal64(DecimalValue),
    Text(String),
    OptionalText(Option<String>),
}

impl View for NativeValue {
    type V = NativeView;

    open spec fn view(&self) -> NativeView {
        match self {
            NativeValue::Int64(x) => NativeView::Int64(*x),
            NativeValue::Int32(x) => NativeView::Int32(*x),
            NativeValue::OptionalInt32(o) => NativeView::OptionalInt32(*o),
            NativeValue::Decimal64(d) => NativeView::Decimal64(*d),
            NativeValue::Text(s) => NativeView::Text(s@),
            NativeValue::OptionalText(o) => match o {
                Some(s) => NativeView::OptionalText(Some(s@)),
                None => NativeView::OptionalText(None),
            },
        }
    }
}

/// Spec-level shape of one record entry.
#[verifier::ext_equal]
pub ghost struct EntryView {
    pub name: Seq<char>,
    pub value: NativeView,
}

/// One named value of the data record.
#[derive(Debug, PartialEq)]
pub struct RecordEntry {
    pub name: String,
    pub value: NativeValue,
}

impl View for RecordEntry {
    type V = EntryView;

    open spec fn view(&self) -> EntryView {
        EntryView { name: self.name@, value: self.value@ }
    }
}

/// The data record a condition tree is evaluated against, owned and built by
/// the caller; the engine only reads it.
#[derive(Debug, PartialEq)]
pub struct Record {
    pub entries: Vec<RecordEntry>,
}

impl View for Record {
    type V = Seq<EntryView>;

    open spec fn view(&self) -> Seq<EntryView> {
        self.entries@.map_values(|e: RecordEntry| e@)
    }
}

/// The first value the record carries under `name`, if any.
pub open spec fn spec_record_lookup(entries: Seq<EntryView>, name: Seq<char>) -> Option<NativeView>
    decreases entries.len(),
{
    if entries.len() == 0 {
        None
    } else if entries[0].name == name {
        Some(entries[0].value)
    } else {
        spec_record_lookup(entries.drop_first(), name)
    }
}

impl Record {
    /// Looks the field's current value up, exactly as `spec_record_lookup`
    /// says.
    pub fn native_value(&self, name: &str) -> (r: Option<&NativeValue>)
        ensures
            match r {
                Some(v) => spec_record_lookup(self@, name@) == Some(v@),
                None => spec_record_lookup(self@, name@) is None,
            },
    {
        proof {
            assert(self@.skip(0) =~= self@);
        }
        let mut k: usize = 0;
        while k < self.entries.len()
            invariant
                k <= self.entries.len(),
                spec_record_lookup(self@.skip(k as int), name@) == spec_record_lookup(self@, name@),
            decreases self.entries.len() - k,
        {
            if str_eq(self.entries[k].name.as_str(), name) {
                proof {
                    assert(self@.skip(k as int)[0] == self@[k as int]);
                }
                return Some(&self.entries[k].value);
            }
            proof {
                assert(self@.skip(k as int)[0] == self@[k as int]);
                assert(self@.skip(k as int).drop_first() =~= self@.skip(k as int + 1));
            }
            k = k + 1;
        }
        proof {
            assert(self@.skip(k as int).len() == 0);
        }
        None
    }
}

/// The dispatch entry for an integer left-hand side: the literal coerced to
/// an integer, compared under `op`; an operator without an integer entry is
/// unsupported for the field.
pub open spec fn spec_compare_int(
    field: FieldView,
    op: Operator,
    x: int,
    lit: ValueView,
) -> Result<bool, ErrorView> {
    match spec_as_integer(lit) {
        Ok(n) => match spec_int_compare(op, x, n as int) {
            Some(b) => Ok(b),
            None => Err(ErrorView::UnsupportedOperator { field: field, operator: op }),
        },
        Err(e) => Err(e),
    }
}

/// The dispatch entry for a decimal left-hand side.
pub open spec fn spec_compare_dec(
    field: FieldView,
    op: Operator,
    a: DecimalValue,
    lit: ValueView,
) -> Result<bool, ErrorView> {
    match spec_as_decimal(lit) {
        Ok(b) => match spec_dec_compare(op, a, b) {
            Some(r) => Ok(r),
            None => Err(ErrorView::UnsupportedOperator { field: field, operator: op }),
        },
        Err(e) => Err(e),
    }
}

/// The dispatch entry for a text left-hand side: only content-length mode has
/// one, and only for less-or-equal — the field's character count against the
/// literal coerced to an integer. Everything else is unsupported.
pub open spec fn spec_compare_text(
    field: FieldView,
    op: Operator,
    count: int,
    lit: ValueView,
) -> Result<bool, ErrorView> {
    if field.content_length && op == Operator::Le {
        match spec_as_integer(lit) {
            Ok(n) => Ok(count <= n),
            Err(e) => Err(e),
        }
    } else {
        Err(ErrorView::UnsupportedOperator { field: field, operator: op })
    }
}

/// The whole dispatch table, keyed by the native value's kind; an absent
/// optional value is false before any entry is consulted.
pub open spec fn spec_compare(
    field: FieldView,
    op: Operator,
    native: NativeView,
    lit: ValueView,
) -> Result<bool, ErrorView> {
    match native {
        NativeView::Int64(x) => spec_compare_int(field, op, x as int, lit),
        NativeView::Int32(x) => spec_compare_int(field, op, x as int, lit),
        NativeView::OptionalInt32(o) => match o {
            Some(x) => spec_compare_int(field, op, x as int, lit),
            None => Ok(false),
        },
        NativeView::Decimal64(d) => spec_compare_dec(field, op, d, lit),
        NativeView::Text(s) => spec_compare_text(field, op, s.len() as int, lit),
        NativeView::OptionalText(o) => match o {
            Some(s) => spec_compare_text(field, op, s.len() as int, lit),
            None => Ok(false),
        },
    }
}

/// What evaluating a condition tree against a record returns: leaves look the
/// field up and dispatch; `AND` and `OR` short-circuit on their left result;
/// `NOT` negates; a group is transparent; the first error aborts the walk.
pub open spec fn spec_eval(c: ConditionView, rec: Seq<EntryView>) -> Result<bool, ErrorView>
    decreases c,
{
    match c {
        ConditionView::Leaf { field, operator, value } => match spec_record_lookup(rec, field.name) {
            None => Err(ErrorView::UnknownField { field: field.name }),
            Some(nv) => spec_compare(field, operator, nv, value),
        },
        ConditionView::And(l, r) => match spec_eval(*l, rec) {
            Ok(lb) => if !lb {
                Ok(false)
            } else {
                spec_eval(*r, rec)
            },
            Err(e) => Err(e),
        },
        ConditionView::Or(l, r) => match spec_eval(*l, rec) {
            Ok(lb) => if lb {
                Ok(true)
            } else {
                spec_eval(*r, rec)
            },
            Err(e) => Err(e),
        },
        ConditionView::Not(inner) => match spec_eval(*inner, rec) {
            Ok(b) => Ok(!b),
            Err(e) => Err(e),
        },
        ConditionView::Group(inner) => spec_eval(*inner, rec),
    }
}

fn compare_int(field: &Field, op: Operator, x: i64, lit: &Values) -> (r: Result<bool, Error>)
    ensures
        bool_result_view(r) == spec_compare_int(field@, op, x as int, lit@),
{
    match lit.get_an_integer() {
        Ok(n) => match int_compare(op, x, n) {
            Some(b) => Ok(b),
            None => Err(Error::UnsupportedOperator { field: field.clone(), operator: op }),
        },
        Err(e) => Err(e),
    }
}

fn compare_dec(field: &Field, op: Operator, a: DecimalValue, lit: &Values) -> (r: Result<bool, Error>)
    ensures
        bool_result_view(r) == spec_compare_dec(field@, op, a, lit@),
{
    match lit.get_a_decimal() {
        Ok(b) => match dec_compare(op, a, b) {
            Some(r) => Ok(r),
            None => Err(Error::UnsupportedOperator { field: field.clone(), operator: op }),
        },
        Err(e) => Err(e),
    }
}

fn compare_text(field: &Field, op: Operator, s: &str, lit: &Values) -> (r: Result<bool, Error>)
    ensures
        bool_result_view(r) == spec_compare_text(field@, op, s@.len() as int, lit@),
{
    if field.content_length && op == Operator::Le {
        match lit.get_an_integer() {
            Ok(n) => {
                let count = s.unicode_len();
                Ok(n >= 0 && count as u64 <= n as u64)
            },
            Err(e) => Err(e),
        }
    } else {
        Err(Error::UnsupportedOperator { field: field.clone(), operator: op })
    }
}

/// One dispatch through the table, exactly as `spec_compare` says.
fn dispatch(field: &Field, op: Operator, native: &NativeValue, lit: &Values) -> (r: Result<
    bool,
    Error,
>)
    ensures
        bool_result_view(r) == spec_compare(field@, op, native@, lit@),
{
    match native {
        NativeValue::Int64(x) => compare_int(field, op, *x, lit),
        NativeValue::Int32(x) => compare_int(field, op, *x as i64, lit),
        NativeValue::OptionalInt32(o) => match o {
            Some(x) => compare_int(field, op, *x as i64, lit),
            None => Ok(false),
        },
        NativeValue::Decimal64(d) => compare_dec(field, op, *d, lit),
        NativeValue::Text(s) => compare_text(field, op, s.as_str(), lit),
        NativeValue::OptionalText(o) => match o {
            Some(s) => compare_text(field, op, s.as_str(), lit),
            None => Ok(false),
        },
    }
}

/// Evaluates the condition tree against the record, exactly as `spec_eval`
/// says: the result is a function of the tree and the record alone, so
/// evaluating the same tree twice against the same record returns the same
/// result, and nothing is mutated by the walk.
pub fn evaluate(condition: &Condition, record: &Record) -> (r: Result<bool, Error>)
    ensures
        bool_result_view(r) == spec_eval(condition@, record@),
    decreases *condition,
{
    match condition {
        Condition::Leaf { field, operator, value } => {
            match record.native_value(field.name.as_str()) {
                Some(nv) => dispatch(field, *operator, nv, value),
                None => Err(Error::UnknownField { field: field.name.clone() }),
            }
        },
        Condition::And(l, r) => match evaluate(&**l, record) {
            Ok(lb) => if !lb {
                Ok(false)
            } else {
                evaluate(&**r, record)
            },
            Err(e) => Err(e),
        },
        Condition::Or(l, r) => match evaluate(&**l, record) {
            Ok(lb) => if lb {
                Ok(true)
            } else {
                evaluate(&**r, record)
            },
            Err(e) => Err(e),
        },
        Condition::Not(inner) => match evaluate(&**inner, record) {
            Ok(b) => Ok(!b),
            Err(e) => Err(e),
        },
        Condition::Group(inner) => evaluate(&**inner, record),
    }
}

/// The integer a native value carries, across the three integer
/// representations; `None` for the others or for an absent value.
pub open spec fn native_int_value(nv: NativeView) -> Option<int> {
    match nv {
        NativeView::Int64(x) => Some(x as int),
        NativeView::Int32(x) => Some(x as int),
        NativeView::OptionalInt32(o) => match o {
            Some(x) => Some(x as int),
            None => None,
        },
        _ => None,
    }
}

/// For every integer-represented field and all integers `v` and `n`: the
/// condition `field <= n` matches a record whose native value for the field
/// is `v` exactly when `v <= n`, and never errs.
pub proof fn lemma_le_on_integers(
    field: FieldView,
    rec: Seq<EntryView>,
    nv: NativeView,
    v: int,
    n: i64,
)
    requires
        spec_record_lookup(rec, field.name) == Some(nv),
        native_int_value(nv) == Some(v),
    ensures
        spec_eval(
            ConditionView::Leaf { field: field, operator: Operator::Le, value: ValueView::Integer(n) },
            rec,
        ) == Ok::<bool, ErrorView>(v <= n),
{
}

/// A field whose native value is absent compares false under every operator
/// and against every literal, and never errs.
pub proof fn lemma_absent_is_false(
    field: FieldView,
    rec: Seq<EntryView>,
    op: Operator,
    value: ValueView,
)
    requires
        spec_record_lookup(rec, field.name) == Some(NativeView::OptionalInt32(None))
            || spec_record_lookup(rec, field.name) == Some(NativeView::OptionalText(None)),
    ensures
        spec_eval(ConditionView::Leaf { field: field, operator: op, value: value }, rec)
            == Ok::<bool, ErrorView>(false),
{
}

/// Evaluation is idempotent: it is a function of the immutable tree and
/// record alone, so any two evaluations of the same tree against the same
/// record return the same result.
pub proof fn lemma_evaluate_deterministic(
    c: ConditionView,
    rec: Seq<EntryView>,
    r1: Result<bool, Error>,
    r2: Result<bool, Error>,
)
    requires
        bool_result_view(r1) == spec_eval(c, rec),
        bool_result_view(r2) == spec_eval(c, rec),
    ensures
        bool_result_view(r1) == bool_result_view(r2),
{
}

} // verus!

