//! The literal-value model: the tagged values that stand on the right-hand
//! side of a condition, with the coercion accessors that the dispatch table
//! asks for at evaluation time.

use vstd::prelude::*;
use crate::error::{Error, ErrorView, int_result_view, dec_result_view, text_result_view};

verus! {

broadcast use vstd::std_specs::vec::group_vec_axioms;

/// A decimal number held exactly as `units` plus `nanos` billionths. The
/// canonical form keeps `nanos` below one billion; the lexer only produces
/// canonical values, and on them the field-wise comparison order agrees with
/// the numeric order.
#[derive(Clone, Copy, Debug, PartialEq, Eq, Structural)]
pub struct DecimalValue {
    pub units: i64,
    pub nanos: u32,
}

impl DecimalValue {
    /// Canonical form: the fractional part carries less than one whole unit.
    pub open spec fn wf(self) -> bool {
        self.nanos < 1_000_000_000
    }

    /// The number denoted, scaled to billionths.
    pub open spec fn scaled(self) -> int {
        self.units * 1_000_000_000 + self.nanos
    }
}

/// Spec-level shape of a literal value.
#[verifier::ext_equal]
pub ghost enum ValueView {
    Integer(i64),
    Decimal(DecimalValue),
    Text(Seq<char>),
    List(Seq<ValueView>),
}

/// A literal value from the query text: an integer, a decimal, a quoted text,
/// or a flat list of such values. Owned by the condition tree once parsed.
#[derive(Debug, PartialEq)]
pub enum Values {
    Integer(i64),
    Decimal(DecimalValue),
    Text(String),
    List(Vec<Values>),
}

impl Values {
    /// The mathematical shape of the value.
    pub open spec fn deep(self) -> ValueView
        decreases self,
    {
        match self {
            Values::Integer(i) => ValueView::Integer(i),
            Values::Decimal(d) => ValueView::Decimal(d),
            Values::Text(s) => ValueView::Text(s@),
            Values::List(l) => ValueView::List(deep_list(l@)),
        }
    }
}

/// The mathematical shapes of a sequence of values.
pub open spec fn deep_list(s: Seq<Values>) -> Seq<ValueView>
    decreases s,
{
    if s.len() == 0 {
        Seq::empty()
    } else {
        seq![s[0].deep()] + deep_list(s.subrange(1, s.len() as int))
    }
}

/// `deep_list` maps each value to its shape, position by position.
pub proof fn lemma_deep_list(s: Seq<Values>)
    ensures
        deep_list(s).len() == s.len(),
        forall|i: int| 0 <= i < s.len() ==> deep_list(s)[i] == s[i].deep(),
    decreases s.len(),
{
    if s.len() > 0 {
        lemma_deep_list(s.subrange(1, s.len() as int));
    }
}

impl View for Values {
    type V = ValueView;

    open spec fn view(&self) -> ValueView {
        self.deep()
    }
}

/// The integer a literal coerces to: an integer itself, or the first entry of
/// a list, recursively; anything else is a type-mismatch error naming the
/// offending value, and an empty list is a distinct error.
pub open spec fn spec_as_integer(v: ValueView) -> Result<i64, ErrorView>
    decreases v,
{
    match v {
        ValueView::Integer(i) => Ok(i),
        ValueView::List(l) => if l.len() == 0 {
            Err(ErrorView::RefValueInEmptyList)
        } else {
            spec_as_integer(l[0])
        },
        _ => Err(ErrorView::NotAnInteger { value: v }),
    }
}

/// The decimal a literal coerces to; mismatches and empty lists as above.
pub open spec fn spec_as_decimal(v: ValueView) -> Result<DecimalValue, ErrorView>
    decreases v,
{
    match v {
        ValueView::Decimal(d) => Ok(d),
        ValueView::List(l) => if l.len() == 0 {
            Err(ErrorView::RefValueInEmptyList)
        } else {
            spec_as_decimal(l[0])
        },
        _ => Err(ErrorView::NotADecimal { value: v }),
    }
}

/// The text a literal coerces to; mismatches and empty lists as above.
pub open spec fn spec_as_text(v: ValueView) -> Result<Seq<char>, ErrorView>
    decreases v,
{
    match v {
        ValueView::Text(s) => Ok(s),
        ValueView::List(l) => if l.len() == 0 {
            Err(ErrorView::RefValueInEmptyList)
        } else {
            spec_as_text(l[0])
        },
        _ => Err(ErrorView::NotAString { value: v }),
    }
}

impl Values {
    /// Coerces the literal to an integer, exactly as `spec_as_integer` says.
    pub fn get_an_integer(&self) -> (r: Result<i64, Error>)
        ensures
            int_result_view(r) == spec_as_integer(self@),
        decreases *self,
    {
        match self {
            Values::Integer(i) => Ok(*i),
            Values::List(l) => if l.len() == 0 {
                Err(Error::RefValueInEmptyList)
            } else {
                proof {
                    assert(decreases_to!(*self => *l));
                    assert(decreases_to!(*l => l@));
                    assert(decreases_to!(l@ => l@[0]));
                }
                l[0].get_an_integer()
            },
            _ => Err(Error::NotAnInteger { value: self.clone() }),
        }
    }

    /// Coerces the literal to a decimal, exactly as `spec_as_decimal` says.
    pub fn get_a_decimal(&self) -> (r: Result<DecimalValue, Error>)
        ensures
            dec_result_view(r) == spec_as_decimal(self@),
        decreases *self,
    {
        match self {
            Values::Decimal(d) => Ok(*d),
            Values::List(l) => if l.len() == 0 {
                Err(Error::RefValueInEmptyList)
            } else {
                proof {
                    assert(decreases_to!(*self => *l));
                    assert(decreases_to!(*l => l@));
                    assert(decreases_to!(l@ => l@[0]));
                }
                l[0].get_a_decimal()
            },
            _ => Err(Error::NotADecimal { value: self.clone() }),
        }
    }

    /// Coerces the literal to a text, exactly as `spec_as_text` says.
    pub fn get_a_string(&self) -> (r: Result<String, Error>)
        ensures
            text_result_view(r) == spec_as_text(self@),
        decreases *self,
    {
        match self {
            Values::Text(s) => Ok(s.clone()),
            Values::List(l) => if l.len() == 0 {
                Err(Error::RefValueInEmptyList)
            } else {
                proof {
                    assert(decreases_to!(*self => *l));
                    assert(decreases_to!(*l => l@));
                    assert(decreases_to!(l@ => l@[0]));
                }
                l[0].get_a_string()
            },
            _ => Err(Error::NotAString { value: self.clone() }),
        }
    }
}

impl Clone for Values {
    /// A deep copy with the same mathematical shape.
    fn clone(&self) -> (r: Self)
        ensures
            r@ == self@,
        decreases *self,
    {
        match self {
            Values::Integer(i) => Values::Integer(*i),
            Values::Decimal(d) => Values::Decimal(*d),
            Values::Text(s) => Values::Text(s.clone()),
            Values::List(l) => {
                let mut out: Vec<Values> = Vec::new();
                let mut k: usize = 0;
                while k < l.len()
                    invariant
                        k <= l.len(),
                        out@.len() == k,
                        *self == Values::List(*l),
                        forall|j: int| 0 <= j < k ==> out@[j]@ == l@[j]@,
                    decreases l.len() - k,
                {
                    proof {
                        assert(decreases_to!(*self => self->List_0));
                        assert(decreases_to!(*l => l@));
                        assert(decreases_to!(l@ => l@[k as int]));
                    }
                    out.push(l[k].clone());
                    k = k + 1;
                }
                proof {
                    lemma_deep_list(out@);
                    lemma_deep_list(l@);
                    assert(deep_list(out@) =~= deep_list(l@));
                }
                Values::List(out)
            },
        }
    }
}

} // verus!
