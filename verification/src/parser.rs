//! The parser: a recursive-descent consumer of the token stream that builds
//! an immutable condition tree, validating field existence, enablement and
//! operator legality against the registry as it binds each condition.
//!
//! Grammar, with `AND` and `OR` left-associative at equal precedence:
//!
//! ```text
//! expression := term ( ("AND"|"OR") term )*
//! term       := "NOT" term | "(" expression ")" | condition
//! condition  := FIELD operator value
//! value      := string | integer | decimal | "{" scalar ("," scalar)* "}"
//! ```

use vstd::prelude::*;
use crate::error::{Error, ErrorView};
use crate::operator::Operator;
use crate::registry::{DescriptorView, Field, FieldRegistry, FieldView, spec_lookup};
use crate::token::{Token, TokenKind, TokenKindView, TokenView, tokens_view, tokens_wf};
use crate::value::{ValueView, Values, deep_list, lemma_deep_list};

verus! {

broadcast use vstd::std_specs::vec::group_vec_axioms;

/// Spec-level shape of a condition tree.
#[verifier::ext_equal]
pub ghost enum ConditionView {
    Leaf { field: FieldView, operator: Operator, value: ValueView },
    And(Box<ConditionView>, Box<ConditionView>),
    Or(Box<ConditionView>, Box<ConditionView>),
    Not(Box<ConditionView>),
    Group(Box<ConditionView>),
}

/// A parsed condition tree: a comparison leaf, a boolean connective over
/// subtrees, or a transparent parenthesised group. Immutable once built; it
/// may be evaluated against many records.
#[derive(Debug, PartialEq)]
pub enum Condition {
    Leaf { field: Field, operator: Operator, value: Values },
    And(Box<Condition>, Box<Condition>),
    Or(Box<Condition>, Box<Condition>),
    Not(Box<Condition>),
    Group(Box<Condition>),
}

impl Condition {
    /// The mathematical shape of the tree.
    pub open spec fn deep(self) -> ConditionView
        decreases self,
    {
        match self {
            Condition::Leaf { field, operator, value } => ConditionView::Leaf {
                field: field@,
                operator: operator,
                value: value@,
            },
            Condition::And(l, r) => ConditionView::And(Box::new((*l).deep()), Box::new((*r).deep())),
            Condition::Or(l, r) => ConditionView::Or(Box::new((*l).deep()), Box::new((*r).deep())),
            Condition::Not(inner) => ConditionView::Not(Box::new((*inner).deep())),
            Condition::Group(inner) => ConditionView::Group(Box::new((*inner).deep())),
        }
    }
}

impl View for Condition {
    type V = ConditionView;

    open spec fn view(&self) -> ConditionView {
        self.deep()
    }
}

/// The position a parse step hands on: its end where it made progress inside
/// the stream, which every step does.
pub open spec fn next_at(toks: Seq<TokenView>, i: int, j: int) -> int {
    if i < j && j <= toks.len() {
        j
    } else if i + 1 <= toks.len() {
        i + 1
    } else {
        toks.len() as int
    }
}

/// One scalar literal: a quoted text, an integer or a decimal. Anything else
/// cannot stand where a value is expected: a bare word asks for a quote or a
/// brace, the end of input leaves the value missing.
pub open spec fn spec_parse_scalar(toks: Seq<TokenView>, i: int) -> Result<(ValueView, int), ErrorView> {
    if i < 0 || i >= toks.len() {
        Err(ErrorView::MissingValue { column: 0 })
    } else {
        match toks[i].kind {
            TokenKindView::Text(s) => Ok((ValueView::Text(s), i + 1)),
            TokenKindView::Integer(n) => Ok((ValueView::Integer(n), i + 1)),
            TokenKindView::Decimal(d) => Ok((ValueView::Decimal(d), i + 1)),
            TokenKindView::End => Err(ErrorView::MissingValue { column: toks[i].column }),
            TokenKindView::Field(_) => Err(ErrorView::ShouldOpenBraceOrQuote { column: toks[i].column }),
            _ => Err(ErrorView::ShouldValueHere { column: toks[i].column }),
        }
    }
}

/// The remaining entries of a list literal after `acc`: a closing brace ends
/// it, a comma asks for one more scalar, anything else leaves the brace
/// unclosed.
pub open spec fn spec_parse_list_items(
    toks: Seq<TokenView>,
    i: int,
    acc: Seq<ValueView>,
) -> Result<(Seq<ValueView>, int), ErrorView>
    decreases toks.len() - i,
{
    if i < 0 || i >= toks.len() {
        Err(ErrorView::ShouldCloseBraceHere { column: 0 })
    } else {
        match toks[i].kind {
            TokenKindView::CloseBrace => Ok((acc, i + 1)),
            TokenKindView::Comma => match spec_parse_scalar(toks, i + 1) {
                Ok((v, j)) => spec_parse_list_items(toks, next_at(toks, i + 1, j), acc.push(v)),
                Err(e) => Err(e),
            },
            _ => Err(ErrorView::ShouldCloseBraceHere { column: toks[i].column }),
        }
    }
}

/// One value: a scalar, or a braced, comma-separated, non-empty flat list of
/// scalars. The end of input right after the operator leaves the field
/// without its value.
pub open spec fn spec_parse_value(
    toks: Seq<TokenView>,
    i: int,
    fv: FieldView,
) -> Result<(ValueView, int), ErrorView> {
    if i < 0 || i >= toks.len() {
        Err(ErrorView::FieldRequireValue { field: fv })
    } else {
        match toks[i].kind {
            TokenKindView::End => Err(ErrorView::FieldRequireValue { field: fv }),
            TokenKindView::OpenBrace => match spec_parse_scalar(toks, i + 1) {
                Ok((v, j)) => match spec_parse_list_items(toks, next_at(toks, i + 1, j), seq![v]) {
                    Ok((items, k)) => Ok((ValueView::List(items), k)),
                    Err(e) => Err(e),
                },
                Err(e) => Err(e),
            },
            _ => spec_parse_scalar(toks, i),
        }
    }
}

/// One condition: a field that must exist in the registry and be enabled, an
/// operator that must follow and stand in the field's enabled-operator set,
/// and a value.
pub open spec fn spec_parse_condition(
    toks: Seq<TokenView>,
    reg: Seq<DescriptorView>,
    i: int,
) -> Result<(ConditionView, int), ErrorView>
    decreases toks.len() - i, 0int,
{
    if i < 0 || i + 1 >= toks.len() {
        Err(ErrorView::MissingCondition { column: 0 })
    } else {
        match toks[i].kind {
            TokenKindView::Field(name) => match spec_lookup(reg, name) {
                None => Err(ErrorView::UnknownField { field: name }),
                Some(d) => {
                    let fv = FieldView { name: name, kind: d.kind, content_length: d.content_length };
                    if !d.enabled {
                        Err(ErrorView::FieldNotEndabled { field: fv })
                    } else {
                        match toks[i + 1].kind {
                            TokenKindView::Operator(op) => if d.operators.contains(op) {
                                match spec_parse_value(toks, i + 2, fv) {
                                    Ok((v, j)) => Ok((
                                        ConditionView::Leaf { field: fv, operator: op, value: v },
                                        j,
                                    )),
                                    Err(e) => Err(e),
                                }
                            } else {
                                Err(ErrorView::UnsupportedOperator { field: fv, operator: op })
                            },
                            _ => Err(ErrorView::FieldRequireOperator { field: fv }),
                        }
                    }
                },
            },
            _ => Err(ErrorView::MissingCondition { column: toks[i].column }),
        }
    }
}

/// One term: `NOT` applied to a term, a parenthesised expression that must
/// close, or a condition. The end of input where a term should start is a
/// missing condition; any other token there should have been a parenthesis.
pub open spec fn spec_parse_term(
    toks: Seq<TokenView>,
    reg: Seq<DescriptorView>,
    i: int,
) -> Result<(ConditionView, int), ErrorView>
    decreases toks.len() - i, 2int,
{
    if i < 0 || i >= toks.len() {
        Err(ErrorView::MissingCondition { column: 0 })
    } else {
        match toks[i].kind {
            TokenKindView::Not => match spec_parse_term(toks, reg, i + 1) {
                Ok((c, j)) => Ok((ConditionView::Not(Box::new(c)), j)),
                Err(e) => Err(e),
            },
            TokenKindView::OpenParen => match spec_parse_expression(toks, reg, i + 1) {
                Ok((c, j)) => if 0 <= j < toks.len() && toks[j].kind is CloseParen {
                    Ok((ConditionView::Group(Box::new(c)), j + 1))
                } else if 0 <= j < toks.len() {
                    Err(ErrorView::ShouldCloseParenthesisHere { column: toks[j].column })
                } else {
                    Err(ErrorView::ShouldCloseParenthesisHere { column: 0 })
                },
                Err(e) => Err(e),
            },
            TokenKindView::Field(_) => spec_parse_condition(toks, reg, i),
            TokenKindView::End => Err(ErrorView::MissingCondition { column: toks[i].column }),
            _ => Err(ErrorView::ShouldOpenParenthesisHere { column: toks[i].column }),
        }
    }
}

/// The connective tail of an expression: each `AND` or `OR` takes the tree
/// built so far as its left operand and the next term as its right one, so
/// the two connectives are left-associative at equal precedence.
pub open spec fn spec_parse_exprs(
    toks: Seq<TokenView>,
    reg: Seq<DescriptorView>,
    i: int,
    left: ConditionView,
) -> Result<(ConditionView, int), ErrorView>
    decreases toks.len() - i, 1int,
{
    if i < 0 || i >= toks.len() {
        Ok((left, i))
    } else {
        match toks[i].kind {
            TokenKindView::And => match spec_parse_term(toks, reg, i + 1) {
                Ok((rhs, j)) => spec_parse_exprs(
                    toks,
                    reg,
                    next_at(toks, i + 1, j),
                    ConditionView::And(Box::new(left), Box::new(rhs)),
                ),
                Err(e) => Err(e),
            },
            TokenKindView::Or => match spec_parse_term(toks, reg, i + 1) {
                Ok((rhs, j)) => spec_parse_exprs(
                    toks,
                    reg,
                    next_at(toks, i + 1, j),
                    ConditionView::Or(Box::new(left), Box::new(rhs)),
                ),
                Err(e) => Err(e),
            },
            _ => Ok((left, i)),
        }
    }
}

/// One expression: a term followed by its connective tail.
pub open spec fn spec_parse_expression(
    toks: Seq<TokenView>,
    reg: Seq<DescriptorView>,
    i: int,
) -> Result<(ConditionView, int), ErrorView>
    decreases toks.len() - i, 3int,
{
    if i < 0 || i >= toks.len() {
        Err(ErrorView::MissingCondition { column: 0 })
    } else {
        match spec_parse_term(toks, reg, i) {
            Ok((c, j)) => spec_parse_exprs(toks, reg, next_at(toks, i, j), c),
            Err(e) => Err(e),
        }
    }
}

/// The whole stream as one expression; anything left before the sentinel is
/// trailing input, anchored at its column.
pub open spec fn spec_parse(
    toks: Seq<TokenView>,
    reg: Seq<DescriptorView>,
) -> Result<ConditionView, ErrorView> {
    match spec_parse_expression(toks, reg, 0) {
        Ok((c, j)) => if 0 <= j < toks.len() && toks[j].kind is End {
            Ok(c)
        } else if 0 <= j < toks.len() {
            Err(ErrorView::ShouldEndHere { column: toks[j].column })
        } else {
            Err(ErrorView::ShouldEndHere { column: 0 })
        },
        Err(e) => Err(e),
    }
}

/// True when the operator set carries `op`.
fn contains_op(ops: &Vec<Operator>, op: Operator) -> (r: bool)
    ensures
        r == ops@.contains(op),
{
    let mut k: usize = 0;
    while k < ops.len()
        invariant
            k <= ops@.len(),
            forall|m: int| 0 <= m < k ==> ops@[m] != op,
        decreases ops@.len() - k,
    {
        if ops[k] == op {
            return true;
        }
        k = k + 1;
    }
    false
}

fn parse_scalar(toks: &Vec<Token>, i: usize) -> (r: Result<(Values, usize), Error>)
    requires
        tokens_wf(tokens_view(toks@)),
        i < toks@.len(),
    ensures
        match r {
            Ok((v, j)) => spec_parse_scalar(tokens_view(toks@), i as int)
                == Ok::<(ValueView, int), ErrorView>((v@, j as int)) && i < j < toks@.len(),
            Err(e) => spec_parse_scalar(tokens_view(toks@), i as int)
                == Err::<(ValueView, int), ErrorView>(e@),
        },
{
    let ghost tv = tokens_view(toks@);
    proof {
        assert(toks.len() == toks@.len());
        assert(tv[i as int] == toks@[i as int]@);
    }
    match &toks[i].kind {
        TokenKind::Text(s) => Ok((Values::Text(s.clone()), i + 1)),
        TokenKind::Integer(n) => Ok((Values::Integer(*n), i + 1)),
        TokenKind::Decimal(d) => Ok((Values::Decimal(*d), i + 1)),
        TokenKind::End => Err(Error::MissingValue { column: toks[i].column }),
        TokenKind::Field(_) => Err(Error::ShouldOpenBraceOrQuote { column: toks[i].column }),
        _ => Err(Error::ShouldValueHere { column: toks[i].column }),
    }
}

fn parse_value(toks: &Vec<Token>, i: usize, field: &Field) -> (r: Result<(Values, usize), Error>)
    requires
        tokens_wf(tokens_view(toks@)),
        i < toks@.len(),
    ensures
        match r {
            Ok((v, j)) => spec_parse_value(tokens_view(toks@), i as int, field@)
                == Ok::<(ValueView, int), ErrorView>((v@, j as int)) && i < j < toks@.len(),
            Err(e) => spec_parse_value(tokens_view(toks@), i as int, field@)
                == Err::<(ValueView, int), ErrorView>(e@),
        },
{
    let ghost tv = tokens_view(toks@);
    proof {
        assert(toks.len() == toks@.len());
        assert(tv[i as int] == toks@[i as int]@);
    }
    match &toks[i].kind {
        TokenKind::End => Err(Error::FieldRequireValue { field: field.clone() }),
        TokenKind::OpenBrace => {
            proof {
                assert(tv[i as int].kind == TokenKindView::OpenBrace);
            }
            match parse_scalar(toks, i + 1) {
                Ok((first, j0)) => {
                    let ghost start_acc = seq![first@];
                    let mut items: Vec<Values> = Vec::new();
                    items.push(first);
                    proof {
                        lemma_deep_list(items@);
                        assert(deep_list(items@) =~= start_acc);
                        assert(next_at(tv, i as int + 1, j0 as int) == j0 as int);
                    }
                    let mut k = j0;
                    loop
                        invariant
                            tokens_wf(tv),
                            tv == tokens_view(toks@),
                            i < k < toks@.len(),
                            spec_parse_value(tv, i as int, field@) == (
                            match spec_parse_list_items(tv, k as int, deep_list(items@)) {
                                Ok((items2, k2)) => Ok::<(ValueView, int), ErrorView>((
                                    ValueView::List(items2),
                                    k2,
                                )),
                                Err(e) => Err::<(ValueView, int), ErrorView>(e),
                            }),
                        decreases toks@.len() - k,
                    {
                        proof {
                            assert(toks.len() == toks@.len());
                            assert(tv[k as int] == toks@[k as int]@);
                        }
                        match &toks[k].kind {
                            TokenKind::CloseBrace => {
                                proof {
                                    assert(tv[k as int].kind is CloseBrace);
                                    assert(k as int != tv.len() - 1);
                                    assert(spec_parse_list_items(tv, k as int, deep_list(items@))
                                        == Ok::<(Seq<ValueView>, int), ErrorView>((
                                        deep_list(items@),
                                        k as int + 1,
                                    )));
                                    assert((Values::List(items))@ == ValueView::List(deep_list(
                                        items@,
                                    )));
                                }
                                return Ok((Values::List(items), k + 1));
                            },
                            TokenKind::Comma => {
                                proof {
                                    assert(tv[k as int].kind == TokenKindView::Comma);
                                }
                                match parse_scalar(toks, k + 1) {
                                    Ok((v2, j2)) => {
                                        let ghost old_items = items@;
                                        items.push(v2);
                                        proof {
                                            lemma_deep_list(old_items);
                                            lemma_deep_list(items@);
                                            assert(deep_list(items@) =~= deep_list(old_items).push(
                                                v2@,
                                            ));
                                            assert(next_at(tv, k as int + 1, j2 as int)
                                                == j2 as int);
                                        }
                                        k = j2;
                                    },
                                    Err(e) => {
                                        return Err(e);
                                    },
                                }
                            },
                            _ => {
                                return Err(
                                    Error::ShouldCloseBraceHere { column: toks[k].column },
                                );
                            },
                        }
                    }
                },
                Err(e) => Err(e),
            }
        },
        _ => parse_scalar(toks, i),
    }
}

fn parse_term(toks: &Vec<Token>, reg: &FieldRegistry, i: usize) -> (r: Result<(Condition, usize), Error>)
    requires
        tokens_wf(tokens_view(toks@)),
        i < toks@.len(),
    ensures
        match r {
            Ok((c, j)) => spec_parse_term(tokens_view(toks@), reg@, i as int)
                == Ok::<(ConditionView, int), ErrorView>((c@, j as int)) && i < j < toks@.len(),
            Err(e) => spec_parse_term(tokens_view(toks@), reg@, i as int)
                == Err::<(ConditionView, int), ErrorView>(e@),
        },
    decreases toks@.len() - i, 2int,
{
    let ghost tv = tokens_view(toks@);
    proof {
        assert(toks.len() == toks@.len());
        assert(tv[i as int] == toks@[i as int]@);
    }
    match &toks[i].kind {
        TokenKind::Not => {
            proof {
                assert(tv[i as int].kind == TokenKindView::Not);
            }
            match parse_term(toks, reg, i + 1) {
                Ok((c, j)) => Ok((Condition::Not(Box::new(c)), j)),
                Err(e) => Err(e),
            }
        },
        TokenKind::OpenParen => {
            proof {
                assert(tv[i as int].kind == TokenKindView::OpenParen);
            }
            match parse_expression(toks, reg, i + 1) {
                Ok((c, j)) => {
                    proof {
                        assert(tv[j as int] == toks@[j as int]@);
                    }
                    match &toks[j].kind {
                        TokenKind::CloseParen => Ok((Condition::Group(Box::new(c)), j + 1)),
                        _ => Err(Error::ShouldCloseParenthesisHere { column: toks[j].column }),
                    }
                },
                Err(e) => Err(e),
            }
        },
        TokenKind::Field(name) => {
            proof {
                assert(tv[i as int].kind == TokenKindView::Field(name@));
                assert(tv[i as int + 1] == toks@[i as int + 1]@);
            }
            let fname: String = name.clone();
            match reg.lookup(fname.as_str()) {
                None => Err(Error::UnknownField { field: fname }),
                Some(d) => {
                    let field = Field {
                        name: fname,
                        kind: d.kind,
                        content_length: d.content_length,
                    };
                    if !d.enabled {
                        Err(Error::FieldNotEndabled { field })
                    } else {
                        match &toks[i + 1].kind {
                            TokenKind::Operator(op) => {
                                let op = *op;
                                if contains_op(&d.operators, op) {
                                    match parse_value(toks, i + 2, &field) {
                                        Ok((v, j)) => Ok((
                                            Condition::Leaf { field, operator: op, value: v },
                                            j,
                                        )),
                                        Err(e) => Err(e),
                                    }
                                } else {
                                    Err(Error::UnsupportedOperator { field, operator: op })
                                }
                            },
                            _ => Err(Error::FieldRequireOperator { field }),
                        }
                    }
                },
            }
        },
        TokenKind::End => Err(Error::MissingCondition { column: toks[i].column }),
        _ => Err(Error::ShouldOpenParenthesisHere { column: toks[i].column }),
    }
}

fn parse_exprs(
    toks: &Vec<Token>,
    reg: &FieldRegistry,
    i: usize,
    left: Condition,
) -> (r: Result<(Condition, usize), Error>)
    requires
        tokens_wf(tokens_view(toks@)),
        i < toks@.len(),
    ensures
        match r {
            Ok((c, j)) => spec_parse_exprs(tokens_view(toks@), reg@, i as int, left@)
                == Ok::<(ConditionView, int), ErrorView>((c@, j as int)) && i <= j < toks@.len(),
            Err(e) => spec_parse_exprs(tokens_view(toks@), reg@, i as int, left@)
                == Err::<(ConditionView, int), ErrorView>(e@),
        },
    decreases toks@.len() - i, 1int,
{
    let ghost tv = tokens_view(toks@);
    proof {
        assert(toks.len() == toks@.len());
        assert(tv[i as int] == toks@[i as int]@);
    }
    match &toks[i].kind {
        TokenKind::And => {
            proof {
                assert(tv[i as int].kind == TokenKindView::And);
            }
            match parse_term(toks, reg, i + 1) {
                Ok((rhs, j)) => {
                    proof {
                        assert(next_at(tv, i as int + 1, j as int) == j as int);
                    }
                    parse_exprs(toks, reg, j, Condition::And(Box::new(left), Box::new(rhs)))
                },
                Err(e) => Err(e),
            }
        },
        TokenKind::Or => {
            proof {
                assert(tv[i as int].kind == TokenKindView::Or);
            }
            match parse_term(toks, reg, i + 1) {
                Ok((rhs, j)) => {
                    proof {
                        assert(next_at(tv, i as int + 1, j as int) == j as int);
                    }
                    parse_exprs(toks, reg, j, Condition::Or(Box::new(left), Box::new(rhs)))
                },
                Err(e) => Err(e),
            }
        },
        _ => Ok((left, i)),
    }
}

fn parse_expression(
    toks: &Vec<Token>,
    reg: &FieldRegistry,
    i: usize,
) -> (r: Result<(Condition, usize), Error>)
    requires
        tokens_wf(tokens_view(toks@)),
        i < toks@.len(),
    ensures
        match r {
            Ok((c, j)) => spec_parse_expression(tokens_view(toks@), reg@, i as int)
                == Ok::<(ConditionView, int), ErrorView>((c@, j as int)) && i < j < toks@.len(),
            Err(e) => spec_parse_expression(tokens_view(toks@), reg@, i as int)
                == Err::<(ConditionView, int), ErrorView>(e@),
        },
    decreases toks@.len() - i, 3int,
{
    let ghost tv = tokens_view(toks@);
    proof {
        assert(toks.len() == toks@.len());
    }
    match parse_term(toks, reg, i) {
        Ok((c, j)) => {
            proof {
                assert(next_at(tv, i as int, j as int) == j as int);
            }
            parse_exprs(toks, reg, j, c)
        },
        Err(e) => Err(e),
    }
}

/// Parses a well-formed token stream into a condition tree, consulting the
/// registry, exactly as `spec_parse` says.
pub fn parse(tokens: &Vec<Token>, registry: &FieldRegistry) -> (r: Result<Condition, Error>)
    requires
        tokens_wf(tokens_view(tokens@)),
    ensures
        match r {
            Ok(c) => spec_parse(tokens_view(tokens@), registry@) == Ok::<ConditionView, ErrorView>(c@),
            Err(e) => spec_parse(tokens_view(tokens@), registry@) == Err::<ConditionView, ErrorView>(
                e@,
            ),
        },
{
    let ghost tv = tokens_view(tokens@);
    match parse_expression(tokens, registry, 0) {
        Ok((c, j)) => {
            proof {
                assert(tv[j as int] == tokens@[j as int]@);
            }
            match &tokens[j].kind {
                TokenKind::End => Ok(c),
                _ => Err(Error::ShouldEndHere { column: tokens[j].column }),
            }
        },
        Err(e) => Err(e),
    }
}

} // verus!
