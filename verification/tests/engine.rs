use filter_expr::error::Error;
use filter_expr::lexer::tokenize;
use filter_expr::token::TokenKind;
use filter_expr::matcher::{evaluate, NativeValue, Record, RecordEntry};
use filter_expr::operator::le::{LeOperator, LeOperatorForContentLen};
use filter_expr::operator::Operator;
use filter_expr::parse_query;
use filter_expr::parser::Condition;
use filter_expr::registry::{Field, FieldDescriptor, FieldKind, FieldRegistry};
use filter_expr::value::{DecimalValue, Values};

fn all_relational() -> Vec<Operator> {
    vec![
        Operator::Le,
        Operator::Lt,
        Operator::Ge,
        Operator::Gt,
        Operator::Equal,
        Operator::NotEqual,
    ]
}

fn descriptor(name: &str, kind: FieldKind, enabled: bool, content_length: bool, operators: Vec<Operator>) -> FieldDescriptor {
    FieldDescriptor {
        name: name.to_string(),
        kind,
        enabled,
        content_length,
        operators,
    }
}

fn registry() -> FieldRegistry {
    FieldRegistry {
        fields: vec![
            descriptor("age", FieldKind::Int64, true, false, all_relational()),
            descriptor("level", FieldKind::Int32, true, false, all_relational()),
            descriptor("bonus", FieldKind::OptionalInt32, true, false, all_relational()),
            descriptor("price", FieldKind::Decimal64, true, false, all_relational()),
            descriptor("name", FieldKind::Text, true, true, vec![Operator::Le]),
            descriptor("nick", FieldKind::OptionalText, true, true, vec![Operator::Le]),
            descriptor("secret", FieldKind::Int64, false, false, all_relational()),
            descriptor("a", FieldKind::Int64, true, false, all_relational()),
            descriptor("b", FieldKind::Int64, true, false, all_relational()),
            descriptor("c", FieldKind::Int64, true, false, all_relational()),
        ],
    }
}

fn entry(name: &str, value: NativeValue) -> RecordEntry {
    RecordEntry { name: name.to_string(), value }
}

fn record() -> Record {
    Record {
        entries: vec![
            entry("age", NativeValue::Int64(25)),
            entry("level", NativeValue::Int32(3)),
            entry("bonus", NativeValue::OptionalInt32(None)),
            entry("price", NativeValue::Decimal64(DecimalValue { units: 2, nanos: 500_000_000 })),
            entry("name", NativeValue::Text("hello".to_string())),
            entry("nick", NativeValue::OptionalText(None)),
            entry("secret", NativeValue::Int64(1)),
            entry("a", NativeValue::Int64(0)),
            entry("b", NativeValue::Int64(1)),
            entry("c", NativeValue::Int64(1)),
        ],
    }
}

fn run(query: &str) -> Result<bool, Error> {
    let reg = registry();
    let cond = parse_query(query, &reg).expect("query should parse");
    evaluate(&cond, &record())
}

#[test]
fn int64_le_matches_iff_value_le_target() {
    assert_eq!(run("age <= 30"), Ok(true));
    assert_eq!(run("age <= 25"), Ok(true));
    assert_eq!(run("age <= 24"), Ok(false));
}

#[test]
fn int64_other_operators_exact() {
    assert_eq!(run("age < 25"), Ok(false));
    assert_eq!(run("age < 26"), Ok(true));
    assert_eq!(run("age >= 25"), Ok(true));
    assert_eq!(run("age > 25"), Ok(false));
    assert_eq!(run("age = 25"), Ok(true));
    assert_eq!(run("age != 25"), Ok(false));
    assert_eq!(run("age != 24"), Ok(true));
}

#[test]
fn int32_comparison() {
    assert_eq!(run("level <= 3"), Ok(true));
    assert_eq!(run("level <= 2"), Ok(false));
}

#[test]
fn absent_optional_int_is_false_never_error() {
    assert_eq!(run("bonus <= 5"), Ok(false));
    assert_eq!(run("bonus <= 1000000"), Ok(false));
    assert_eq!(run("bonus <= 0"), Ok(false));
    assert_eq!(run("bonus != 5"), Ok(false));
}

#[test]
fn present_optional_int_compares() {
    let reg = registry();
    let cond = parse_query("bonus <= 5", &reg).unwrap();
    let rec = Record { entries: vec![entry("bonus", NativeValue::OptionalInt32(Some(3)))] };
    assert_eq!(evaluate(&cond, &rec), Ok(true));
    let rec = Record { entries: vec![entry("bonus", NativeValue::OptionalInt32(Some(9)))] };
    assert_eq!(evaluate(&cond, &rec), Ok(false));
}

#[test]
fn content_length_hello_le_5_matches_le_4_does_not() {
    assert_eq!(run("name <= 5"), Ok(true));
    assert_eq!(run("name <= 4"), Ok(false));
}

#[test]
fn content_length_counts_characters_not_bytes() {
    let reg = registry();
    let cond = parse_query("name <= 5", &reg).unwrap();
    let rec = Record { entries: vec![entry("name", NativeValue::Text("h\u{e9}llo".to_string()))] };
    assert_eq!(evaluate(&cond, &rec), Ok(true));
}

#[test]
fn absent_optional_text_is_false() {
    assert_eq!(run("nick <= 100"), Ok(false));
}

#[test]
fn parentheses_change_parse_structure() {
    // A=false, B=true, C=true: the two groupings must disagree.
    assert_eq!(run("a = 1 AND (b = 1 OR c = 1)"), Ok(false));
    assert_eq!(run("(a = 1 AND b = 1) OR c = 1"), Ok(true));
}

#[test]
fn unknown_field_names_the_identifier() {
    let reg = registry();
    let r = parse_query("ghost <= 1", &reg);
    assert_eq!(r, Err(Error::UnknownField { field: "ghost".to_string() }));
}

#[test]
fn missing_close_paren_is_anchored_after_last_token() {
    let reg = registry();
    let r = parse_query("(age = 1", &reg);
    assert_eq!(r, Err(Error::ShouldCloseParenthesisHere { column: 9 }));
}

#[test]
fn text_literal_against_integer_operator_is_not_an_integer() {
    let r = run("age <= \"abc\"");
    assert_eq!(r, Err(Error::NotAnInteger { value: Values::Text("abc".to_string()) }));
}

#[test]
fn disabled_field_is_rejected_even_though_it_resolves() {
    let reg = registry();
    let r = parse_query("secret <= 1", &reg);
    match r {
        Err(Error::FieldNotEndabled { field }) => assert_eq!(field.name, "secret"),
        other => panic!("expected a field-not-enabled error, got {:?}", other),
    }
}

#[test]
fn operator_outside_enabled_set_names_field_and_operator() {
    let reg = registry();
    let r = parse_query("name ~ 1", &reg);
    match r {
        Err(Error::UnsupportedOperator { field, operator }) => {
            assert_eq!(field.name, "name");
            assert_eq!(operator, Operator::Regex);
        },
        other => panic!("expected an unsupported-operator error, got {:?}", other),
    }
}

#[test]
fn evaluation_is_idempotent_on_the_same_tree_and_record() {
    let reg = registry();
    let cond = parse_query("age <= 30 AND name <= 5", &reg).unwrap();
    let rec = record();
    let first = evaluate(&cond, &rec);
    let second = evaluate(&cond, &rec);
    assert_eq!(first, second);
    assert_eq!(first, Ok(true));
}

#[test]
fn and_or_are_left_associative_without_precedence() {
    // a OR b AND c reads (a OR b) AND c: true AND false here.
    assert_eq!(run("a = 0 OR b = 1 AND c = 2"), Ok(false));
    assert_eq!(run("a = 0 OR (b = 1 AND c = 2)"), Ok(true));
}

#[test]
fn not_binds_the_following_term() {
    assert_eq!(run("NOT a = 1"), Ok(true));
    assert_eq!(run("NOT a = 0"), Ok(false));
    assert_eq!(run("NOT (a = 0 AND b = 1)"), Ok(false));
    assert_eq!(run("NOT a = 0 AND b = 1"), Ok(false));
}

#[test]
fn decimal_comparison_is_numeric() {
    assert_eq!(run("price <= 2.5"), Ok(true));
    assert_eq!(run("price <= 2.49"), Ok(false));
    assert_eq!(run("price = 2.50"), Ok(true));
    assert_eq!(run("price < 2.51"), Ok(true));
}

#[test]
fn list_literal_compares_through_its_first_entry() {
    assert_eq!(run("age <= {30, 1}"), Ok(true));
    assert_eq!(run("age <= {24, 100}"), Ok(false));
}

#[test]
fn empty_list_accessor_is_a_distinct_error() {
    let v = Values::List(vec![]);
    assert_eq!(v.get_an_integer(), Err(Error::RefValueInEmptyList));
    assert_eq!(v.get_a_decimal(), Err(Error::RefValueInEmptyList));
    assert_eq!(v.get_a_string(), Err(Error::RefValueInEmptyList));
}

#[test]
fn coercion_accessors_name_the_offending_value() {
    let v = Values::Integer(7);
    assert_eq!(v.get_a_string(), Err(Error::NotAString { value: Values::Integer(7) }));
    assert_eq!(v.get_a_decimal(), Err(Error::NotADecimal { value: Values::Integer(7) }));
    assert_eq!(Values::Text("x".to_string()).get_an_integer(), Err(Error::NotAnInteger {
        value: Values::Text("x".to_string()),
    }));
    assert_eq!(Values::Integer(7).get_an_integer(), Ok(7));
}

#[test]
fn le_operator_trait_on_integers() {
    assert_eq!(10i64.le_ope(&Values::Integer(10)), Ok(true));
    assert_eq!(11i64.le_ope(&Values::Integer(10)), Ok(false));
    assert_eq!(9i32.le_ope(&Values::Integer(10)), Ok(true));
    assert_eq!(Some(9i32).le_ope(&Values::Integer(8)), Ok(false));
    assert_eq!(None::<i32>.le_ope(&Values::Integer(8)), Ok(false));
}

#[test]
fn le_operator_trait_on_decimal_and_text() {
    let a = DecimalValue { units: 1, nanos: 250_000_000 };
    let b = Values::Decimal(DecimalValue { units: 1, nanos: 300_000_000 });
    assert_eq!(a.le_ope(&b), Ok(true));
    assert_eq!("hello".to_string().le_ope_for_content_len(&Values::Integer(5)), Ok(true));
    assert_eq!("hello".to_string().le_ope_for_content_len(&Values::Integer(4)), Ok(false));
    assert_eq!(Some("hello".to_string()).le_ope_for_content_len(&Values::Integer(1)), Ok(false));
    assert_eq!(None::<String>.le_ope_for_content_len(&Values::Integer(1)), Ok(false));
}

#[test]
fn unknown_operator_carries_the_raw_text() {
    let reg = registry();
    assert_eq!(
        parse_query("age <> 1", &reg),
        Err(Error::UnknownOperator { operator: "<>".to_string() })
    );
    assert_eq!(
        parse_query("age @ 1", &reg),
        Err(Error::UnknownOperator { operator: "@".to_string() })
    );
}

#[test]
fn missing_quote_is_anchored_at_the_opening_quote() {
    let reg = registry();
    assert_eq!(
        parse_query("name <= \"abc", &reg),
        Err(Error::MissingQuote { column: 9 })
    );
}

#[test]
fn trailing_input_should_end_there() {
    let reg = registry();
    assert_eq!(
        parse_query("age <= 1 age", &reg),
        Err(Error::ShouldEndHere { column: 10 })
    );
}

#[test]
fn connective_without_operand_is_a_missing_condition() {
    let reg = registry();
    assert_eq!(
        parse_query("age <= 1 AND", &reg),
        Err(Error::MissingCondition { column: 13 })
    );
    assert_eq!(parse_query("", &reg), Err(Error::MissingCondition { column: 1 }));
}

#[test]
fn field_requires_operator_and_value() {
    let reg = registry();
    match parse_query("age 5", &reg) {
        Err(Error::FieldRequireOperator { field }) => assert_eq!(field.name, "age"),
        other => panic!("expected a field-requires-operator error, got {:?}", other),
    }
    match parse_query("age <=", &reg) {
        Err(Error::FieldRequireValue { field }) => assert_eq!(field.name, "age"),
        other => panic!("expected a field-requires-value error, got {:?}", other),
    }
}

#[test]
fn value_position_errors() {
    let reg = registry();
    assert_eq!(
        parse_query("age <= (", &reg),
        Err(Error::ShouldValueHere { column: 8 })
    );
    assert_eq!(
        parse_query("age <= abc", &reg),
        Err(Error::ShouldOpenBraceOrQuote { column: 8 })
    );
    assert_eq!(
        parse_query("age <= {}", &reg),
        Err(Error::ShouldValueHere { column: 9 })
    );
    assert_eq!(
        parse_query("age <= {1, 2", &reg),
        Err(Error::ShouldCloseBraceHere { column: 13 })
    );
}

#[test]
fn term_position_errors() {
    let reg = registry();
    assert_eq!(
        parse_query("AND age <= 1", &reg),
        Err(Error::ShouldOpenParenthesisHere { column: 1 })
    );
}

#[test]
fn numeric_literal_errors_are_anchored_at_their_start() {
    let reg = registry();
    assert_eq!(
        parse_query("age <= 1234567890123456789", &reg),
        Err(Error::IntegerParseFailed { column: 8 })
    );
    assert_eq!(
        parse_query("price <= 1.2.3", &reg),
        Err(Error::DecimalParseFailed { column: 10 })
    );
    assert_eq!(
        parse_query("price <= 1.", &reg),
        Err(Error::DecimalParseFailed { column: 10 })
    );
    assert_eq!(
        parse_query("price <= 1.1234567890", &reg),
        Err(Error::DecimalParseFailed { column: 10 })
    );
}

#[test]
fn decimal_literal_is_read_as_units_and_billionths() {
    let reg = registry();
    let cond = parse_query("price = 2.50", &reg).unwrap();
    match cond {
        Condition::Leaf { value, .. } => {
            assert_eq!(value, Values::Decimal(DecimalValue { units: 2, nanos: 500_000_000 }));
        },
        other => panic!("expected a leaf, got {:?}", other),
    }
}

#[test]
fn groups_are_transparent_in_evaluation() {
    assert_eq!(run("(age <= 30)"), Ok(true));
    assert_eq!(run("((age <= 30))"), Ok(true));
}

#[test]
fn record_without_the_field_is_an_unknown_field_at_evaluation() {
    let reg = registry();
    let cond = parse_query("age <= 1", &reg).unwrap();
    let rec = Record { entries: vec![] };
    assert_eq!(
        evaluate(&cond, &rec),
        Err(Error::UnknownField { field: "age".to_string() })
    );
}

#[test]
fn field_lookup_ignores_later_duplicates() {
    let reg = registry();
    let cond = parse_query("age <= 10", &reg).unwrap();
    let rec = Record {
        entries: vec![
            entry("age", NativeValue::Int64(5)),
            entry("age", NativeValue::Int64(50)),
        ],
    };
    assert_eq!(evaluate(&cond, &rec), Ok(true));
}

#[test]
fn keywords_need_exact_spelling() {
    let reg = registry();
    // `and` in lower case is an identifier, hence an unknown field.
    assert_eq!(
        parse_query("age <= 1 and age <= 2", &reg),
        Err(Error::ShouldEndHere { column: 10 })
    );
}

#[test]
fn field_clone_copies_the_field() {
    let f = Field { name: "age".to_string(), kind: FieldKind::Int64, content_length: false };
    assert_eq!(f.clone(), f);
}

#[test]
fn input_ending_inside_a_list_is_a_missing_value() {
    let reg = registry();
    assert_eq!(
        parse_query("age <= {1,", &reg),
        Err(Error::MissingValue { column: 11 })
    );
}

#[test]
fn integer_literal_against_decimal_field_is_not_a_decimal() {
    assert_eq!(
        run("price <= 5"),
        Err(Error::NotADecimal { value: Values::Integer(5) })
    );
}

#[test]
fn tokens_carry_one_based_columns() {
    let toks = tokenize("age <= 10").unwrap();
    assert_eq!(toks.len(), 4);
    assert_eq!(toks[0].kind, TokenKind::Field("age".to_string()));
    assert_eq!(toks[0].column, 1);
    assert_eq!(toks[1].kind, TokenKind::Operator(Operator::Le));
    assert_eq!(toks[1].column, 5);
    assert_eq!(toks[2].kind, TokenKind::Integer(10));
    assert_eq!(toks[2].column, 8);
    assert_eq!(toks[3].kind, TokenKind::End);
    assert_eq!(toks[3].column, 10);
}

#[test]
fn quoted_text_token_drops_its_quotes() {
    let toks = tokenize("\"ab c\"").unwrap();
    assert_eq!(toks[0].kind, TokenKind::Text("ab c".to_string()));
    assert_eq!(toks[0].column, 1);
}
