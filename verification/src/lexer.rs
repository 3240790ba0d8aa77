//! The lexer: scans the query text left to right into positioned tokens.
//! Every token's column is the 1-based offset of its first character, and a
//! sentinel `End` token closes the stream so the parser never indexes past it.

use vstd::prelude::*;
use vstd::string::StrSliceExecFns;
use crate::error::{Error, ErrorView};
use crate::operator::Operator;
use crate::token::{Token, TokenKind, TokenKindView, TokenView, tokens_view, tokens_wf};
use crate::value::DecimalValue;

verus! {

/// Insignificant whitespace between tokens.
pub open spec fn is_space(c: char) -> bool {
    c == ' ' || c == '\t' || c == '\r' || c == '\n'
}

/// A decimal digit.
pub open spec fn is_digit(c: char) -> bool {
    48 <= c as u32 && c as u32 <= 57
}

/// What may open an identifier: a letter or an underscore.
pub open spec fn is_ident_start(c: char) -> bool {
    (97 <= c as u32 && c as u32 <= 122) || (65 <= c as u32 && c as u32 <= 90) || c == '_'
}

/// What may continue an identifier.
pub open spec fn is_ident_char(c: char) -> bool {
    is_ident_start(c) || is_digit(c)
}

/// The characters operator symbols are spelt with.
pub open spec fn is_symbol_char(c: char) -> bool {
    c == '<' || c == '>' || c == '=' || c == '!' || c == '~'
}

/// A digit or the decimal dot: one numeric lexeme is a maximal run of these.
pub open spec fn is_digit_or_dot(c: char) -> bool {
    is_digit(c) || c == '.'
}

/// The numeric value of a digit, and zero for any other character.
pub open spec fn digit_of(c: char) -> nat {
    if is_digit(c) {
        (c as u32 - 48) as nat
    } else {
        0
    }
}

/// The first index at or after `i` whose character fails `pred`, or the end.
pub open spec fn scan_end(s: Seq<char>, i: int, pred: spec_fn(char) -> bool) -> int
    decreases s.len() - i,
{
    if i < 0 || i >= s.len() {
        i
    } else if pred(s[i]) {
        scan_end(s, i + 1, pred)
    } else {
        i
    }
}

/// A scan ends exactly at the first failing index.
pub proof fn lemma_scan_end_eq(s: Seq<char>, i: int, k: int, pred: spec_fn(char) -> bool)
    requires
        0 <= i <= k <= s.len(),
        forall|m: int| i <= m < k ==> pred(s[m]),
        k < s.len() ==> !pred(s[k]),
    ensures
        scan_end(s, i, pred) == k,
    decreases k - i,
{
    if i < k {
        lemma_scan_end_eq(s, i + 1, k, pred);
    }
}

/// The value of the digit run `s[i..j]`, read most significant first.
pub open spec fn digits_val(s: Seq<char>, i: int, j: int) -> nat
    decreases j - i,
{
    if i >= j {
        0
    } else {
        digits_val(s, i, j - 1) * 10 + digit_of(s[j - 1])
    }
}

/// Ten to the `n`.
pub open spec fn pow10(n: nat) -> nat
    decreases n,
{
    if n == 0 {
        1
    } else {
        10 * pow10((n - 1) as nat)
    }
}

proof fn lemma_pow10_pos(n: nat)
    ensures
        pow10(n) >= 1,
    decreases n,
{
    if n > 0 {
        lemma_pow10_pos((n - 1) as nat);
    }
}

proof fn lemma_pow10_le(a: nat, b: nat)
    requires
        a <= b,
    ensures
        pow10(a) <= pow10(b),
    decreases b,
{
    lemma_pow10_pos(a);
    if a < b {
        lemma_pow10_le(a, (b - 1) as nat);
        lemma_pow10_pos((b - 1) as nat);
    }
}

proof fn lemma_pow10_adds(a: nat, b: nat)
    ensures
        pow10(a + b) == pow10(a) * pow10(b),
    decreases a,
{
    if a == 0 {
        assert(pow10(b) == 1 * pow10(b));
    } else {
        lemma_pow10_adds((a - 1) as nat, b);
        assert(pow10(a + b) == 10 * pow10((a - 1) as nat + b));
        assert(10 * (pow10((a - 1) as nat) * pow10(b)) == (10 * pow10((a - 1) as nat)) * pow10(b))
            by (nonlinear_arith);
    }
}

proof fn lemma_pow10_values()
    ensures
        pow10(9) == 1_000_000_000,
        pow10(18) == 1_000_000_000_000_000_000,
{
    reveal_with_fuel(pow10, 20);
    assert(pow10(9) == 1_000_000_000);
    assert(pow10(18) == 1_000_000_000_000_000_000);
}

/// A digit run's value stays under ten to its length.
proof fn lemma_digits_val_bound(s: Seq<char>, i: int, j: int)
    requires
        i <= j,
    ensures
        digits_val(s, i, j) < pow10((j - i) as nat),
    decreases j - i,
{
    if i < j {
        lemma_digits_val_bound(s, i, j - 1);
        assert(pow10((j - i) as nat) == 10 * pow10((j - 1 - i) as nat));
    }
}

/// The fixed operator symbol table.
pub open spec fn spec_symbol_operator(w: Seq<char>) -> Option<Operator> {
    if w.len() == 2 && w[0] == '<' && w[1] == '=' {
        Some(Operator::Le)
    } else if w.len() == 2 && w[0] == '>' && w[1] == '=' {
        Some(Operator::Ge)
    } else if w.len() == 2 && w[0] == '!' && w[1] == '=' {
        Some(Operator::NotEqual)
    } else if w.len() == 1 && w[0] == '<' {
        Some(Operator::Lt)
    } else if w.len() == 1 && w[0] == '>' {
        Some(Operator::Gt)
    } else if w.len() == 1 && w[0] == '=' {
        Some(Operator::Equal)
    } else if w.len() == 1 && w[0] == '~' {
        Some(Operator::Regex)
    } else {
        None
    }
}

/// The classification of an identifier lexeme: the reserved connectives
/// `AND`, `OR` and `NOT`, else a field name.
pub open spec fn spec_word_kind(w: Seq<char>) -> TokenKindView {
    if w.len() == 3 && w[0] == 'A' && w[1] == 'N' && w[2] == 'D' {
        TokenKindView::And
    } else if w.len() == 2 && w[0] == 'O' && w[1] == 'R' {
        TokenKindView::Or
    } else if w.len() == 3 && w[0] == 'N' && w[1] == 'O' && w[2] == 'T' {
        TokenKindView::Not
    } else {
        TokenKindView::Field(w)
    }
}

/// An identifier lexeme: the reserved connectives, else a field name.
pub open spec fn spec_lex_ident(s: Seq<char>, i: int) -> (TokenView, int) {
    let j = scan_end(s, i, |c: char| is_ident_char(c));
    (TokenView { kind: spec_word_kind(s.subrange(i, j)), column: i + 1 }, j)
}

/// A numeric lexeme: a maximal digit-and-dot run. No dot is an integer of at
/// most eighteen digits; exactly one dot is a decimal with at most eighteen
/// integral digits and one to nine fractional digits; anything else fails,
/// anchored at the lexeme's starting column.
pub open spec fn spec_lex_number(s: Seq<char>, i: int) -> Result<(TokenView, int), ErrorView> {
    let j = scan_end(s, i, |c: char| is_digit_or_dot(c));
    let d = scan_end(s, i, |c: char| is_digit(c));
    if d == j {
        if j - i > 18 {
            Err(ErrorView::IntegerParseFailed { column: i + 1 })
        } else {
            Ok((
                TokenView { kind: TokenKindView::Integer(digits_val(s, i, j) as i64), column: i + 1 },
                j,
            ))
        }
    } else {
        let e = scan_end(s, d + 1, |c: char| is_digit(c));
        if e != j || d - i > 18 || e - (d + 1) < 1 || e - (d + 1) > 9 {
            Err(ErrorView::DecimalParseFailed { column: i + 1 })
        } else {
            Ok((
                TokenView {
                    kind: TokenKindView::Decimal(
                        DecimalValue {
                            units: digits_val(s, i, d) as i64,
                            nanos: (digits_val(s, d + 1, e) * pow10((9 - (e - (d + 1))) as nat)) as u32,
                        },
                    ),
                    column: i + 1,
                },
                j,
            ))
        }
    }
}

/// A quoted text lexeme: everything up to the closing quote; no closing quote
/// before a newline or the end of input fails with a missing quote.
pub open spec fn spec_lex_string(s: Seq<char>, i: int) -> Result<(TokenView, int), ErrorView> {
    let e = scan_end(s, i + 1, |c: char| c != '"' && c != '\n');
    if e < s.len() && s[e] == '"' {
        Ok((TokenView { kind: TokenKindView::Text(s.subrange(i + 1, e)), column: i + 1 }, e + 1))
    } else {
        Err(ErrorView::MissingQuote { column: i + 1 })
    }
}

/// An operator lexeme: a maximal symbol run, looked up whole in the table; an
/// unrecognised run fails with an unknown operator carrying the raw text.
pub open spec fn spec_lex_symbol(s: Seq<char>, i: int) -> Result<(TokenView, int), ErrorView> {
    let j = scan_end(s, i, |c: char| is_symbol_char(c));
    let w = s.subrange(i, j);
    match spec_symbol_operator(w) {
        Some(op) => Ok((TokenView { kind: TokenKindView::Operator(op), column: i + 1 }, j)),
        None => Err(ErrorView::UnknownOperator { operator: w }),
    }
}

/// The next scan position: `j` where it makes progress and stays in bounds.
/// Every lexeme is at least one character long, so this is always `j`.
pub open spec fn step_to(s: Seq<char>, i: int, j: int) -> int {
    if i < j && j <= s.len() {
        j
    } else {
        i + 1
    }
}

/// Prepends already-lexed tokens to the rest of a lexing outcome.
pub open spec fn lex_compose(
    pre: Seq<TokenView>,
    r: Result<Seq<TokenView>, ErrorView>,
) -> Result<Seq<TokenView>, ErrorView> {
    match r {
        Ok(rest) => Ok(pre + rest),
        Err(e) => Err(e),
    }
}

/// The tokens of `s` from position `i` on: whitespace skipped, identifiers
/// classified, numbers, quoted texts and operator symbols read as their
/// helpers say, single punctuation characters as their own tokens, any other
/// character an unknown operator; the sentinel `End` token closes the stream.
pub open spec fn spec_tokenize_from(s: Seq<char>, i: int) -> Result<Seq<TokenView>, ErrorView>
    decreases s.len() - i,
{
    if i < 0 || i >= s.len() {
        Ok(seq![TokenView { kind: TokenKindView::End, column: s.len() as int + 1 }])
    } else {
        let c = s[i];
        if is_space(c) {
            spec_tokenize_from(s, i + 1)
        } else if is_ident_start(c) {
            let (t, j) = spec_lex_ident(s, i);
            lex_compose(seq![t], spec_tokenize_from(s, step_to(s, i, j)))
        } else if is_digit(c) {
            match spec_lex_number(s, i) {
                Ok((t, j)) => lex_compose(seq![t], spec_tokenize_from(s, step_to(s, i, j))),
                Err(e) => Err(e),
            }
        } else if c == '"' {
            match spec_lex_string(s, i) {
                Ok((t, j)) => lex_compose(seq![t], spec_tokenize_from(s, step_to(s, i, j))),
                Err(e) => Err(e),
            }
        } else if c == '(' {
            lex_compose(
                seq![TokenView { kind: TokenKindView::OpenParen, column: i + 1 }],
                spec_tokenize_from(s, i + 1),
            )
        } else if c == ')' {
            lex_compose(
                seq![TokenView { kind: TokenKindView::CloseParen, column: i + 1 }],
                spec_tokenize_from(s, i + 1),
            )
        } else if c == '{' {
            lex_compose(
                seq![TokenView { kind: TokenKindView::OpenBrace, column: i + 1 }],
                spec_tokenize_from(s, i + 1),
            )
        } else if c == '}' {
            lex_compose(
                seq![TokenView { kind: TokenKindView::CloseBrace, column: i + 1 }],
                spec_tokenize_from(s, i + 1),
            )
        } else if c == ',' {
            lex_compose(
                seq![TokenView { kind: TokenKindView::Comma, column: i + 1 }],
                spec_tokenize_from(s, i + 1),
            )
        } else if is_symbol_char(c) {
            match spec_lex_symbol(s, i) {
                Ok((t, j)) => lex_compose(seq![t], spec_tokenize_from(s, step_to(s, i, j))),
                Err(e) => Err(e),
            }
        } else {
            Err(ErrorView::UnknownOperator { operator: seq![c] })
        }
    }
}

/// The tokens of the whole query text.
pub open spec fn spec_tokenize(s: Seq<char>) -> Result<Seq<TokenView>, ErrorView> {
    spec_tokenize_from(s, 0)
}

/// Relies on String::push: appends the one character at the end.
#[verifier::external_body]
fn push_char(s: &mut String, c: char)
    ensures
        final(s)@ == old(s)@.push(c),
{
    s.push(c);
}

fn is_space_exec(c: char) -> (r: bool)
    ensures
        r == is_space(c),
{
    c == ' ' || c == '\t' || c == '\r' || c == '\n'
}

fn is_digit_exec(c: char) -> (r: bool)
    ensures
        r == is_digit(c),
{
    48 <= c as u32 && c as u32 <= 57
}

fn is_ident_start_exec(c: char) -> (r: bool)
    ensures
        r == is_ident_start(c),
{
    (97 <= c as u32 && c as u32 <= 122) || (65 <= c as u32 && c as u32 <= 90) || c == '_'
}

fn is_ident_char_exec(c: char) -> (r: bool)
    ensures
        r == is_ident_char(c),
{
    is_ident_start_exec(c) || is_digit_exec(c)
}

fn is_digit_or_dot_exec(c: char) -> (r: bool)
    ensures
        r == is_digit_or_dot(c),
{
    is_digit_exec(c) || c == '.'
}

fn keeps_string_open(c: char) -> (r: bool)
    ensures
        r == (c != '"' && c != '\n'),
{
    c != '"' && c != '\n'
}

fn is_symbol_char_exec(c: char) -> (r: bool)
    ensures
        r == is_symbol_char(c),
{
    c == '<' || c == '>' || c == '=' || c == '!' || c == '~'
}

fn scan_idents(s: &str, from: usize) -> (j: usize)
    requires
        from <= s@.len(),
    ensures
        j == scan_end(s@, from as int, |c: char| is_ident_char(c)),
        from <= j <= s@.len(),
        forall|m: int| from <= m < j ==> is_ident_char(s@[m]),
        j < s@.len() ==> !is_ident_char(s@[j as int]),
{
    let len = s.unicode_len();
    let mut k = from;
    while k < len && is_ident_char_exec(s.get_char(k))
        invariant
            from <= k <= len,
            len == s@.len(),
            forall|m: int| from <= m < k ==> is_ident_char(s@[m]),
        decreases len - k,
    {
        k = k + 1;
    }
    proof {
        lemma_scan_end_eq(s@, from as int, k as int, |c: char| is_ident_char(c));
    }
    k
}

fn scan_digits(s: &str, from: usize) -> (j: usize)
    requires
        from <= s@.len(),
    ensures
        j == scan_end(s@, from as int, |c: char| is_digit(c)),
        from <= j <= s@.len(),
        forall|m: int| from <= m < j ==> is_digit(s@[m]),
        j < s@.len() ==> !is_digit(s@[j as int]),
{
    let len = s.unicode_len();
    let mut k = from;
    while k < len && is_digit_exec(s.get_char(k))
        invariant
            from <= k <= len,
            len == s@.len(),
            forall|m: int| from <= m < k ==> is_digit(s@[m]),
        decreases len - k,
    {
        k = k + 1;
    }
    proof {
        lemma_scan_end_eq(s@, from as int, k as int, |c: char| is_digit(c));
    }
    k
}

fn scan_digits_dots(s: &str, from: usize) -> (j: usize)
    requires
        from <= s@.len(),
    ensures
        j == scan_end(s@, from as int, |c: char| is_digit_or_dot(c)),
        from <= j <= s@.len(),
        forall|m: int| from <= m < j ==> is_digit_or_dot(s@[m]),
        j < s@.len() ==> !is_digit_or_dot(s@[j as int]),
{
    let len = s.unicode_len();
    let mut k = from;
    while k < len && is_digit_or_dot_exec(s.get_char(k))
        invariant
            from <= k <= len,
            len == s@.len(),
            forall|m: int| from <= m < k ==> is_digit_or_dot(s@[m]),
        decreases len - k,
    {
        k = k + 1;
    }
    proof {
        lemma_scan_end_eq(s@, from as int, k as int, |c: char| is_digit_or_dot(c));
    }
    k
}

fn scan_symbols(s: &str, from: usize) -> (j: usize)
    requires
        from <= s@.len(),
    ensures
        j == scan_end(s@, from as int, |c: char| is_symbol_char(c)),
        from <= j <= s@.len(),
        forall|m: int| from <= m < j ==> is_symbol_char(s@[m]),
        j < s@.len() ==> !is_symbol_char(s@[j as int]),
{
    let len = s.unicode_len();
    let mut k = from;
    while k < len && is_symbol_char_exec(s.get_char(k))
        invariant
            from <= k <= len,
            len == s@.len(),
            forall|m: int| from <= m < k ==> is_symbol_char(s@[m]),
        decreases len - k,
    {
        k = k + 1;
    }
    proof {
        lemma_scan_end_eq(s@, from as int, k as int, |c: char| is_symbol_char(c));
    }
    k
}

fn scan_quote(s: &str, from: usize) -> (j: usize)
    requires
        from <= s@.len(),
    ensures
        j == scan_end(s@, from as int, |c: char| c != '"' && c != '\n'),
        from <= j <= s@.len(),
{
    let len = s.unicode_len();
    let mut k = from;
    while k < len && keeps_string_open(s.get_char(k))
        invariant
            from <= k <= len,
            len == s@.len(),
            forall|m: int| from <= m < k ==> (s@[m] != '"' && s@[m] != '\n'),
        decreases len - k,
    {
        k = k + 1;
    }
    proof {
        lemma_scan_end_eq(s@, from as int, k as int, |c: char| c != '"' && c != '\n');
    }
    k
}

/// The characters `s[from..to]` as an owned text.
fn build_substring(s: &str, from: usize, to: usize) -> (r: String)
    requires
        from <= to <= s@.len(),
    ensures
        r@ == s@.subrange(from as int, to as int),
{
    let mut out = String::new();
    let mut k = from;
    while k < to
        invariant
            from <= k <= to,
            to <= s@.len(),
            out@ == s@.subrange(from as int, k as int),
        decreases to - k,
    {
        let c = s.get_char(k);
        push_char(&mut out, c);
        k = k + 1;
        proof {
            assert(out@ =~= s@.subrange(from as int, k as int));
        }
    }
    out
}

/// The value of the digit run `s[from..to]`.
fn read_digits(s: &str, from: usize, to: usize) -> (v: u64)
    requires
        from <= to <= s@.len(),
        to - from <= 18,
        forall|m: int| from <= m < to ==> is_digit(s@[m]),
    ensures
        v as nat == digits_val(s@, from as int, to as int),
        v < 1_000_000_000_000_000_000,
{
    proof {
        lemma_pow10_values();
    }
    let mut acc: u64 = 0;
    let mut k = from;
    while k < to
        invariant
            from <= k <= to,
            to <= s@.len(),
            to - from <= 18,
            forall|m: int| from <= m < to ==> is_digit(s@[m]),
            acc as nat == digits_val(s@, from as int, k as int),
            (acc as nat) < pow10((k - from) as nat),
            pow10(18) == 1_000_000_000_000_000_000,
        decreases to - k,
    {
        let c = s.get_char(k);
        proof {
            assert(is_digit(s@[k as int]));
            assert(pow10((k + 1 - from) as nat) == 10 * pow10((k - from) as nat));
            lemma_pow10_le((k + 1 - from) as nat, 18);
        }
        let d = (c as u32 - 48) as u64;
        acc = acc * 10 + d;
        k = k + 1;
    }
    proof {
        lemma_pow10_le((k - from) as nat, 18);
    }
    acc
}

/// Ten to the `e`, executably.
fn pow10_u64(e: usize) -> (r: u64)
    requires
        e <= 18,
    ensures
        r as nat == pow10(e as nat),
{
    proof {
        lemma_pow10_values();
    }
    let mut p: u64 = 1;
    let mut k: usize = 0;
    while k < e
        invariant
            k <= e <= 18,
            p as nat == pow10(k as nat),
            pow10(18) == 1_000_000_000_000_000_000,
        decreases e - k,
    {
        proof {
            lemma_pow10_le((k + 1) as nat, 18);
            assert(pow10((k + 1) as nat) == 10 * pow10(k as nat));
        }
        p = p * 10;
        k = k + 1;
    }
    p
}

/// One identifier lexeme, exactly as `spec_lex_ident` says.
fn lex_ident(s: &str, i: usize) -> (r: (Token, usize))
    requires
        i < s@.len(),
        is_ident_start(s@[i as int]),
    ensures
        r.0@ == spec_lex_ident(s@, i as int).0,
        r.1 as int == spec_lex_ident(s@, i as int).1,
        i < r.1 <= s@.len(),
        !(r.0@.kind is End),
{
    let j = scan_idents(s, i);
    proof {
        if j == i {
            assert(is_ident_char(s@[i as int]));
            assert(false);
        }
    }
    let ghost w = s@.subrange(i as int, j as int);
    proof {
        assert(w.len() == j - i);
    }
    let n = j - i;
    let kind: TokenKind;
    if n == 3 && s.get_char(i) == 'A' && s.get_char(i + 1) == 'N' && s.get_char(i + 2) == 'D' {
        kind = TokenKind::And;
    } else if n == 2 && s.get_char(i) == 'O' && s.get_char(i + 1) == 'R' {
        kind = TokenKind::Or;
    } else if n == 3 && s.get_char(i) == 'N' && s.get_char(i + 1) == 'O'
        && s.get_char(i + 2) == 'T' {
        kind = TokenKind::Not;
    } else {
        kind = TokenKind::Field(build_substring(s, i, j));
    }
    (Token { kind: kind, column: i + 1 }, j)
}

/// One numeric lexeme, exactly as `spec_lex_number` says.
fn lex_number(s: &str, i: usize) -> (r: Result<(Token, usize), Error>)
    requires
        i < s@.len(),
        is_digit(s@[i as int]),
    ensures
        match r {
            Ok((t, j)) => spec_lex_number(s@, i as int) == Ok::<(TokenView, int), ErrorView>(
                (t@, j as int),
            ) && i < j <= s@.len() && !(t@.kind is End),
            Err(e) => spec_lex_number(s@, i as int) == Err::<(TokenView, int), ErrorView>(e@),
        },
{
    proof {
        lemma_pow10_values();
    }
    let j = scan_digits_dots(s, i);
    let d = scan_digits(s, i);
    proof {
        if j == i {
            assert(is_digit_or_dot(s@[i as int]));
            assert(false);
        }
        if d > j {
            assert(is_digit(s@[j as int]));
            assert(false);
        }
    }
    if d == j {
        if j - i > 18 {
            Err(Error::IntegerParseFailed { column: i + 1 })
        } else {
            let v = read_digits(s, i, j);
            Ok((Token { kind: TokenKind::Integer(v as i64), column: i + 1 }, j))
        }
    } else {
        let e = scan_digits(s, d + 1);
        proof {
            if e > j {
                assert(is_digit(s@[j as int]));
                assert(is_digit_or_dot(s@[j as int]));
                assert(false);
            }
        }
        if e != j || d - i > 18 || e - (d + 1) < 1 || e - (d + 1) > 9 {
            Err(Error::DecimalParseFailed { column: i + 1 })
        } else {
            let units = read_digits(s, i, d);
            let frac = read_digits(s, d + 1, e);
            let fl = e - (d + 1);
            let scale = pow10_u64(9 - fl);
            proof {
                lemma_digits_val_bound(s@, d as int + 1, e as int);
                lemma_pow10_adds((fl) as nat, (9 - fl) as nat);
                lemma_pow10_pos((9 - fl) as nat);
                assert((pow10(fl as nat) - 1) * pow10((9 - fl) as nat) == pow10(fl as nat)
                    * pow10((9 - fl) as nat) - pow10((9 - fl) as nat)) by (nonlinear_arith);
                assert(frac as nat * pow10((9 - fl) as nat) <= (pow10(fl as nat) - 1) * pow10(
                    (9 - fl) as nat,
                )) by (nonlinear_arith)
                    requires
                        frac as nat <= pow10(fl as nat) - 1,
                        pow10((9 - fl) as nat) >= 1,
                ;
            }
            let nanos = frac * scale;
            Ok((
                Token {
                    kind: TokenKind::Decimal(
                        DecimalValue { units: units as i64, nanos: nanos as u32 },
                    ),
                    column: i + 1,
                },
                j,
            ))
        }
    }
}

/// One quoted-text lexeme, exactly as `spec_lex_string` says.
fn lex_string(s: &str, i: usize) -> (r: Result<(Token, usize), Error>)
    requires
        i < s@.len(),
        s@[i as int] == '"',
    ensures
        match r {
            Ok((t, j)) => spec_lex_string(s@, i as int) == Ok::<(TokenView, int), ErrorView>(
                (t@, j as int),
            ) && i < j <= s@.len() && !(t@.kind is End),
            Err(e) => spec_lex_string(s@, i as int) == Err::<(TokenView, int), ErrorView>(e@),
        },
{
    let len = s.unicode_len();
    let e = scan_quote(s, i + 1);
    if e < len && s.get_char(e) == '"' {
        let content = build_substring(s, i + 1, e);
        Ok((Token { kind: TokenKind::Text(content), column: i + 1 }, e + 1))
    } else {
        Err(Error::MissingQuote { column: i + 1 })
    }
}

/// One operator lexeme, exactly as `spec_lex_symbol` says.
fn lex_symbol(s: &str, i: usize) -> (r: Result<(Token, usize), Error>)
    requires
        i < s@.len(),
        is_symbol_char(s@[i as int]),
    ensures
        match r {
            Ok((t, j)) => spec_lex_symbol(s@, i as int) == Ok::<(TokenView, int), ErrorView>(
                (t@, j as int),
            ) && i < j <= s@.len() && !(t@.kind is End),
            Err(e) => spec_lex_symbol(s@, i as int) == Err::<(TokenView, int), ErrorView>(e@),
        },
{
    let j = scan_symbols(s, i);
    proof {
        if j == i {
            assert(is_symbol_char(s@[i as int]));
            assert(false);
        }
    }
    let ghost w = s@.subrange(i as int, j as int);
    proof {
        assert(w.len() == j - i);
    }
    let n = j - i;
    let op: Option<Operator> = if n == 2 {
        let c0 = s.get_char(i);
        let c1 = s.get_char(i + 1);
        if c0 == '<' && c1 == '=' {
            Some(Operator::Le)
        } else if c0 == '>' && c1 == '=' {
            Some(Operator::Ge)
        } else if c0 == '!' && c1 == '=' {
            Some(Operator::NotEqual)
        } else {
            None
        }
    } else if n == 1 {
        let c0 = s.get_char(i);
        if c0 == '<' {
            Some(Operator::Lt)
        } else if c0 == '>' {
            Some(Operator::Gt)
        } else if c0 == '=' {
            Some(Operator::Equal)
        } else if c0 == '~' {
            Some(Operator::Regex)
        } else {
            None
        }
    } else {
        None
    };
    match op {
        Some(op) => Ok((Token { kind: TokenKind::Operator(op), column: i + 1 }, j)),
        None => Err(Error::UnknownOperator { operator: build_substring(s, i, j) }),
    }
}

proof fn lemma_compose_assoc(pre: Seq<TokenView>, tv: TokenView, r: Result<Seq<TokenView>, ErrorView>)
    ensures
        lex_compose(pre, lex_compose(seq![tv], r)) == lex_compose(pre + seq![tv], r),
{
    match r {
        Ok(rest) => {
            assert((pre + (seq![tv] + rest)) =~= ((pre + seq![tv]) + rest));
        },
        Err(_) => {},
    }
}

/// Turns the query text into its token stream, exactly as `spec_tokenize`
/// says; a successful stream is well formed, closed by the sentinel.
pub fn tokenize(input: &str) -> (r: Result<Vec<Token>, Error>)
    requires
        input@.len() < usize::MAX,
    ensures
        match r {
            Ok(toks) => spec_tokenize(input@) == Ok::<Seq<TokenView>, ErrorView>(tokens_view(toks@))
                && tokens_wf(tokens_view(toks@)),
            Err(e) => spec_tokenize(input@) == Err::<Seq<TokenView>, ErrorView>(e@),
        },
{
    let ghost s = input@;
    let len = input.unicode_len();
    let mut out: Vec<Token> = Vec::new();
    let mut i: usize = 0;
    proof {
        assert(tokens_view(out@) =~= Seq::<TokenView>::empty());
        assert(lex_compose(tokens_view(out@), spec_tokenize_from(s, 0)) == spec_tokenize_from(s, 0));
    }
    while i < len
        invariant
            i <= len,
            len == s.len(),
            len < usize::MAX,
            s == input@,
            spec_tokenize_from(s, 0) == lex_compose(tokens_view(out@), spec_tokenize_from(s, i as int)),
            forall|m: int| 0 <= m < out@.len() ==> !((#[trigger] tokens_view(out@)[m]).kind is End),
        decreases len - i,
    {
        let ghost pre = tokens_view(out@);
        let c = input.get_char(i);
        if is_space_exec(c) {
            proof {
                assert(spec_tokenize_from(s, i as int) == spec_tokenize_from(s, i as int + 1));
            }
            i = i + 1;
        } else if is_ident_start_exec(c) {
            let (t, j) = lex_ident(input, i);
            proof {
                assert(step_to(s, i as int, j as int) == j as int);
                lemma_compose_assoc(pre, t@, spec_tokenize_from(s, j as int));
                assert(tokens_view(out@.push(t)) =~= pre + seq![t@]);
            }
            out.push(t);
            i = j;
        } else if is_digit_exec(c) {
            match lex_number(input, i) {
                Ok((t, j)) => {
                    proof {
                        assert(step_to(s, i as int, j as int) == j as int);
                        lemma_compose_assoc(pre, t@, spec_tokenize_from(s, j as int));
                        assert(tokens_view(out@.push(t)) =~= pre + seq![t@]);
                    }
                    out.push(t);
                    i = j;
                },
                Err(e) => {
                    return Err(e);
                },
            }
        } else if c == '"' {
            match lex_string(input, i) {
                Ok((t, j)) => {
                    proof {
                        assert(step_to(s, i as int, j as int) == j as int);
                        lemma_compose_assoc(pre, t@, spec_tokenize_from(s, j as int));
                        assert(tokens_view(out@.push(t)) =~= pre + seq![t@]);
                    }
                    out.push(t);
                    i = j;
                },
                Err(e) => {
                    return Err(e);
                },
            }
        } else if c == '(' {
            let t = Token { kind: TokenKind::OpenParen, column: i + 1 };
            proof {
                lemma_compose_assoc(pre, t@, spec_tokenize_from(s, i as int + 1));
                assert(tokens_view(out@.push(t)) =~= pre + seq![t@]);
            }
            out.push(t);
            i = i + 1;
        } else if c == ')' {
            let t = Token { kind: TokenKind::CloseParen, column: i + 1 };
            proof {
                lemma_compose_assoc(pre, t@, spec_tokenize_from(s, i as int + 1));
                assert(tokens_view(out@.push(t)) =~= pre + seq![t@]);
            }
            out.push(t);
            i = i + 1;
        } else if c == '{' {
            let t = Token { kind: TokenKind::OpenBrace, column: i + 1 };
            proof {
                lemma_compose_assoc(pre, t@, spec_tokenize_from(s, i as int + 1));
                assert(tokens_view(out@.push(t)) =~= pre + seq![t@]);
            }
            out.push(t);
            i = i + 1;
        } else if c == '}' {
            let t = Token { kind: TokenKind::CloseBrace, column: i + 1 };
            proof {
                lemma_compose_assoc(pre, t@, spec_tokenize_from(s, i as int + 1));
                assert(tokens_view(out@.push(t)) =~= pre + seq![t@]);
            }
            out.push(t);
            i = i + 1;
        } else if c == ',' {
            let t = Token { kind: TokenKind::Comma, column: i + 1 };
            proof {
                lemma_compose_assoc(pre, t@, spec_tokenize_from(s, i as int + 1));
                assert(tokens_view(out@.push(t)) =~= pre + seq![t@]);
            }
            out.push(t);
            i = i + 1;
        } else if is_symbol_char_exec(c) {
            match lex_symbol(input, i) {
                Ok((t, j)) => {
                    proof {
                        assert(step_to(s, i as int, j as int) == j as int);
                        lemma_compose_assoc(pre, t@, spec_tokenize_from(s, j as int));
                        assert(tokens_view(out@.push(t)) =~= pre + seq![t@]);
                    }
                    out.push(t);
                    i = j;
                },
                Err(e) => {
                    return Err(e);
                },
            }
        } else {
            let mut word = String::new();
            push_char(&mut word, c);
            proof {
                assert(word@ =~= seq![c]);
            }
            return Err(Error::UnknownOperator { operator: word });
        }
    }
    let t = Token { kind: TokenKind::End, column: len + 1 };
    let ghost pre = tokens_view(out@);
    out.push(t);
    proof {
        assert(spec_tokenize_from(s, i as int) == Ok::<Seq<TokenView>, ErrorView>(seq![t@]));
        assert(tokens_view(out@) =~= pre + seq![t@]);
        assert(spec_tokenize(s) == Ok::<Seq<TokenView>, ErrorView>(tokens_view(out@)));
        assert(tokens_wf(tokens_view(out@)));
    }
    Ok(out)
}

} // verus!
