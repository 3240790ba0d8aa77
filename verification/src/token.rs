//! Positioned tokens, the lexer's output and the parser's input. Every token
//! carries the 1-based column of its first character by construction, so no
//! "missing position" state exists at all.

use vstd::prelude::*;
use crate::operator::Operator;
use crate::value::DecimalValue;

verus! {

/// Spec-level shape of a token kind.
#[verifier::ext_equal]
pub ghost enum TokenKindView {
    Field(Seq<char>),
    Operator(Operator),
    Integer(i64),
    Decimal(DecimalValue),
    Text(Seq<char>),
    OpenParen,
    CloseParen,
    OpenBrace,
    CloseBrace,
    Comma,
    And,
    Or,
    Not,
    End,
}

/// Spec-level shape of a token.
#[verifier::ext_equal]
pub ghost struct TokenView {
    pub kind: TokenKindView,
    pub column: int,
}

/// What a lexeme was classified as, together with its payload.
#[derive(Debug, PartialEq)]
pub enum TokenKind {
    /// An identifier that is not a reserved connective.
    Field(String),
    /// A symbol from the fixed operator table.
    Operator(Operator),
    /// A run of digits.
    Integer(i64),
    /// A run of digits with exactly one dot.
    Decimal(DecimalValue),
    /// A quoted text, without its quotes.
    Text(String),
    OpenParen,
    CloseParen,
    OpenBrace,
    CloseBrace,
    Comma,
    And,
    Or,
    Not,
    /// The sentinel closing every token stream.
    End,
}

/// One token: its kind and the 1-based column of its first character.
#[derive(Debug, PartialEq)]
pub struct Token {
    pub kind: TokenKind,
    pub column: usize,
}

impl View for TokenKind {
    type V = TokenKindView;

    open spec fn view(&self) -> TokenKindView {
        match self {
            TokenKind::Field(s) => TokenKindView::Field(s@),
            TokenKind::Operator(op) => TokenKindView::Operator(*op),
            TokenKind::Integer(i) => TokenKindView::Integer(*i),
            TokenKind::Decimal(d) => TokenKindView::Decimal(*d),
            TokenKind::Text(s) => TokenKindView::Text(s@),
            TokenKind::OpenParen => TokenKindView::OpenParen,
            TokenKind::CloseParen => TokenKindView::CloseParen,
            TokenKind::OpenBrace => TokenKindView::OpenBrace,
            TokenKind::CloseBrace => TokenKindView::CloseBrace,
            TokenKind::Comma => TokenKindView::Comma,
            TokenKind::And => TokenKindView::And,
            TokenKind::Or => TokenKindView::Or,
            TokenKind::Not => TokenKindView::Not,
            TokenKind::End => TokenKindView::End,
        }
    }
}

impl View for Token {
    type V = TokenView;

    open spec fn view(&self) -> TokenView {
        TokenView { kind: self.kind@, column: self.column as int }
    }
}

/// The shapes of a token sequence.
pub open spec fn tokens_view(toks: Seq<Token>) -> Seq<TokenView> {
    toks.map_values(|t: Token| t@)
}

/// A well-formed token stream: the sentinel `End` token stands at the end and
/// nowhere else, so a parser walking it never runs past the last index.
pub open spec fn tokens_wf(toks: Seq<TokenView>) -> bool {
    &&& toks.len() >= 1
    &&& forall|i: int| 0 <= i < toks.len() ==> ((toks[i].kind is End) <==> i == toks.len() - 1)
}

} // verus!
