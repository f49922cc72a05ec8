//! Tokens of the source language.

use vstd::prelude::*;

verus! {

/// The kind of a token, as produced by the tokenizer.
///
/// `Integer` carries the parsed 32-bit value; `Identifier` carries the
/// lexeme. Identifier lexemes equal to a keyword are never produced:
/// the tokenizer reclassifies them as the keyword kinds below.
#[derive(Debug, PartialEq, Eq, Clone)]
pub enum TokenKind {
    Integer(i32),
    Identifier(String),
    KeywordReturn,
    KeywordIf,
    KeywordElse,
    KeywordWhile,
    KeywordFor,
    SymbolPlus,
    SymbolMinus,
    SymbolStar,
    SymbolSlash,
    SymbolRoundBracketLeft,
    SymbolRoundBracketRight,
    SymbolAngleBracketLeft,
    SymbolAngleBracketRight,
    SymbolAngleBracketLeftAndEqual,
    SymbolAngleBracketRightAndEqual,
    SymbolCurlyBracketLeft,
    SymbolCurlyBracketRight,
    SymbolDoubleEqual,
    SymbolExclamationAndEqual,
    SymbolEqual,
    SymbolSemicolon,
    SymbolComma,
    EOF,
}

/// The mathematical abstraction of a token kind: integer values are
/// unbounded and identifier lexemes are character sequences.
pub enum SpecTokenKind {
    Integer(int),
    Identifier(Seq<char>),
    KeywordReturn,
    KeywordIf,
    KeywordElse,
    KeywordWhile,
    KeywordFor,
    SymbolPlus,
    SymbolMinus,
    SymbolStar,
    SymbolSlash,
    SymbolRoundBracketLeft,
    SymbolRoundBracketRight,
    SymbolAngleBracketLeft,
    SymbolAngleBracketRight,
    SymbolAngleBracketLeftAndEqual,
    SymbolAngleBracketRightAndEqual,
    SymbolCurlyBracketLeft,
    SymbolCurlyBracketRight,
    SymbolDoubleEqual,
    SymbolExclamationAndEqual,
    SymbolEqual,
    SymbolSemicolon,
    SymbolComma,
    EOF,
}

impl DeepView for TokenKind {
    type V = SpecTokenKind;

    open spec fn deep_view(&self) -> SpecTokenKind {
        match self {
            TokenKind::Integer(v) => SpecTokenKind::Integer(*v as int),
            TokenKind::Identifier(s) => SpecTokenKind::Identifier(s@),
            TokenKind::KeywordReturn => SpecTokenKind::KeywordReturn,
            TokenKind::KeywordIf => SpecTokenKind::KeywordIf,
            TokenKind::KeywordElse => SpecTokenKind::KeywordElse,
            TokenKind::KeywordWhile => SpecTokenKind::KeywordWhile,
            TokenKind::KeywordFor => SpecTokenKind::KeywordFor,
            TokenKind::SymbolPlus => SpecTokenKind::SymbolPlus,
            TokenKind::SymbolMinus => SpecTokenKind::SymbolMinus,
            TokenKind::SymbolStar => SpecTokenKind::SymbolStar,
            TokenKind::SymbolSlash => SpecTokenKind::SymbolSlash,
            TokenKind::SymbolRoundBracketLeft => SpecTokenKind::SymbolRoundBracketLeft,
            TokenKind::SymbolRoundBracketRight => SpecTokenKind::SymbolRoundBracketRight,
            TokenKind::SymbolAngleBracketLeft => SpecTokenKind::SymbolAngleBracketLeft,
            TokenKind::SymbolAngleBracketRight => SpecTokenKind::SymbolAngleBracketRight,
            TokenKind::SymbolAngleBracketLeftAndEqual => SpecTokenKind::SymbolAngleBracketLeftAndEqual,
            TokenKind::SymbolAngleBracketRightAndEqual => SpecTokenKind::SymbolAngleBracketRightAndEqual,
            TokenKind::SymbolCurlyBracketLeft => SpecTokenKind::SymbolCurlyBracketLeft,
            TokenKind::SymbolCurlyBracketRight => SpecTokenKind::SymbolCurlyBracketRight,
            TokenKind::SymbolDoubleEqual => SpecTokenKind::SymbolDoubleEqual,
            TokenKind::SymbolExclamationAndEqual => SpecTokenKind::SymbolExclamationAndEqual,
            TokenKind::SymbolEqual => SpecTokenKind::SymbolEqual,
            TokenKind::SymbolSemicolon => SpecTokenKind::SymbolSemicolon,
            TokenKind::SymbolComma => SpecTokenKind::SymbolComma,
            TokenKind::EOF => SpecTokenKind::EOF,
        }
    }
}

/// A token: its kind and the byte offset in the source at which its
/// lexeme starts.
#[derive(Debug, Clone)]
pub struct Token {
    pub kind: TokenKind,
    pub index_start: usize,
}

/// The abstraction of a token.
pub struct SpecToken {
    pub kind: SpecTokenKind,
    pub index_start: nat,
}

impl DeepView for Token {
    type V = SpecToken;

    open spec fn deep_view(&self) -> SpecToken {
        SpecToken { kind: self.kind.deep_view(), index_start: self.index_start as nat }
    }
}

impl Token {
    pub fn new(kind: TokenKind, index_start: usize) -> (t: Self)
        ensures
            t.kind == kind,
            t.index_start == index_start,
    {
        Self { kind, index_start }
    }
}

} // verus!
