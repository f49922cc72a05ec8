//! Compile errors and their rendering.

use vstd::prelude::*;
use vstd::string::*;

use crate::decimal::{dec_digits, push_dec_u64};
use crate::token::{SpecTokenKind, TokenKind};

verus! {

impl TokenKind {
    /// The name under which this kind appears in error messages.
    pub fn token_kind_display(&self) -> (r: &'static str)
        ensures
            r@ == spec_token_kind_display(self.deep_view()),
    {
        match self {
            Self::Integer(_) => "integer",
            Self::Identifier(_) => "identifier",
            Self::KeywordReturn => "return",
            Self::KeywordIf => "if",
            Self::KeywordElse => "else",
            Self::KeywordWhile => "while",
            Self::KeywordFor => "for",
            Self::SymbolPlus => "'+'",
            Self::SymbolMinus => "'-'",
            Self::SymbolStar => "'*'",
            Self::SymbolSlash => "'/'",
            Self::SymbolRoundBracketLeft => "'('",
            Self::SymbolRoundBracketRight => "')'",
            Self::SymbolAngleBracketLeft => "'<'",
            Self::SymbolAngleBracketRight => "'>'",
            Self::SymbolAngleBracketLeftAndEqual => "'<='",
            Self::SymbolAngleBracketRightAndEqual => "'>='",
            Self::SymbolCurlyBracketLeft => "'{'",
            Self::SymbolCurlyBracketRight => "'}'",
            Self::SymbolDoubleEqual => "'=='",
            Self::SymbolExclamationAndEqual => "'!='",
            Self::SymbolEqual => "'='",
            Self::SymbolSemicolon => "';'",
            Self::SymbolComma => "','",
            Self::EOF => "EOF",
        }
    }
}

/// The error-message name of a token kind.
pub open spec fn spec_token_kind_display(k: SpecTokenKind) -> Seq<char> {
    match k {
        SpecTokenKind::Integer(_) => "integer"@,
        SpecTokenKind::Identifier(_) => "identifier"@,
        SpecTokenKind::KeywordReturn => "return"@,
        SpecTokenKind::KeywordIf => "if"@,
        SpecTokenKind::KeywordElse => "else"@,
        SpecTokenKind::KeywordWhile => "while"@,
        SpecTokenKind::KeywordFor => "for"@,
        SpecTokenKind::SymbolPlus => "'+'"@,
        SpecTokenKind::SymbolMinus => "'-'"@,
        SpecTokenKind::SymbolStar => "'*'"@,
        SpecTokenKind::SymbolSlash => "'/'"@,
        SpecTokenKind::SymbolRoundBracketLeft => "'('"@,
        SpecTokenKind::SymbolRoundBracketRight => "')'"@,
        SpecTokenKind::SymbolAngleBracketLeft => "'<'"@,
        SpecTokenKind::SymbolAngleBracketRight => "'>'"@,
        SpecTokenKind::SymbolAngleBracketLeftAndEqual => "'<='"@,
        SpecTokenKind::SymbolAngleBracketRightAndEqual => "'>='"@,
        SpecTokenKind::SymbolCurlyBracketLeft => "'{'"@,
        SpecTokenKind::SymbolCurlyBracketRight => "'}'"@,
        SpecTokenKind::SymbolDoubleEqual => "'=='"@,
        SpecTokenKind::SymbolExclamationAndEqual => "'!='"@,
        SpecTokenKind::SymbolEqual => "'='"@,
        SpecTokenKind::SymbolSemicolon => "';'"@,
        SpecTokenKind::SymbolComma => "','"@,
        SpecTokenKind::EOF => "EOF"@,
    }
}

/// What went wrong: an unmet expectation, an exhausted token stream,
/// or an assignment to something that is no l-value.
#[derive(Debug, PartialEq)]
pub enum CompileErrorKind {
    UnexpectedToken { expected: Vec<TokenKind> },
    UnexpectedEOF,
    NotALeftValue,
}

/// The abstraction of an error kind.
pub enum SpecCompileErrorKind {
    UnexpectedToken { expected: Seq<SpecTokenKind> },
    UnexpectedEOF,
    NotALeftValue,
}

impl DeepView for CompileErrorKind {
    type V = SpecCompileErrorKind;

    open spec fn deep_view(&self) -> SpecCompileErrorKind {
        match self {
            CompileErrorKind::UnexpectedToken { expected } => {
                SpecCompileErrorKind::UnexpectedToken { expected: expected.deep_view() }
            },
            CompileErrorKind::UnexpectedEOF => SpecCompileErrorKind::UnexpectedEOF,
            CompileErrorKind::NotALeftValue => SpecCompileErrorKind::NotALeftValue,
        }
    }
}

/// A compile error: its kind and the byte offset in the source at
/// which it was raised.
#[derive(Debug, PartialEq)]
pub struct CompileError {
    kind: CompileErrorKind,
    index_start: usize,
}

/// The abstraction of a compile error.
pub struct SpecCompileError {
    pub kind: SpecCompileErrorKind,
    pub index_start: nat,
}

impl DeepView for CompileError {
    type V = SpecCompileError;

    closed spec fn deep_view(&self) -> SpecCompileError {
        SpecCompileError {
            kind: self.kind.deep_view(),
            index_start: self.index_start as nat,
        }
    }
}

impl CompileError {
    /// An `UnexpectedToken` error at `index_start`, listing the kinds
    /// that would have been accepted.
    pub fn unexpected_token(index_start: usize, expected: Vec<TokenKind>) -> (r: Self)
        ensures
            r.deep_view() == (SpecCompileError {
                kind: SpecCompileErrorKind::UnexpectedToken { expected: expected.deep_view() },
                index_start: index_start as nat,
            }),
    {
        Self { kind: CompileErrorKind::UnexpectedToken { expected }, index_start }
    }

    /// An `UnexpectedEOF` error at `index_start`.
    pub fn unexpected_eof(index_start: usize) -> (r: Self)
        ensures
            r.deep_view() == (SpecCompileError {
                kind: SpecCompileErrorKind::UnexpectedEOF,
                index_start: index_start as nat,
            }),
    {
        Self { kind: CompileErrorKind::UnexpectedEOF, index_start }
    }

    /// A `NotALeftValue` error at `index_start`.
    pub fn not_a_left_value(index_start: usize) -> (r: Self)
        ensures
            r.deep_view() == (SpecCompileError {
                kind: SpecCompileErrorKind::NotALeftValue,
                index_start: index_start as nat,
            }),
    {
        Self { kind: CompileErrorKind::NotALeftValue, index_start }
    }

    /// The error's message, without the source echo.
    pub fn message(&self) -> (r: String)
        ensures
            r@ == spec_error_message(self.deep_view()),
    {
        let mut out = String::new();
        out.append("Compile error: ");
        match &self.kind {
            CompileErrorKind::UnexpectedToken { expected } => {
                out.append("unexpected token at ");
                push_dec_u64(&mut out, self.index_start as u64);
                out.append("\n");
                out.append("expected the one of [");
                let mut i: usize = 0;
                proof {
                    assert(joined_displays(expected.deep_view().subrange(0, 0)) =~= Seq::<
                        char,
                    >::empty());
                    assert(out@ =~= "Compile error: "@ + "unexpected token at "@ + dec_digits(
                        self.index_start as nat,
                    ) + "\n"@ + "expected the one of ["@ + joined_displays(
                        expected.deep_view().subrange(0, 0),
                    ));
                }
                while i < expected.len()
                    invariant
                        i <= expected.len(),
                        expected.deep_view().len() == expected.len(),
                        out@ == "Compile error: "@ + "unexpected token at "@ + dec_digits(
                            self.index_start as nat,
                        ) + "\n"@ + "expected the one of ["@ + joined_displays(
                            expected.deep_view().subrange(0, i as int),
                        ),
                    decreases expected.len() - i,
                {
                    if i > 0 {
                        out.append(", ");
                    }
                    let d = expected[i].token_kind_display();
                    out.append(d);
                    proof {
                        let pre = expected.deep_view().subrange(0, i as int);
                        let post = expected.deep_view().subrange(0, i + 1);
                        assert(pre =~= post.drop_last());
                        assert(expected.deep_view()[i as int] == expected@[i as int].deep_view());
                        assert(post.last() == expected.deep_view()[i as int]);
                        if i > 0 {
                            assert(joined_displays(post) == joined_displays(pre) + ", "@
                                + spec_token_kind_display(post.last()));
                        } else {
                            assert(joined_displays(post) == spec_token_kind_display(post.last()));
                            assert(joined_displays(pre) =~= Seq::<char>::empty());
                        }
                        assert(out@ =~= "Compile error: "@ + "unexpected token at "@ + dec_digits(
                            self.index_start as nat,
                        ) + "\n"@ + "expected the one of ["@ + joined_displays(post));
                    }
                    i = i + 1;
                }
                out.append("]\n");
                proof {
                    assert(expected.deep_view().subrange(0, expected@.len() as int)
                        =~= expected.deep_view());
                    assert(out@ =~= spec_error_message(self.deep_view()));
                }
            },
            CompileErrorKind::UnexpectedEOF => {
                out.append("unexpected EOF at ");
                push_dec_u64(&mut out, self.index_start as u64);
                out.append("\n");
                proof {
                    assert(out@ =~= spec_error_message(self.deep_view()));
                }
            },
            CompileErrorKind::NotALeftValue => {
                out.append("left value expected at ");
                push_dec_u64(&mut out, self.index_start as u64);
                out.append("\n");
                proof {
                    assert(out@ =~= spec_error_message(self.deep_view()));
                }
            },
        }
        out
    }

    /// Pairs the error with the source text for rendering.
    pub fn into_formatter<'a>(self, text: &'a str) -> (r: CompileErrorFormatter<'a>)
        ensures
            r.error.deep_view() == self.deep_view(),
            r.text@ == text@,
    {
        CompileErrorFormatter::new(self, text)
    }
}

/// The display names of the expected kinds, joined with `", "`.
pub open spec fn joined_displays(s: Seq<SpecTokenKind>) -> Seq<char>
    decreases s.len(),
{
    if s.len() == 0 {
        Seq::empty()
    } else if s.len() == 1 {
        spec_token_kind_display(s.last())
    } else {
        joined_displays(s.drop_last()) + ", "@ + spec_token_kind_display(s.last())
    }
}

/// The error's message: `"Compile error: "`, what happened and at
/// which offset, and for an unmet expectation the accepted kinds.
pub open spec fn spec_error_message(e: SpecCompileError) -> Seq<char> {
    "Compile error: "@ + match e.kind {
        SpecCompileErrorKind::UnexpectedToken { expected } => "unexpected token at "@ + dec_digits(
            e.index_start,
        ) + "\n"@ + "expected the one of ["@ + joined_displays(expected) + "]\n"@,
        SpecCompileErrorKind::UnexpectedEOF => "unexpected EOF at "@ + dec_digits(e.index_start)
            + "\n"@,
        SpecCompileErrorKind::NotALeftValue => "left value expected at "@ + dec_digits(
            e.index_start,
        ) + "\n"@,
    }
}

/// `n` spaces.
pub open spec fn spec_spaces(n: nat) -> Seq<char>
    decreases n,
{
    if n == 0 {
        Seq::empty()
    } else {
        spec_spaces((n - 1) as nat).push(' ')
    }
}

/// The full rendering of an error against its source: the message, a
/// blank-separated echo of the source, and a caret under the offset.
pub open spec fn spec_formatted_error(e: SpecCompileError, text: Seq<char>) -> Seq<char> {
    spec_error_message(e) + "\n"@ + text + spec_spaces(e.index_start) + "^\n"@
}

/// A compile error together with the source text it arose in.
pub struct CompileErrorFormatter<'a> {
    pub error: CompileError,
    pub text: &'a str,
}

impl<'a> CompileErrorFormatter<'a> {
    pub fn new(error: CompileError, text: &'a str) -> (r: Self)
        ensures
            r.error.deep_view() == error.deep_view(),
            r.text@ == text@,
    {
        Self { error, text }
    }

    /// The rendered two-part diagnostic: message, then the source with
    /// a caret under the error offset.
    pub fn message(&self) -> (r: String)
        ensures
            r@ == spec_formatted_error(self.error.deep_view(), self.text@),
    {
        let mut out = self.error.message();
        out.append("\n");
        out.append(self.text);
        let n = self.error.index_start;
        let mut i: usize = 0;
        let ghost mid = out@;
        while i < n
            invariant
                i <= n,
                out@ == mid + spec_spaces(i as nat),
            decreases n - i,
        {
            out.append(" ");
            proof {
                reveal_strlit(" ");
                assert(out@ =~= mid + spec_spaces((i + 1) as nat));
            }
            i = i + 1;
        }
        out.append("^\n");
        proof {
            assert(out@ =~= spec_formatted_error(self.error.deep_view(), self.text@));
        }
        out
    }
}

} // verus!
