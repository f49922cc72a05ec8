//! The tokenizer: turns a byte slice into a sequence of tokens by
//! maximal-munch rules.
//!
//! Every scanning step is specified by [`spec_scan`], a function of the
//! text and the current byte index alone; the executable methods are
//! proved to return exactly what it says. That the result depends on
//! nothing but `(text, index)` is the determinism guarantee of the
//! tokenizer.
//!
//! Rule order per step: skip ASCII whitespace; emit `EOF` at the end of
//! input (once; later calls return nothing); try a two-byte punctuator;
//! then a one-byte punctuator; then an integer literal; then an
//! identifier, reclassified as a keyword when the lexeme is one.

use vstd::prelude::*;
use vstd::string::*;

use crate::token::{SpecToken, SpecTokenKind, Token, TokenKind};

verus! {

// ---------------------------------------------------------------------------
// Byte classes
// ---------------------------------------------------------------------------

/// ASCII whitespace: space, tab, newline, carriage return, form feed,
/// vertical tab.
pub open spec fn is_ws_byte(b: u8) -> bool {
    b == 0x20 || b == 0x09 || b == 0x0a || b == 0x0d || b == 0x0c || b == 0x0b
}

/// An ASCII decimal digit.
pub open spec fn is_digit_byte(b: u8) -> bool {
    0x30 <= b && b <= 0x39
}

/// A byte that may start an identifier: a letter or `_`.
pub open spec fn is_ident_start_byte(b: u8) -> bool {
    b == 0x5f || (0x41 <= b && b <= 0x5a) || (0x61 <= b && b <= 0x7a)
}

/// A byte that may continue an identifier.
pub open spec fn is_ident_byte(b: u8) -> bool {
    is_ident_start_byte(b) || is_digit_byte(b)
}

/// ASCII bytes read as characters, one character per byte.
pub open spec fn bytes_to_chars(s: Seq<u8>) -> Seq<char> {
    s.map_values(|b: u8| b as char)
}

// ---------------------------------------------------------------------------
// Whitespace and lexeme extents
// ---------------------------------------------------------------------------

/// The first index at or after `i` that holds a non-whitespace byte, or
/// the end of the text.
pub open spec fn skip_ws(t: Seq<u8>, i: nat) -> nat
    decreases t.len() - i,
{
    if i < t.len() && is_ws_byte(t[i as int]) {
        skip_ws(t, i + 1)
    } else {
        i
    }
}

pub proof fn lemma_skip_ws_bounds(t: Seq<u8>, i: nat)
    ensures
        i <= skip_ws(t, i),
        i <= t.len() ==> skip_ws(t, i) <= t.len(),
        i > t.len() ==> skip_ws(t, i) == i,
    decreases t.len() - i,
{
    if i < t.len() && is_ws_byte(t[i as int]) {
        lemma_skip_ws_bounds(t, i + 1);
    }
}

pub proof fn lemma_skip_ws_idempotent(t: Seq<u8>, i: nat)
    ensures
        skip_ws(t, skip_ws(t, i)) == skip_ws(t, i),
    decreases t.len() - i,
{
    if i < t.len() && is_ws_byte(t[i as int]) {
        lemma_skip_ws_idempotent(t, i + 1);
    }
}

/// The end of the run of decimal digits starting at `i`.
pub open spec fn digit_run_end(t: Seq<u8>, i: nat) -> nat
    decreases t.len() - i,
{
    if i < t.len() && is_digit_byte(t[i as int]) {
        digit_run_end(t, i + 1)
    } else {
        i
    }
}

pub proof fn lemma_digit_run_end_bounds(t: Seq<u8>, i: nat)
    ensures
        i <= digit_run_end(t, i),
        i <= t.len() ==> digit_run_end(t, i) <= t.len(),
        forall|m: int| i <= m < digit_run_end(t, i) ==> is_digit_byte(#[trigger] t[m]),
    decreases t.len() - i,
{
    if i < t.len() && is_digit_byte(t[i as int]) {
        lemma_digit_run_end_bounds(t, i + 1);
    }
}

/// The end of the run of identifier bytes starting at `i`.
pub open spec fn ident_run_end(t: Seq<u8>, i: nat) -> nat
    decreases t.len() - i,
{
    if i < t.len() && is_ident_byte(t[i as int]) {
        ident_run_end(t, i + 1)
    } else {
        i
    }
}

pub proof fn lemma_ident_run_end_bounds(t: Seq<u8>, i: nat)
    ensures
        i <= ident_run_end(t, i),
        i <= t.len() ==> ident_run_end(t, i) <= t.len(),
    decreases t.len() - i,
{
    if i < t.len() && is_ident_byte(t[i as int]) {
        lemma_ident_run_end_bounds(t, i + 1);
    }
}

// ---------------------------------------------------------------------------
// Integer literals
// ---------------------------------------------------------------------------

/// The value of the decimal digits `t[i..j)`.
pub open spec fn digits_val(t: Seq<u8>, i: nat, j: nat) -> int
    decreases j - i,
{
    if i >= j {
        0
    } else {
        digits_val(t, i, (j - 1) as nat) * 10 + (t[j - 1] - 0x30)
    }
}

pub proof fn lemma_digits_val_bounds(t: Seq<u8>, i: nat, j: nat)
    requires
        forall|m: int| i <= m < j && m < t.len() ==> is_digit_byte(#[trigger] t[m]),
        j <= t.len(),
    ensures
        0 <= digits_val(t, i, j),
        forall|m: nat| i <= m <= j ==> #[trigger] digits_val(t, i, m) <= digits_val(t, i, j),
    decreases j - i,
{
    if i < j {
        lemma_digits_val_bounds(t, i, (j - 1) as nat);
        assert forall|m: nat| i <= m <= j implies #[trigger] digits_val(t, i, m) <= digits_val(
            t,
            i,
            j,
        ) by {
            if m < j {
                assert(digits_val(t, i, m) <= digits_val(t, i, (j - 1) as nat));
            }
        };
    }
}

/// The end of the digit body of an integer literal anchored at `i`:
/// a lone `0`, or a nonzero digit followed by the maximal digit run.
pub open spec fn int_body_end(t: Seq<u8>, i: nat) -> nat {
    if i < t.len() && t[i as int] == 0x30u8 {
        i + 1
    } else {
        digit_run_end(t, i)
    }
}

/// The integer literal anchored at `i`, if any: an optional `-`, then
/// `0` or a nonzero digit followed by further digits. Yields the value
/// and the end index.
pub open spec fn spec_int_lexeme(t: Seq<u8>, i: nat) -> Option<(int, nat)> {
    if i < t.len() && is_digit_byte(t[i as int]) {
        Some((digits_val(t, i, int_body_end(t, i)), int_body_end(t, i)))
    } else if i + 1 < t.len() && t[i as int] == 0x2du8 && is_digit_byte(t[i as int + 1]) {
        Some((-digits_val(t, i + 1, int_body_end(t, i + 1)), int_body_end(t, i + 1)))
    } else {
        None
    }
}

// ---------------------------------------------------------------------------
// Identifiers and keywords
// ---------------------------------------------------------------------------

/// The end of the identifier anchored at `i`, if one starts there.
pub open spec fn spec_ident_end(t: Seq<u8>, i: nat) -> Option<nat> {
    if i < t.len() && is_ident_start_byte(t[i as int]) {
        Some(ident_run_end(t, i + 1))
    } else {
        None
    }
}

pub open spec fn kw_return() -> Seq<u8> {
    seq![0x72u8, 0x65u8, 0x74u8, 0x75u8, 0x72u8, 0x6eu8]
}

pub open spec fn kw_if() -> Seq<u8> {
    seq![0x69u8, 0x66u8]
}

pub open spec fn kw_else() -> Seq<u8> {
    seq![0x65u8, 0x6cu8, 0x73u8, 0x65u8]
}

pub open spec fn kw_while() -> Seq<u8> {
    seq![0x77u8, 0x68u8, 0x69u8, 0x6cu8, 0x65u8]
}

pub open spec fn kw_for() -> Seq<u8> {
    seq![0x66u8, 0x6fu8, 0x72u8]
}

/// The token kind of an identifier lexeme: the keyword kind when the
/// lexeme is a keyword, otherwise `Identifier`.
pub open spec fn ident_kind(lex: Seq<u8>) -> SpecTokenKind {
    if lex == kw_return() {
        SpecTokenKind::KeywordReturn
    } else if lex == kw_if() {
        SpecTokenKind::KeywordIf
    } else if lex == kw_else() {
        SpecTokenKind::KeywordElse
    } else if lex == kw_while() {
        SpecTokenKind::KeywordWhile
    } else if lex == kw_for() {
        SpecTokenKind::KeywordFor
    } else {
        SpecTokenKind::Identifier(bytes_to_chars(lex))
    }
}

/// Keyword exclusion: an identifier lexeme equal to a keyword is
/// always classified as that keyword, and an `Identifier` kind never
/// carries a keyword's lexeme.
pub proof fn lemma_keyword_exclusion(lex: Seq<u8>)
    ensures
        lex == kw_return() ==> ident_kind(lex) == SpecTokenKind::KeywordReturn,
        lex == kw_if() ==> ident_kind(lex) == SpecTokenKind::KeywordIf,
        lex == kw_else() ==> ident_kind(lex) == SpecTokenKind::KeywordElse,
        lex == kw_while() ==> ident_kind(lex) == SpecTokenKind::KeywordWhile,
        lex == kw_for() ==> ident_kind(lex) == SpecTokenKind::KeywordFor,
        ident_kind(lex) matches SpecTokenKind::Identifier(s) ==> s == bytes_to_chars(lex)
            && lex != kw_return() && lex != kw_if() && lex != kw_else() && lex != kw_while()
            && lex != kw_for(),
{
}

// ---------------------------------------------------------------------------
// One scanning step
// ---------------------------------------------------------------------------

/// The kind of the one-byte punctuator `b`, if it is one.
pub open spec fn one_char_kind(b: u8) -> Option<SpecTokenKind> {
    if b == 0x2b {
        Some(SpecTokenKind::SymbolPlus)
    } else if b == 0x2d {
        Some(SpecTokenKind::SymbolMinus)
    } else if b == 0x2a {
        Some(SpecTokenKind::SymbolStar)
    } else if b == 0x2f {
        Some(SpecTokenKind::SymbolSlash)
    } else if b == 0x28 {
        Some(SpecTokenKind::SymbolRoundBracketLeft)
    } else if b == 0x29 {
        Some(SpecTokenKind::SymbolRoundBracketRight)
    } else if b == 0x3c {
        Some(SpecTokenKind::SymbolAngleBracketLeft)
    } else if b == 0x3e {
        Some(SpecTokenKind::SymbolAngleBracketRight)
    } else if b == 0x7b {
        Some(SpecTokenKind::SymbolCurlyBracketLeft)
    } else if b == 0x7d {
        Some(SpecTokenKind::SymbolCurlyBracketRight)
    } else if b == 0x3d {
        Some(SpecTokenKind::SymbolEqual)
    } else if b == 0x3b {
        Some(SpecTokenKind::SymbolSemicolon)
    } else if b == 0x2c {
        Some(SpecTokenKind::SymbolComma)
    } else {
        None
    }
}

/// The kind of the two-byte punctuator `b0 b1`, if it is one:
/// `<=`, `>=`, `==`, `!=`.
pub open spec fn two_char_kind(b0: u8, b1: u8) -> Option<SpecTokenKind> {
    if b0 == 0x3c && b1 == 0x3d {
        Some(SpecTokenKind::SymbolAngleBracketLeftAndEqual)
    } else if b0 == 0x3e && b1 == 0x3d {
        Some(SpecTokenKind::SymbolAngleBracketRightAndEqual)
    } else if b0 == 0x3d && b1 == 0x3d {
        Some(SpecTokenKind::SymbolDoubleEqual)
    } else if b0 == 0x21 && b1 == 0x3d {
        Some(SpecTokenKind::SymbolExclamationAndEqual)
    } else {
        None
    }
}

/// One scanning step at index `i`: the token's kind, its start (after
/// whitespace), and the index at which scanning continues. `None` when
/// the text is exhausted past its `EOF`, or when no rule matches.
pub open spec fn spec_scan(t: Seq<u8>, i: nat) -> Option<(SpecTokenKind, nat, nat)> {
    let s = skip_ws(t, i);
    if s > t.len() {
        None
    } else if s == t.len() {
        Some((SpecTokenKind::EOF, s, (s + 1) as nat))
    } else {
        let b0 = t[s as int];
        let two = if s + 1 < t.len() {
            two_char_kind(b0, t[s as int + 1])
        } else {
            None
        };
        match two {
            Some(k) => Some((k, s, (s + 2) as nat)),
            None => match one_char_kind(b0) {
                Some(k) => Some((k, s, (s + 1) as nat)),
                None => match spec_int_lexeme(t, s) {
                    Some((v, e)) => Some((SpecTokenKind::Integer(v), s, e)),
                    None => match spec_ident_end(t, s) {
                        Some(e) => Some((ident_kind(t.subrange(s as int, e as int)), s, e)),
                        None => None,
                    },
                },
            },
        }
    }
}

pub proof fn lemma_scan_bounds(t: Seq<u8>, i: nat)
    ensures
        match spec_scan(t, i) {
            Some((k, s, e)) => i <= s && s < e && e <= t.len() + 1 && (k != SpecTokenKind::EOF
                ==> e <= t.len()),
            None => true,
        },
{
    lemma_skip_ws_bounds(t, i);
    let s = skip_ws(t, i);
    if s < t.len() {
        lemma_digit_run_end_bounds(t, s);
        lemma_digit_run_end_bounds(t, s + 1);
        lemma_ident_run_end_bounds(t, s + 1);
    }
}

/// Whether the integer literal scanned at `i`, if any, fits a 32-bit
/// signed integer.
pub open spec fn scan_int_ok(t: Seq<u8>, i: nat) -> bool {
    match spec_scan(t, i) {
        Some((SpecTokenKind::Integer(v), s, e)) => i32::MIN <= v <= i32::MAX,
        _ => true,
    }
}

/// Whether every integer literal in the text, scanned from index `i`
/// on, fits a 32-bit signed integer.
pub open spec fn ints_fit_from(t: Seq<u8>, i: nat) -> bool
    decreases t.len() + 1 - i,
    via ints_fit_from_dec
{
    match spec_scan(t, i) {
        None => true,
        Some((k, s, e)) => match k {
            SpecTokenKind::EOF => true,
            SpecTokenKind::Integer(v) => i32::MIN <= v <= i32::MAX && ints_fit_from(t, e),
            _ => ints_fit_from(t, e),
        },
    }
}

#[via_fn]
proof fn ints_fit_from_dec(t: Seq<u8>, i: nat) {
    lemma_scan_bounds(t, i);
}

/// The whole token sequence of the text from index `i` on, ending with
/// the `EOF` token (or earlier, where no rule matches).
pub open spec fn spec_token_list(t: Seq<u8>, i: nat) -> Seq<SpecToken>
    decreases t.len() + 1 - i,
    via spec_token_list_dec
{
    match spec_scan(t, i) {
        None => Seq::empty(),
        Some((k, s, e)) => {
            let tok = SpecToken { kind: k, index_start: s };
            if k == SpecTokenKind::EOF {
                seq![tok]
            } else {
                seq![tok] + spec_token_list(t, e)
            }
        },
    }
}

#[via_fn]
proof fn spec_token_list_dec(t: Seq<u8>, i: nat) {
    lemma_scan_bounds(t, i);
}

// ---------------------------------------------------------------------------
// Executable byte classes
// ---------------------------------------------------------------------------

fn ws_byte(b: u8) -> (r: bool)
    ensures
        r == is_ws_byte(b),
{
    b == 0x20 || b == 0x09 || b == 0x0a || b == 0x0d || b == 0x0c || b == 0x0b
}

fn digit_byte(b: u8) -> (r: bool)
    ensures
        r == is_digit_byte(b),
{
    0x30 <= b && b <= 0x39
}

fn ident_start_byte(b: u8) -> (r: bool)
    ensures
        r == is_ident_start_byte(b),
{
    b == 0x5f || (0x41 <= b && b <= 0x5a) || (0x61 <= b && b <= 0x7a)
}

fn ident_byte(b: u8) -> (r: bool)
    ensures
        r == is_ident_byte(b),
{
    ident_start_byte(b) || digit_byte(b)
}

/// Relies on `String::from_utf8`: decoding bytes below 128 yields the
/// same characters, one per byte.
#[verifier::external_body]
fn ascii_to_string(v: &Vec<u8>) -> (s: String)
    requires
        forall|i: int| 0 <= i < v@.len() ==> v@[i] < 128,
    ensures
        s@ == bytes_to_chars(v@),
{
    String::from_utf8(v.clone()).unwrap()
}

// ---------------------------------------------------------------------------
// The tokenizer
// ---------------------------------------------------------------------------

/// A cursor over the source bytes. Each `consume` call yields the next
/// token as [`spec_scan`] describes, or nothing once the sequence is
/// exhausted.
#[derive(Debug)]
pub struct Tokenizer<'a> {
    index: usize,
    text: &'a [u8],
}

/// The common shape of a scanning method's contract: on a scanned
/// token, the returned token matches it and the index moves to its
/// end; otherwise nothing is returned and the index stays.
pub open spec fn step_result(
    i0: nat,
    i1: nat,
    r: Option<Token>,
    sc: Option<(SpecTokenKind, nat, nat)>,
) -> bool {
    match sc {
        Some((k, s, e)) => (r matches Some(tok) && tok.kind.deep_view() == k && tok.index_start
            == s) && i1 == e,
        None => r is None && i1 == i0,
    }
}

impl<'a> Tokenizer<'a> {
    /// The source bytes.
    pub closed spec fn text_bytes(&self) -> Seq<u8> {
        self.text@
    }

    /// The current byte index.
    pub closed spec fn spec_index(&self) -> nat {
        self.index as nat
    }

    /// The index never runs more than one byte past the end (one past
    /// marks the `EOF` token as already produced).
    pub open spec fn wf(&self) -> bool {
        self.spec_index() <= self.text_bytes().len() + 1 && self.text_bytes().len() + 2
            <= usize::MAX
    }

    pub fn new(text: &'a str) -> (r: Self)
        requires
            text.spec_bytes().len() + 2 <= usize::MAX,
        ensures
            r.wf(),
            r.text_bytes() == text.spec_bytes(),
            r.spec_index() == 0,
    {
        Self::new_bytes(text.as_bytes())
    }

    /// A tokenizer over raw bytes.
    pub fn new_bytes(text: &'a [u8]) -> (r: Self)
        requires
            text@.len() + 2 <= usize::MAX,
        ensures
            r.wf(),
            r.text_bytes() == text@,
            r.spec_index() == 0,
    {
        Self { index: 0, text }
    }

    fn skip_whitespaces(&mut self)
        requires
            old(self).wf(),
        ensures
            final(self).wf(),
            final(self).text_bytes() == old(self).text_bytes(),
            final(self).spec_index() == skip_ws(old(self).text_bytes(), old(self).spec_index()),
    {
        let ghost t = self.text@;
        let ghost i0 = self.index as nat;
        while self.index < self.text.len() && ws_byte(self.text[self.index])
            invariant
                self.text@ == t,
                self.index <= t.len() + 1,
                t.len() + 2 <= usize::MAX,
                skip_ws(t, self.index as nat) == skip_ws(t, i0),
            decreases t.len() - self.index,
        {
            self.index = self.index + 1;
        }
    }

    /// Scans a one-byte punctuator, or the `EOF` token at the end of
    /// the input. Past the end it returns nothing.
    pub fn consume_char(&mut self) -> (r: Option<Token>)
        requires
            old(self).wf(),
        ensures
            final(self).wf(),
            final(self).text_bytes() == old(self).text_bytes(),
            step_result(
                old(self).spec_index(),
                final(self).spec_index(),
                r,
                spec_consume_char(old(self).text_bytes(), old(self).spec_index()),
            ),
    {
        if self.index >= self.text.len() {
            if self.index == self.text.len() {
                let tok = Token::new(TokenKind::EOF, self.index);
                self.index = self.index + 1;
                Some(tok)
            } else {
                None
            }
        } else {
            let b = self.text[self.index];
            let kind: Option<TokenKind> = match b {
                0x2b => Some(TokenKind::SymbolPlus),
                0x2d => Some(TokenKind::SymbolMinus),
                0x2a => Some(TokenKind::SymbolStar),
                0x2f => Some(TokenKind::SymbolSlash),
                0x28 => Some(TokenKind::SymbolRoundBracketLeft),
                0x29 => Some(TokenKind::SymbolRoundBracketRight),
                0x3c => Some(TokenKind::SymbolAngleBracketLeft),
                0x3e => Some(TokenKind::SymbolAngleBracketRight),
                0x7b => Some(TokenKind::SymbolCurlyBracketLeft),
                0x7d => Some(TokenKind::SymbolCurlyBracketRight),
                0x3d => Some(TokenKind::SymbolEqual),
                0x3b => Some(TokenKind::SymbolSemicolon),
                0x2c => Some(TokenKind::SymbolComma),
                _ => None,
            };
            match kind {
                Some(k) => {
                    let tok = Token::new(k, self.index);
                    self.index = self.index + 1;
                    Some(tok)
                },
                None => None,
            }
        }
    }

    /// Scans a two-byte punctuator: `<=`, `>=`, `==`, `!=`.
    pub fn consume_2_chars(&mut self) -> (r: Option<Token>)
        requires
            old(self).wf(),
        ensures
            final(self).wf(),
            final(self).text_bytes() == old(self).text_bytes(),
            step_result(
                old(self).spec_index(),
                final(self).spec_index(),
                r,
                spec_consume_2_chars(old(self).text_bytes(), old(self).spec_index()),
            ),
    {
        if self.index < self.text.len() && self.index + 1 < self.text.len() {
            let b0 = self.text[self.index];
            let b1 = self.text[self.index + 1];
            let kind: Option<TokenKind> = if b0 == 0x3c && b1 == 0x3d {
                Some(TokenKind::SymbolAngleBracketLeftAndEqual)
            } else if b0 == 0x3e && b1 == 0x3d {
                Some(TokenKind::SymbolAngleBracketRightAndEqual)
            } else if b0 == 0x3d && b1 == 0x3d {
                Some(TokenKind::SymbolDoubleEqual)
            } else if b0 == 0x21 && b1 == 0x3d {
                Some(TokenKind::SymbolExclamationAndEqual)
            } else {
                None
            };
            match kind {
                Some(k) => {
                    let tok = Token::new(k, self.index);
                    self.index = self.index + 2;
                    Some(tok)
                },
                None => None,
            }
        } else {
            None
        }
    }

    /// Scans an integer literal: an optional `-`, then `0` or a
    /// nonzero digit followed by further digits.
    pub fn consume_integer(&mut self) -> (r: Option<Token>)
        requires
            old(self).wf(),
            match spec_int_lexeme(old(self).text_bytes(), old(self).spec_index()) {
                Some((v, e)) => i32::MIN <= v <= i32::MAX,
                None => true,
            },
        ensures
            final(self).wf(),
            final(self).text_bytes() == old(self).text_bytes(),
            step_result(
                old(self).spec_index(),
                final(self).spec_index(),
                r,
                match spec_int_lexeme(old(self).text_bytes(), old(self).spec_index()) {
                    Some((v, e)) => Some(
                        (SpecTokenKind::Integer(v), old(self).spec_index(), e),
                    ),
                    None => None,
                },
            ),
    {
        let ghost t = self.text@;
        let i = self.index;
        if i < self.text.len() && digit_byte(self.text[i]) {
            let e = self.digit_body_end(i);
            let v = self.digits_value(i, e);
            proof {
                assert(spec_int_lexeme(t, i as nat) == Some(
                    (digits_val(t, i as nat, int_body_end(t, i as nat)), int_body_end(
                        t,
                        i as nat,
                    )),
                ));
            }
            self.index = e;
            Some(Token::new(TokenKind::Integer(v), i))
        } else if i + 1 < self.text.len() && self.text[i] == 0x2d && digit_byte(
            self.text[i + 1],
        ) {
            let e = self.digit_body_end(i + 1);
            let v = self.digits_value_neg(i + 1, e);
            self.index = e;
            Some(Token::new(TokenKind::Integer(v), i))
        } else {
            None
        }
    }

    /// The end of the integer digit body anchored at `i`, which must
    /// hold a digit.
    fn digit_body_end(&self, i: usize) -> (e: usize)
        requires
            self.wf(),
            i < self.text_bytes().len(),
            is_digit_byte(self.text_bytes()[i as int]),
        ensures
            e == int_body_end(self.text_bytes(), i as nat),
            i < e <= self.text_bytes().len(),
            forall|m: int| i <= m < e ==> is_digit_byte(#[trigger] self.text_bytes()[m]),
    {
        let ghost t = self.text@;
        if self.text[i] == 0x30 {
            i + 1
        } else {
            let mut j = i + 1;
            while j < self.text.len() && digit_byte(self.text[j])
                invariant
                    self.wf(),
                    self.text@ == t,
                    i < j <= t.len(),
                    digit_run_end(t, j as nat) == digit_run_end(t, i as nat),
                decreases t.len() - j,
            {
                j = j + 1;
            }
            proof {
                lemma_digit_run_end_bounds(t, i as nat);
            }
            j
        }
    }

    /// The value of the digits `self.text[i..e)` as a 32-bit integer.
    fn digits_value(&self, i: usize, e: usize) -> (v: i32)
        requires
            self.wf(),
            i < e <= self.text_bytes().len(),
            forall|m: int| i <= m < e ==> is_digit_byte(#[trigger] self.text_bytes()[m]),
            digits_val(self.text_bytes(), i as nat, e as nat) <= i32::MAX,
        ensures
            v == digits_val(self.text_bytes(), i as nat, e as nat),
    {
        let ghost t = self.text@;
        proof {
            lemma_digits_val_bounds(t, i as nat, e as nat);
        }
        let mut acc: i64 = 0;
        let mut j = i;
        while j < e
            invariant
                self.wf(),
                self.text@ == t,
                i <= j <= e <= t.len(),
                forall|m: int| i <= m < e ==> is_digit_byte(#[trigger] t[m]),
                digits_val(t, i as nat, e as nat) <= i32::MAX,
                0 <= digits_val(t, i as nat, e as nat),
                forall|m: nat|
                    i <= m <= e ==> #[trigger] digits_val(t, i as nat, m) <= digits_val(
                        t,
                        i as nat,
                        e as nat,
                    ),
                0 <= acc == digits_val(t, i as nat, j as nat),
            decreases e - j,
        {
            let b = self.text[j];
            proof {
                assert(is_digit_byte(t[j as int]));
                assert(digits_val(t, i as nat, (j + 1) as nat) <= digits_val(t, i as nat, e as nat));
                assert(digits_val(t, i as nat, (j + 1) as nat) == digits_val(t, i as nat, j as nat)
                    * 10 + (t[j as int] - 0x30));
            }
            acc = acc * 10 + ((b - 0x30) as i64);
            j = j + 1;
        }
        acc as i32
    }

    /// The value of `-` followed by the digits `self.text[i..e)`.
    fn digits_value_neg(&self, i: usize, e: usize) -> (v: i32)
        requires
            self.wf(),
            i < e <= self.text_bytes().len(),
            forall|m: int| i <= m < e ==> is_digit_byte(#[trigger] self.text_bytes()[m]),
            -digits_val(self.text_bytes(), i as nat, e as nat) >= i32::MIN,
        ensures
            v == -digits_val(self.text_bytes(), i as nat, e as nat),
    {
        let ghost t = self.text@;
        proof {
            lemma_digits_val_bounds(t, i as nat, e as nat);
        }
        let mut acc: i64 = 0;
        let mut j = i;
        while j < e
            invariant
                self.wf(),
                self.text@ == t,
                i <= j <= e <= t.len(),
                forall|m: int| i <= m < e ==> is_digit_byte(#[trigger] t[m]),
                -digits_val(t, i as nat, e as nat) >= i32::MIN,
                0 <= digits_val(t, i as nat, e as nat),
                forall|m: nat|
                    i <= m <= e ==> #[trigger] digits_val(t, i as nat, m) <= digits_val(
                        t,
                        i as nat,
                        e as nat,
                    ),
                0 <= acc == digits_val(t, i as nat, j as nat),
            decreases e - j,
        {
            let b = self.text[j];
            proof {
                assert(is_digit_byte(t[j as int]));
                assert(digits_val(t, i as nat, (j + 1) as nat) <= digits_val(t, i as nat, e as nat));
                assert(digits_val(t, i as nat, (j + 1) as nat) == digits_val(t, i as nat, j as nat)
                    * 10 + (t[j as int] - 0x30));
            }
            acc = acc * 10 + ((b - 0x30) as i64);
            j = j + 1;
        }
        (-acc) as i32
    }

    /// Scans an identifier, reclassifying keyword lexemes.
    pub fn consume_identifier(&mut self) -> (r: Option<Token>)
        requires
            old(self).wf(),
        ensures
            final(self).wf(),
            final(self).text_bytes() == old(self).text_bytes(),
            step_result(
                old(self).spec_index(),
                final(self).spec_index(),
                r,
                match spec_ident_end(old(self).text_bytes(), old(self).spec_index()) {
                    Some(e) => Some(
                        (
                            ident_kind(
                                old(self).text_bytes().subrange(
                                    old(self).spec_index() as int,
                                    e as int,
                                ),
                            ),
                            old(self).spec_index(),
                            e,
                        ),
                    ),
                    None => None,
                },
            ),
    {
        let ghost t = self.text@;
        let i = self.index;
        if i < self.text.len() && ident_start_byte(self.text[i]) {
            let mut j = i + 1;
            let mut lex: Vec<u8> = Vec::new();
            lex.push(self.text[i]);
            while j < self.text.len() && ident_byte(self.text[j])
                invariant
                    self.wf(),
                    self.text@ == t,
                    i < j <= t.len(),
                    ident_run_end(t, j as nat) == ident_run_end(t, (i + 1) as nat),
                    lex@ == t.subrange(i as int, j as int),
                    forall|m: int| 0 <= m < lex@.len() ==> #[trigger] lex@[m] < 128,
                decreases t.len() - j,
            {
                lex.push(self.text[j]);
                proof {
                    assert(lex@ =~= t.subrange(i as int, j + 1));
                }
                j = j + 1;
            }
            proof {
                lemma_ident_run_end_bounds(t, (i + 1) as nat);
            }
            let kind = ident_token_kind(lex);
            self.index = j;
            Some(Token::new(kind, i))
        } else {
            None
        }
    }

    /// One whole scanning step, as [`spec_scan`] describes: skip
    /// whitespace, then try, in order, the two-byte punctuators, the
    /// one-byte punctuators and `EOF`, integer literals, identifiers.
    ///
    /// The result is a function of the text and the starting index
    /// alone: equal positions in equal texts always yield the equal
    /// token, whatever was consumed before.
    pub fn consume(&mut self) -> (r: Option<Token>)
        requires
            old(self).wf(),
            scan_int_ok(old(self).text_bytes(), old(self).spec_index()),
        ensures
            final(self).wf(),
            final(self).text_bytes() == old(self).text_bytes(),
            step_result(
                skip_ws(old(self).text_bytes(), old(self).spec_index()),
                final(self).spec_index(),
                r,
                spec_scan(old(self).text_bytes(), old(self).spec_index()),
            ),
    {
        proof {
            lemma_skip_ws_bounds(self.text@, self.index as nat);
        }
        self.skip_whitespaces();
        let r2 = self.consume_2_chars();
        if r2.is_some() {
            return r2;
        }
        let r1 = self.consume_char();
        if r1.is_some() {
            return r1;
        }
        let ri = self.consume_integer();
        if ri.is_some() {
            return ri;
        }
        self.consume_identifier()
    }

    /// Wraps the tokenizer for step-by-step iteration.
    pub fn into_iter(self) -> (r: TokenizerIterator<'a>)
        ensures
            r.tokenizer == self,
    {
        TokenizerIterator { tokenizer: self }
    }
}

/// The one-byte-punctuator-or-`EOF` step of scanning, tried after the
/// two-byte punctuators.
pub open spec fn spec_consume_char(t: Seq<u8>, i: nat) -> Option<(SpecTokenKind, nat, nat)> {
    if i == t.len() {
        Some((SpecTokenKind::EOF, i, (i + 1) as nat))
    } else if i > t.len() {
        None
    } else {
        match one_char_kind(t[i as int]) {
            Some(k) => Some((k, i, (i + 1) as nat)),
            None => None,
        }
    }
}

/// The two-byte-punctuator step of scanning.
pub open spec fn spec_consume_2_chars(t: Seq<u8>, i: nat) -> Option<(SpecTokenKind, nat, nat)> {
    if i + 1 < t.len() {
        match two_char_kind(t[i as int], t[i as int + 1]) {
            Some(k) => Some((k, i, (i + 2) as nat)),
            None => None,
        }
    } else {
        None
    }
}

/// The token kind of the identifier lexeme `lex`: one of the five
/// keywords, or `Identifier` with the lexeme as its text.
fn ident_token_kind(lex: Vec<u8>) -> (k: TokenKind)
    requires
        forall|i: int| 0 <= i < lex@.len() ==> lex@[i] < 128,
    ensures
        k.deep_view() == ident_kind(lex@),
{
    let n = lex.len();
    if n == 6 && lex[0] == 0x72 && lex[1] == 0x65 && lex[2] == 0x74 && lex[3] == 0x75 && lex[4]
        == 0x72 && lex[5] == 0x6e {
        proof {
            assert(lex@ =~= kw_return());
        }
        TokenKind::KeywordReturn
    } else if n == 2 && lex[0] == 0x69 && lex[1] == 0x66 {
        proof {
            assert(lex@ =~= kw_if());
        }
        TokenKind::KeywordIf
    } else if n == 4 && lex[0] == 0x65 && lex[1] == 0x6c && lex[2] == 0x73 && lex[3] == 0x65 {
        proof {
            assert(lex@ =~= kw_else());
        }
        TokenKind::KeywordElse
    } else if n == 5 && lex[0] == 0x77 && lex[1] == 0x68 && lex[2] == 0x69 && lex[3] == 0x6c
        && lex[4] == 0x65 {
        proof {
            assert(lex@ =~= kw_while());
        }
        TokenKind::KeywordWhile
    } else if n == 3 && lex[0] == 0x66 && lex[1] == 0x6f && lex[2] == 0x72 {
        proof {
            assert(lex@ =~= kw_for());
        }
        TokenKind::KeywordFor
    } else {
        proof {
            assert(lex@ != kw_return());
            assert(lex@ != kw_if());
            assert(lex@ != kw_else());
            assert(lex@ != kw_while());
            assert(lex@ != kw_for());
        }
        TokenKind::Identifier(ascii_to_string(&lex))
    }
}

/// Step-by-step iteration over a tokenizer's tokens.
pub struct TokenizerIterator<'a> {
    pub tokenizer: Tokenizer<'a>,
}

impl<'a> TokenizerIterator<'a> {
    /// The next token, as [`Tokenizer::consume`] yields it.
    pub fn next(&mut self) -> (r: Option<Token>)
        requires
            old(self).tokenizer.wf(),
            scan_int_ok(old(self).tokenizer.text_bytes(), old(self).tokenizer.spec_index()),
        ensures
            final(self).tokenizer.wf(),
            final(self).tokenizer.text_bytes() == old(self).tokenizer.text_bytes(),
            step_result(
                skip_ws(old(self).tokenizer.text_bytes(), old(self).tokenizer.spec_index()),
                final(self).tokenizer.spec_index(),
                r,
                spec_scan(old(self).tokenizer.text_bytes(), old(self).tokenizer.spec_index()),
            ),
    {
        self.tokenizer.consume()
    }
}

} // verus!
