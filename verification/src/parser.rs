//! The recursive-descent parser.
//!
//! The grammar, layered from lowest to highest precedence:
//!
//! ```text
//! program      = { statement } EOF
//! statement    = "{" { statement } "}"
//!              | "return" expression ";"
//!              | "if" "(" expression ")" statement [ "else" statement ]
//!              | "while" "(" expression ")" statement
//!              | "for" "(" [expression] ";" [expression] ";" [expression] ")" statement
//!              | expression ";"
//! expression   = assign
//! assign       = equality [ "=" assign ]
//! equality     = relational { ("==" | "!=") relational }
//! relational   = add { ("<" | ">" | "<=" | ">=") add }
//! add          = mul { ("+" | "-") mul }
//! mul          = unary { ("*" | "/") unary }
//! unary        = "+" primary | "-" primary | primary
//! primary      = INTEGER | IDENT [ "(" [ expression { "," expression } ] ")" ] | "(" expression ")"
//! ```
//!
//! Every production is written twice: a `spec` function that defines
//! the result (node, error, token position, variable slots and label
//! counter) as a mathematical function of the token sequence, and an
//! executable method proved to return exactly that.
//!
//! The `spec` productions guard the positions returned by their
//! sub-parses through [`chain`], which the executable parser's
//! contracts prove to be the identity; the guard only serves the
//! termination argument of the mutual recursion.

use vstd::prelude::*;
use vstd::string::*;

use crate::ast::{deep_view_seq, lemma_deep_view_seq_push, wf_seq, Node, SpecNode};
use crate::decimal::{dec_digits, push_dec_u64};
use crate::error::{CompileError, SpecCompileError, SpecCompileErrorKind};
use crate::token::{SpecToken, SpecTokenKind, Token, TokenKind};
use crate::tokenizer::{ints_fit_from, lemma_scan_bounds, lemma_skip_ws_bounds, lemma_skip_ws_idempotent, spec_scan, spec_token_list, Tokenizer};

verus! {

// ---------------------------------------------------------------------------
// Ghost parser state
// ---------------------------------------------------------------------------

/// The parser's mutable state: the token position, the local-variable
/// table in insertion order (the variable at index `i` lives at frame
/// offset `(i + 1) * 8`), and the last label suffix handed out.
pub struct SpecParserState {
    pub pos: nat,
    pub locals: Seq<Seq<char>>,
    pub suffix: nat,
}


/// The token kind at `pos`, if any.
pub open spec fn peek_kind(toks: Seq<SpecToken>, pos: nat) -> Option<SpecTokenKind> {
    if pos < toks.len() {
        Some(toks[pos as int].kind)
    } else {
        None
    }
}

/// The byte offset reported for a diagnostic at token position `pos`:
/// the token's start, or the text length when the stream is exhausted.
pub open spec fn cur_index(toks: Seq<SpecToken>, tl: nat, pos: nat) -> nat {
    if pos < toks.len() {
        toks[pos as int].index_start
    } else {
        tl
    }
}

/// An `UnexpectedToken` diagnostic at token position `pos`.
pub open spec fn err_unexpected(
    toks: Seq<SpecToken>,
    tl: nat,
    pos: nat,
    expected: Seq<SpecTokenKind>,
) -> SpecCompileError {
    SpecCompileError {
        kind: SpecCompileErrorKind::UnexpectedToken { expected },
        index_start: cur_index(toks, tl, pos),
    }
}



/// The index of `name` in the local table, if present.
pub open spec fn spec_find_local(locals: Seq<Seq<char>>, name: Seq<char>) -> Option<nat>
    decreases locals.len(),
{
    if locals.len() == 0 {
        None
    } else if locals[0] == name {
        Some(0)
    } else {
        match spec_find_local(locals.subrange(1, locals.len() as int), name) {
            Some(i) => Some(i + 1),
            None => None,
        }
    }
}





/// What one spec production yields: a node or an error, and the state
/// it leaves behind (also on an error: a failed sub-parse may have
/// consumed tokens, inserted variables or minted labels).
pub struct SpecParseOut {
    pub res: Result<SpecNode, SpecCompileError>,
    pub st: SpecParserState,
}

/// The state one token further on.
pub open spec fn advance(st: SpecParserState) -> SpecParserState {
    SpecParserState { pos: st.pos + 1, locals: st.locals, suffix: st.suffix }
}

/// Guards a sub-parse's resulting state for the termination measure: a
/// successful sub-parse moves the position forward and stays within
/// the tokens, a failed one never moves it backward. The executable
/// parser's contracts prove both, making `chain` the identity; the
/// guard only serves the termination argument of the mutual recursion.
pub open spec fn chain(n: nat, st0: SpecParserState, st1: SpecParserState, ok: bool) -> SpecParserState {
    if ok {
        if st0.pos < st1.pos && st1.pos <= n {
            st1
        } else {
            SpecParserState { pos: st0.pos + 1, locals: st1.locals, suffix: st1.suffix }
        }
    } else {
        if st0.pos <= st1.pos && st1.pos <= n {
            st1
        } else {
            st0
        }
    }
}

/// The label `.Lend<n>`.
pub open spec fn label_end(n: nat) -> Seq<char> {
    ".Lend"@ + dec_digits(n)
}

/// The label `.Lelse<n>`.
pub open spec fn label_else(n: nat) -> Seq<char> {
    ".Lelse"@ + dec_digits(n)
}

/// The label `.Lbegin<n>`.
pub open spec fn label_begin(n: nat) -> Seq<char> {
    ".Lbegin"@ + dec_digits(n)
}

/// The abstraction of an optional node.
pub open spec fn opt_node_view(o: Option<Node>) -> Option<SpecNode> {
    match o {
        Some(n) => Some(n.deep_view()),
        None => None,
    }
}

/// Whether `k` is an equality operator.
pub open spec fn is_eq_op(k: SpecTokenKind) -> bool {
    k == SpecTokenKind::SymbolDoubleEqual || k == SpecTokenKind::SymbolExclamationAndEqual
}

/// The node one equality step builds.
pub open spec fn eq_op_node(k: SpecTokenKind, lhs: SpecNode, rhs: SpecNode) -> SpecNode {
    if k == SpecTokenKind::SymbolDoubleEqual {
        SpecNode::OperatorEq { lhs: Box::new(lhs), rhs: Box::new(rhs) }
    } else {
        SpecNode::OperatorNe { lhs: Box::new(lhs), rhs: Box::new(rhs) }
    }
}

/// Whether `k` is a relational operator.
pub open spec fn is_rel_op(k: SpecTokenKind) -> bool {
    k == SpecTokenKind::SymbolAngleBracketLeft || k == SpecTokenKind::SymbolAngleBracketRight
        || k == SpecTokenKind::SymbolAngleBracketLeftAndEqual
        || k == SpecTokenKind::SymbolAngleBracketRightAndEqual
}

/// The node one relational step builds: `>` and `>=` swap the
/// operands of `<` and `<=`, so the tree has no greater-than
/// variants.
pub open spec fn rel_op_node(k: SpecTokenKind, lhs: SpecNode, rhs: SpecNode) -> SpecNode {
    if k == SpecTokenKind::SymbolAngleBracketLeft {
        SpecNode::OperatorLt { lhs: Box::new(lhs), rhs: Box::new(rhs) }
    } else if k == SpecTokenKind::SymbolAngleBracketRight {
        SpecNode::OperatorLt { lhs: Box::new(rhs), rhs: Box::new(lhs) }
    } else if k == SpecTokenKind::SymbolAngleBracketLeftAndEqual {
        SpecNode::OperatorLtEq { lhs: Box::new(lhs), rhs: Box::new(rhs) }
    } else {
        SpecNode::OperatorLtEq { lhs: Box::new(rhs), rhs: Box::new(lhs) }
    }
}

/// Whether `k` is an additive operator.
pub open spec fn is_add_op(k: SpecTokenKind) -> bool {
    k == SpecTokenKind::SymbolPlus || k == SpecTokenKind::SymbolMinus
}

/// The node one additive step builds.
pub open spec fn add_op_node(k: SpecTokenKind, lhs: SpecNode, rhs: SpecNode) -> SpecNode {
    if k == SpecTokenKind::SymbolPlus {
        SpecNode::OperatorAdd { lhs: Box::new(lhs), rhs: Box::new(rhs) }
    } else {
        SpecNode::OperatorSub { lhs: Box::new(lhs), rhs: Box::new(rhs) }
    }
}

/// Whether `k` is a multiplicative operator.
pub open spec fn is_mul_op(k: SpecTokenKind) -> bool {
    k == SpecTokenKind::SymbolStar || k == SpecTokenKind::SymbolSlash
}

/// The node one multiplicative step builds.
pub open spec fn mul_op_node(k: SpecTokenKind, lhs: SpecNode, rhs: SpecNode) -> SpecNode {
    if k == SpecTokenKind::SymbolStar {
        SpecNode::OperatorMul { lhs: Box::new(lhs), rhs: Box::new(rhs) }
    } else {
        SpecNode::OperatorDiv { lhs: Box::new(lhs), rhs: Box::new(rhs) }
    }
}

// ---------------------------------------------------------------------------
// The grammar as spec functions
// ---------------------------------------------------------------------------

/// `program = { statement } EOF`, with `acc` the statements parsed so
/// far: the `Block` of all top-level statements, or the first
/// statement error.
pub open spec fn spec_program(
    toks: Seq<SpecToken>,
    tl: nat,
    st: SpecParserState,
    acc: Seq<SpecNode>,
) -> SpecParseOut
    decreases toks.len() + 1 - st.pos, 11int,
{
    if peek_kind(toks, st.pos) == Some(SpecTokenKind::EOF) {
        SpecParseOut { res: Ok(SpecNode::Block { statements: acc }), st: advance(st) }
    } else {
        let out = spec_statement(toks, tl, st);
        match out.res {
            Ok(nd) => {
                let st1 = chain(toks.len(), st, out.st, true);
                if st.pos < toks.len() {
                    spec_program(toks, tl, st1, acc.push(nd))
                } else {
                    SpecParseOut { res: Ok(SpecNode::Block { statements: acc.push(nd) }), st: st1 }
                }
            },
            Err(e) => SpecParseOut { res: Err(e), st: out.st },
        }
    }
}

/// `{ statement }` inside a block: statements until one fails to
/// parse; the failure is swallowed and ends the list.
pub open spec fn spec_block_items(
    toks: Seq<SpecToken>,
    tl: nat,
    st: SpecParserState,
    acc: Seq<SpecNode>,
) -> (Seq<SpecNode>, SpecParserState)
    decreases toks.len() + 1 - st.pos, 11int,
{
    let out = spec_statement(toks, tl, st);
    match out.res {
        Ok(nd) => {
            let st1 = chain(toks.len(), st, out.st, true);
            if st.pos < toks.len() {
                spec_block_items(toks, tl, st1, acc.push(nd))
            } else {
                (acc.push(nd), st1)
            }
        },
        Err(_) => (acc, chain(toks.len(), st, out.st, false)),
    }
}


/// A braced block, after its `{`: statements until one fails, then
/// the closing `}`.
pub open spec fn spec_block_statement(toks: Seq<SpecToken>, tl: nat, st: SpecParserState) -> SpecParseOut
    decreases toks.len() + 1 - st.pos, 12int,
{
    let (items, st1) = spec_block_items(toks, tl, st, Seq::empty());
    match peek_kind(toks, st1.pos) {
        Some(SpecTokenKind::SymbolCurlyBracketRight) => SpecParseOut {
            res: Ok(SpecNode::Block { statements: items }),
            st: advance(st1),
        },
        _ => SpecParseOut {
            res: Err(
                err_unexpected(toks, tl, st1.pos, seq![SpecTokenKind::SymbolCurlyBracketRight]),
            ),
            st: st1,
        },
    }
}

/// A `return` statement, after its keyword: the value, then `;`.
pub open spec fn spec_return_statement(toks: Seq<SpecToken>, tl: nat, st: SpecParserState) -> SpecParseOut
    decreases toks.len() + 1 - st.pos, 10int,
{
    let e = spec_expression(toks, tl, st);
    match e.res {
        Err(er) => SpecParseOut { res: Err(er), st: e.st },
        Ok(v) => {
            let st1 = chain(toks.len(), st, e.st, true);
            match peek_kind(toks, st1.pos) {
                Some(SpecTokenKind::SymbolSemicolon) => SpecParseOut {
                    res: Ok(SpecNode::Return { value: Box::new(v) }),
                    st: advance(st1),
                },
                _ => SpecParseOut {
                    res: Err(
                        err_unexpected(toks, tl, st1.pos, seq![SpecTokenKind::SymbolSemicolon]),
                    ),
                    st: st1,
                },
            }
        },
    }
}

/// One statement.
pub open spec fn spec_statement(toks: Seq<SpecToken>, tl: nat, st: SpecParserState) -> SpecParseOut
    decreases toks.len() + 1 - st.pos, 9int,
{
    match peek_kind(toks, st.pos) {
        Some(SpecTokenKind::SymbolCurlyBracketLeft) => spec_block_statement(
            toks,
            tl,
            advance(st),
        ),
        Some(SpecTokenKind::KeywordReturn) => spec_return_statement(toks, tl, advance(st)),
        Some(SpecTokenKind::KeywordIf) => spec_if_statement(toks, tl, advance(st)),
        Some(SpecTokenKind::KeywordWhile) => spec_while_statement(toks, tl, advance(st)),
        Some(SpecTokenKind::KeywordFor) => spec_for_statement(toks, tl, advance(st)),
        _ => {
            let e = spec_expression(toks, tl, st);
            match e.res {
                Err(er) => SpecParseOut { res: Err(er), st: e.st },
                Ok(v) => {
                    let st1 = chain(toks.len(), st, e.st, true);
                    match peek_kind(toks, st1.pos) {
                        Some(SpecTokenKind::SymbolSemicolon) => SpecParseOut {
                            res: Ok(v),
                            st: advance(st1),
                        },
                        _ => SpecParseOut {
                            res: Err(
                                err_unexpected(
                                    toks,
                                    tl,
                                    st1.pos,
                                    seq![SpecTokenKind::SymbolSemicolon],
                                ),
                            ),
                            st: st1,
                        },
                    }
                },
            }
        },
    }
}

/// An `if` statement, after its keyword: `( expression ) statement`
/// and an optional `else statement`. The label suffix is minted after
/// the branches are parsed.
pub open spec fn spec_if_statement(toks: Seq<SpecToken>, tl: nat, st: SpecParserState) -> SpecParseOut
    decreases toks.len() + 1 - st.pos, 9int,
{
    match peek_kind(toks, st.pos) {
        Some(SpecTokenKind::SymbolRoundBracketLeft) => {
            let c = spec_expression(toks, tl, advance(st));
            match c.res {
                Err(er) => SpecParseOut { res: Err(er), st: c.st },
                Ok(cond) => {
                    let st1 = chain(toks.len(), advance(st), c.st, true);
                    match peek_kind(toks, st1.pos) {
                        Some(SpecTokenKind::SymbolRoundBracketRight) => {
                            let s = spec_statement(toks, tl, advance(st1));
                            match s.res {
                                Err(er) => SpecParseOut { res: Err(er), st: s.st },
                                Ok(body) => spec_if_tail(
                                    toks,
                                    tl,
                                    cond,
                                    body,
                                    chain(toks.len(), advance(st1), s.st, true),
                                ),
                            }
                        },
                        _ => SpecParseOut {
                            res: Err(
                                err_unexpected(
                                    toks,
                                    tl,
                                    st1.pos,
                                    seq![SpecTokenKind::SymbolRoundBracketLeft],
                                ),
                            ),
                            st: st1,
                        },
                    }
                },
            }
        },
        _ => SpecParseOut {
            res: Err(
                err_unexpected(toks, tl, st.pos, seq![SpecTokenKind::SymbolRoundBracketLeft]),
            ),
            st: st,
        },
    }
}


/// The rest of an `if` after its guarded statement: an optional
/// `else` branch, then the labels, minted after both branches.
pub open spec fn spec_if_tail(
    toks: Seq<SpecToken>,
    tl: nat,
    cond: SpecNode,
    body: SpecNode,
    st: SpecParserState,
) -> SpecParseOut
    decreases toks.len() + 1 - st.pos, 10int,
{
    match peek_kind(toks, st.pos) {
        Some(SpecTokenKind::KeywordElse) => {
            let es = spec_statement(toks, tl, advance(st));
            match es.res {
                Err(er) => SpecParseOut { res: Err(er), st: es.st },
                Ok(ebody) => {
                    let st3 = chain(toks.len(), advance(st), es.st, true);
                    let ns = st3.suffix + 1;
                    SpecParseOut {
                        res: Ok(
                            SpecNode::IfElse {
                                condition: Box::new(cond),
                                statement: Box::new(body),
                                end_label: label_end(ns),
                                else_statement: Box::new(ebody),
                                else_label: label_else(ns),
                            },
                        ),
                        st: SpecParserState { pos: st3.pos, locals: st3.locals, suffix: ns },
                    }
                },
            }
        },
        _ => {
            let ns = st.suffix + 1;
            SpecParseOut {
                res: Ok(
                    SpecNode::If {
                        condition: Box::new(cond),
                        statement: Box::new(body),
                        end_label: label_end(ns),
                    },
                ),
                st: SpecParserState { pos: st.pos, locals: st.locals, suffix: ns },
            }
        },
    }
}

/// A `while` statement, after its keyword: `( expression ) statement`,
/// then the loop's labels.
pub open spec fn spec_while_statement(
    toks: Seq<SpecToken>,
    tl: nat,
    st: SpecParserState,
) -> SpecParseOut
    decreases toks.len() + 1 - st.pos, 9int,
{
    match peek_kind(toks, st.pos) {
        Some(SpecTokenKind::SymbolRoundBracketLeft) => {
            let c = spec_expression(toks, tl, advance(st));
            match c.res {
                Err(er) => SpecParseOut { res: Err(er), st: c.st },
                Ok(cond) => {
                    let st1 = chain(toks.len(), advance(st), c.st, true);
                    match peek_kind(toks, st1.pos) {
                        Some(SpecTokenKind::SymbolRoundBracketRight) => spec_while_tail(
                            toks,
                            tl,
                            cond,
                            advance(st1),
                        ),
                        _ => SpecParseOut {
                            res: Err(
                                err_unexpected(
                                    toks,
                                    tl,
                                    st1.pos,
                                    seq![SpecTokenKind::SymbolRoundBracketLeft],
                                ),
                            ),
                            st: st1,
                        },
                    }
                },
            }
        },
        _ => SpecParseOut {
            res: Err(
                err_unexpected(toks, tl, st.pos, seq![SpecTokenKind::SymbolRoundBracketLeft]),
            ),
            st: st,
        },
    }
}



/// The minting step of a `while`: the node with its fresh labels.
pub open spec fn spec_while_finish(cond: SpecNode, body: SpecNode, st: SpecParserState) -> SpecParseOut {
    let ns = st.suffix + 1;
    SpecParseOut {
        res: Ok(
            SpecNode::While {
                condition: Box::new(cond),
                statement: Box::new(body),
                begin_label: label_begin(ns),
                end_label: label_end(ns),
            },
        ),
        st: SpecParserState { pos: st.pos, locals: st.locals, suffix: ns },
    }
}

/// The minting step of a `for`: the node with its fresh labels.
pub open spec fn spec_for_finish(
    init: Option<SpecNode>,
    cond: Option<SpecNode>,
    upd: Option<SpecNode>,
    body: SpecNode,
    st: SpecParserState,
) -> SpecParseOut {
    let ns = st.suffix + 1;
    SpecParseOut {
        res: Ok(spec_for_node(init, cond, upd, body, label_begin(ns), label_end(ns))),
        st: SpecParserState { pos: st.pos, locals: st.locals, suffix: ns },
    }
}

/// The rest of a `while` after its closing `)`: the body, then the
/// loop's labels.
pub open spec fn spec_while_tail(
    toks: Seq<SpecToken>,
    tl: nat,
    cond: SpecNode,
    st: SpecParserState,
) -> SpecParseOut
    decreases toks.len() + 1 - st.pos, 10int,
{
    let s = spec_statement(toks, tl, st);
    match s.res {
        Err(er) => SpecParseOut { res: Err(er), st: s.st },
        Ok(body) => spec_while_finish(cond, body, chain(toks.len(), st, s.st, true)),
    }
}

/// A `for` statement, after its keyword: three optional header
/// clauses, each attempted as an expression and dropped when the
/// attempt fails, then the body.
pub open spec fn spec_for_statement(toks: Seq<SpecToken>, tl: nat, st: SpecParserState) -> SpecParseOut
    decreases toks.len() + 1 - st.pos, 9int,
{
    match peek_kind(toks, st.pos) {
        Some(SpecTokenKind::SymbolRoundBracketLeft) => {
            let st_a = advance(st);
            let i0 = spec_expression(toks, tl, st_a);
            let st_b = chain(toks.len(), st_a, i0.st, i0.res is Ok);
            match peek_kind(toks, st_b.pos) {
                Some(SpecTokenKind::SymbolSemicolon) => {
                    let st_c = advance(st_b);
                    let c0 = spec_expression(toks, tl, st_c);
                    let st_d = chain(toks.len(), st_c, c0.st, c0.res is Ok);
                    match peek_kind(toks, st_d.pos) {
                        Some(SpecTokenKind::SymbolSemicolon) => {
                            let st_e = advance(st_d);
                            let u0 = spec_expression(toks, tl, st_e);
                            let st_f = chain(toks.len(), st_e, u0.st, u0.res is Ok);
                            match peek_kind(toks, st_f.pos) {
                                Some(SpecTokenKind::SymbolRoundBracketRight) => spec_for_body(
                                    toks,
                                    tl,
                                    match i0.res {
                                        Ok(nd) => Some(nd),
                                        Err(_) => None,
                                    },
                                    match c0.res {
                                        Ok(nd) => Some(nd),
                                        Err(_) => None,
                                    },
                                    match u0.res {
                                        Ok(nd) => Some(nd),
                                        Err(_) => None,
                                    },
                                    advance(st_f),
                                ),
                                _ => SpecParseOut {
                                    res: Err(
                                        err_unexpected(
                                            toks,
                                            tl,
                                            st_f.pos,
                                            seq![SpecTokenKind::SymbolRoundBracketLeft],
                                        ),
                                    ),
                                    st: st_f,
                                },
                            }
                        },
                        _ => SpecParseOut {
                            res: Err(
                                err_unexpected(
                                    toks,
                                    tl,
                                    st_d.pos,
                                    seq![SpecTokenKind::SymbolSemicolon],
                                ),
                            ),
                            st: st_d,
                        },
                    }
                },
                _ => SpecParseOut {
                    res: Err(
                        err_unexpected(toks, tl, st_b.pos, seq![SpecTokenKind::SymbolSemicolon]),
                    ),
                    st: st_b,
                },
            }
        },
        _ => SpecParseOut {
            res: Err(
                err_unexpected(toks, tl, st.pos, seq![SpecTokenKind::SymbolRoundBracketLeft]),
            ),
            st: st,
        },
    }
}


/// The `for` node for the given clauses, body and labels.
pub open spec fn spec_for_node(
    init: Option<SpecNode>,
    cond: Option<SpecNode>,
    upd: Option<SpecNode>,
    body: SpecNode,
    begin_label: Seq<char>,
    end_label: Seq<char>,
) -> SpecNode {
    SpecNode::For {
        initializer: match init {
            Some(nd) => Some(Box::new(nd)),
            None => None,
        },
        condition: match cond {
            Some(nd) => Some(Box::new(nd)),
            None => None,
        },
        updater: match upd {
            Some(nd) => Some(Box::new(nd)),
            None => None,
        },
        statement: Box::new(body),
        begin_label: begin_label,
        end_label: end_label,
    }
}

/// The body of a `for` statement, after the closing `)` of its
/// header: the statement, then the loop's labels.
pub open spec fn spec_for_body(
    toks: Seq<SpecToken>,
    tl: nat,
    init: Option<SpecNode>,
    cond: Option<SpecNode>,
    upd: Option<SpecNode>,
    st: SpecParserState,
) -> SpecParseOut
    decreases toks.len() + 1 - st.pos, 10int,
{
    let s = spec_statement(toks, tl, st);
    match s.res {
        Err(er) => SpecParseOut { res: Err(er), st: s.st },
        Ok(body) => spec_for_finish(init, cond, upd, body, chain(toks.len(), st, s.st, true)),
    }
}

/// `expression = assign`.
pub open spec fn spec_expression(toks: Seq<SpecToken>, tl: nat, st: SpecParserState) -> SpecParseOut
    decreases toks.len() + 1 - st.pos, 8int,
{
    spec_assign(toks, tl, st)
}

/// `assign = equality [ "=" assign ]`, right-associative. The left
/// side must be an l-value; the check happens after the `=` is
/// consumed, and the diagnostic points at the left side's start.
pub open spec fn spec_assign(toks: Seq<SpecToken>, tl: nat, st: SpecParserState) -> SpecParseOut
    decreases toks.len() + 1 - st.pos, 7int,
{
    let idx = cur_index(toks, tl, st.pos);
    let eq = spec_equality(toks, tl, st);
    match eq.res {
        Err(er) => SpecParseOut { res: Err(er), st: eq.st },
        Ok(lhs) => {
            let st1 = chain(toks.len(), st, eq.st, true);
            if st.pos < toks.len() {
                spec_assign_rest(toks, tl, lhs, idx, st1)
            } else {
                SpecParseOut { res: Ok(lhs), st: st1 }
            }
        },
    }
}

/// The rest of an assignment after its left side: nothing, or `=`
/// followed (for an l-value left side) by the right side.
pub open spec fn spec_assign_rest(
    toks: Seq<SpecToken>,
    tl: nat,
    lhs: SpecNode,
    idx: nat,
    st: SpecParserState,
) -> SpecParseOut
    decreases toks.len() + 1 - st.pos, 10int,
{
    match peek_kind(toks, st.pos) {
        Some(SpecTokenKind::SymbolEqual) => {
            if !lhs.is_left_value() {
                SpecParseOut {
                    res: Err(
                        SpecCompileError {
                            kind: SpecCompileErrorKind::NotALeftValue,
                            index_start: idx,
                        },
                    ),
                    st: advance(st),
                }
            } else {
                let a = spec_assign(toks, tl, advance(st));
                match a.res {
                    Err(er) => SpecParseOut { res: Err(er), st: a.st },
                    Ok(rhs) => SpecParseOut {
                        res: Ok(
                            SpecNode::OperatorAssign { lhs: Box::new(lhs), rhs: Box::new(rhs) },
                        ),
                        st: a.st,
                    },
                }
            }
        },
        _ => SpecParseOut { res: Ok(lhs), st: st },
    }
}

/// `equality = relational { ("==" | "!=") relational }`,
/// left-associative.
pub open spec fn spec_equality(toks: Seq<SpecToken>, tl: nat, st: SpecParserState) -> SpecParseOut
    decreases toks.len() + 1 - st.pos, 6int,
{
    let r = spec_relational(toks, tl, st);
    match r.res {
        Err(er) => SpecParseOut { res: Err(er), st: r.st },
        Ok(nd) => {
            let st1 = chain(toks.len(), st, r.st, true);
            if st.pos < toks.len() {
                spec_equality_tail(toks, tl, nd, st1)
            } else {
                SpecParseOut { res: Ok(nd), st: st1 }
            }
        },
    }
}

/// The left-leaning tail of `equality`.
pub open spec fn spec_equality_tail(
    toks: Seq<SpecToken>,
    tl: nat,
    lhs: SpecNode,
    st: SpecParserState,
) -> SpecParseOut
    decreases toks.len() + 1 - st.pos, 6int,
{
    match peek_kind(toks, st.pos) {
        Some(k) => {
            if is_eq_op(k) {
                let r = spec_relational(toks, tl, advance(st));
                match r.res {
                    Err(er) => SpecParseOut { res: Err(er), st: r.st },
                    Ok(rhs) => spec_equality_tail(
                        toks,
                        tl,
                        eq_op_node(k, lhs, rhs),
                        chain(toks.len(), advance(st), r.st, true),
                    ),
                }
            } else {
                SpecParseOut { res: Ok(lhs), st: st }
            }
        },
        None => SpecParseOut { res: Ok(lhs), st: st },
    }
}

/// `relational = add { ("<" | ">" | "<=" | ">=") add }`,
/// left-associative.
pub open spec fn spec_relational(toks: Seq<SpecToken>, tl: nat, st: SpecParserState) -> SpecParseOut
    decreases toks.len() + 1 - st.pos, 5int,
{
    let r = spec_add(toks, tl, st);
    match r.res {
        Err(er) => SpecParseOut { res: Err(er), st: r.st },
        Ok(nd) => {
            let st1 = chain(toks.len(), st, r.st, true);
            if st.pos < toks.len() {
                spec_relational_tail(toks, tl, nd, st1)
            } else {
                SpecParseOut { res: Ok(nd), st: st1 }
            }
        },
    }
}

/// The left-leaning tail of `relational`.
pub open spec fn spec_relational_tail(
    toks: Seq<SpecToken>,
    tl: nat,
    lhs: SpecNode,
    st: SpecParserState,
) -> SpecParseOut
    decreases toks.len() + 1 - st.pos, 5int,
{
    match peek_kind(toks, st.pos) {
        Some(k) => {
            if is_rel_op(k) {
                let r = spec_add(toks, tl, advance(st));
                match r.res {
                    Err(er) => SpecParseOut { res: Err(er), st: r.st },
                    Ok(rhs) => spec_relational_tail(
                        toks,
                        tl,
                        rel_op_node(k, lhs, rhs),
                        chain(toks.len(), advance(st), r.st, true),
                    ),
                }
            } else {
                SpecParseOut { res: Ok(lhs), st: st }
            }
        },
        None => SpecParseOut { res: Ok(lhs), st: st },
    }
}

/// `add = mul { ("+" | "-") mul }`, left-associative.
pub open spec fn spec_add(toks: Seq<SpecToken>, tl: nat, st: SpecParserState) -> SpecParseOut
    decreases toks.len() + 1 - st.pos, 4int,
{
    let r = spec_mul(toks, tl, st);
    match r.res {
        Err(er) => SpecParseOut { res: Err(er), st: r.st },
        Ok(nd) => {
            let st1 = chain(toks.len(), st, r.st, true);
            if st.pos < toks.len() {
                spec_add_tail(toks, tl, nd, st1)
            } else {
                SpecParseOut { res: Ok(nd), st: st1 }
            }
        },
    }
}

/// The left-leaning tail of `add`.
pub open spec fn spec_add_tail(
    toks: Seq<SpecToken>,
    tl: nat,
    lhs: SpecNode,
    st: SpecParserState,
) -> SpecParseOut
    decreases toks.len() + 1 - st.pos, 4int,
{
    match peek_kind(toks, st.pos) {
        Some(k) => {
            if is_add_op(k) {
                let r = spec_mul(toks, tl, advance(st));
                match r.res {
                    Err(er) => SpecParseOut { res: Err(er), st: r.st },
                    Ok(rhs) => spec_add_tail(
                        toks,
                        tl,
                        add_op_node(k, lhs, rhs),
                        chain(toks.len(), advance(st), r.st, true),
                    ),
                }
            } else {
                SpecParseOut { res: Ok(lhs), st: st }
            }
        },
        None => SpecParseOut { res: Ok(lhs), st: st },
    }
}

/// `mul = unary { ("*" | "/") unary }`, left-associative.
pub open spec fn spec_mul(toks: Seq<SpecToken>, tl: nat, st: SpecParserState) -> SpecParseOut
    decreases toks.len() + 1 - st.pos, 3int,
{
    let r = spec_unary(toks, tl, st);
    match r.res {
        Err(er) => SpecParseOut { res: Err(er), st: r.st },
        Ok(nd) => {
            let st1 = chain(toks.len(), st, r.st, true);
            if st.pos < toks.len() {
                spec_mul_tail(toks, tl, nd, st1)
            } else {
                SpecParseOut { res: Ok(nd), st: st1 }
            }
        },
    }
}

/// The left-leaning tail of `mul`.
pub open spec fn spec_mul_tail(
    toks: Seq<SpecToken>,
    tl: nat,
    lhs: SpecNode,
    st: SpecParserState,
) -> SpecParseOut
    decreases toks.len() + 1 - st.pos, 3int,
{
    match peek_kind(toks, st.pos) {
        Some(k) => {
            if is_mul_op(k) {
                let r = spec_unary(toks, tl, advance(st));
                match r.res {
                    Err(er) => SpecParseOut { res: Err(er), st: r.st },
                    Ok(rhs) => spec_mul_tail(
                        toks,
                        tl,
                        mul_op_node(k, lhs, rhs),
                        chain(toks.len(), advance(st), r.st, true),
                    ),
                }
            } else {
                SpecParseOut { res: Ok(lhs), st: st }
            }
        },
        None => SpecParseOut { res: Ok(lhs), st: st },
    }
}

/// `unary = "+" primary | "-" primary | primary`: `+x` is `x`, and
/// `-x` is `0 - x`.
pub open spec fn spec_unary(toks: Seq<SpecToken>, tl: nat, st: SpecParserState) -> SpecParseOut
    decreases toks.len() + 1 - st.pos, 2int,
{
    match peek_kind(toks, st.pos) {
        Some(SpecTokenKind::SymbolPlus) => spec_primary(toks, tl, advance(st)),
        Some(SpecTokenKind::SymbolMinus) => {
            let r = spec_primary(toks, tl, advance(st));
            match r.res {
                Err(er) => SpecParseOut { res: Err(er), st: r.st },
                Ok(rhs) => SpecParseOut {
                    res: Ok(
                        SpecNode::OperatorSub {
                            lhs: Box::new(SpecNode::Integer { value: 0 }),
                            rhs: Box::new(rhs),
                        },
                    ),
                    st: r.st,
                },
            }
        },
        _ => spec_primary(toks, tl, st),
    }
}

/// `primary = INTEGER | IDENT [ "(" args ")" ] | "(" expression ")"`.
///
/// An identifier followed by `(` is a function call; otherwise it is a
/// local-variable reference, whose slot is the stored one or, for a
/// first appearance, the next free one.
pub open spec fn spec_primary(toks: Seq<SpecToken>, tl: nat, st: SpecParserState) -> SpecParseOut
    decreases toks.len() + 1 - st.pos, 1int,
{
    match peek_kind(toks, st.pos) {
        Some(SpecTokenKind::Integer(v)) => SpecParseOut {
            res: Ok(SpecNode::Integer { value: v }),
            st: advance(st),
        },
        Some(SpecTokenKind::Identifier(name)) => {
            let st1 = advance(st);
            match peek_kind(toks, st1.pos) {
                Some(SpecTokenKind::SymbolRoundBracketLeft) => spec_call_primary(
                    toks,
                    tl,
                    name,
                    advance(st1),
                ),
                _ => spec_var_primary(name, st1),
            }
        },
        Some(SpecTokenKind::SymbolRoundBracketLeft) => spec_paren_primary(toks, tl, advance(st)),
        _ => SpecParseOut {
            res: Err(
                err_unexpected(
                    toks,
                    tl,
                    st.pos,
                    seq![
                        SpecTokenKind::Integer(0),
                        SpecTokenKind::SymbolRoundBracketLeft,
                    ],
                ),
            ),
            st: st,
        },
    }
}

/// A local-variable reference: the stored slot, or the next free slot
/// `(count + 1) * 8` for a first appearance, which is recorded.
pub open spec fn spec_var_primary(name: Seq<char>, st: SpecParserState) -> SpecParseOut {
    match spec_find_local(st.locals, name) {
        Some(i) => SpecParseOut {
            res: Ok(SpecNode::LocalVariable { identifier: name, offset: (i + 1) * 8 }),
            st: st,
        },
        None => SpecParseOut {
            res: Ok(
                SpecNode::LocalVariable { identifier: name, offset: (st.locals.len() + 1) * 8 },
            ),
            st: SpecParserState {
                pos: st.pos,
                locals: st.locals.push(name),
                suffix: st.suffix,
            },
        },
    }
}

/// A parenthesized expression, after its `(`: the expression, then
/// the closing `)`.
pub open spec fn spec_paren_primary(toks: Seq<SpecToken>, tl: nat, st: SpecParserState) -> SpecParseOut
    decreases toks.len() + 1 - st.pos, 10int,
{
    let e = spec_expression(toks, tl, st);
    match e.res {
        Err(er) => SpecParseOut { res: Err(er), st: e.st },
        Ok(nd) => {
            let st1 = chain(toks.len(), st, e.st, true);
            match peek_kind(toks, st1.pos) {
                Some(SpecTokenKind::SymbolRoundBracketRight) => SpecParseOut {
                    res: Ok(nd),
                    st: advance(st1),
                },
                _ => SpecParseOut {
                    res: Err(
                        err_unexpected(
                            toks,
                            tl,
                            st1.pos,
                            seq![SpecTokenKind::SymbolRoundBracketRight],
                        ),
                    ),
                    st: st1,
                },
            }
        },
    }
}

/// A function call, after its name and opening `(`: the argument
/// list, then the closing `)`.
pub open spec fn spec_call_primary(
    toks: Seq<SpecToken>,
    tl: nat,
    name: Seq<char>,
    st: SpecParserState,
) -> SpecParseOut
    decreases toks.len() + 1 - st.pos, 10int,
{
    let (ares, st2) = spec_call_args(toks, tl, st);
    match ares {
        Err(er) => SpecParseOut { res: Err(er), st: st2 },
        Ok(args) => spec_call_finish(toks, tl, name, args, st2),
    }
}

/// The end of a call, after its arguments: the closing `)`.
pub open spec fn spec_call_finish(
    toks: Seq<SpecToken>,
    tl: nat,
    name: Seq<char>,
    args: Seq<SpecNode>,
    st: SpecParserState,
) -> SpecParseOut {
    match peek_kind(toks, st.pos) {
        Some(SpecTokenKind::SymbolRoundBracketRight) => SpecParseOut {
            res: Ok(SpecNode::FunctionCall { identifier: name, arguments: args }),
            st: advance(st),
        },
        _ => SpecParseOut {
            res: Err(
                err_unexpected(toks, tl, st.pos, seq![SpecTokenKind::SymbolRoundBracketRight]),
            ),
            st: st,
        },
    }
}

/// The argument list of a call, after the opening `(`: nothing when no
/// expression parses (the failed attempt is swallowed), else
/// comma-separated expressions, at most six.
pub open spec fn spec_call_args(
    toks: Seq<SpecToken>,
    tl: nat,
    st: SpecParserState,
) -> (Result<Seq<SpecNode>, SpecCompileError>, SpecParserState)
    decreases toks.len() + 1 - st.pos, 9int,
{
    let first = spec_expression(toks, tl, st);
    match first.res {
        Err(_) => (Ok(Seq::empty()), chain(toks.len(), st, first.st, false)),
        Ok(a0) => {
            let st1 = chain(toks.len(), st, first.st, true);
            if st.pos < toks.len() {
                spec_call_args_tail(toks, tl, st1, seq![a0])
            } else {
                (Ok(seq![a0]), st1)
            }
        },
    }
}

/// Further call arguments: while a comma follows, one more
/// expression. A seventh argument is refused where its comma stands,
/// with `)` expected instead.
pub open spec fn spec_call_args_tail(
    toks: Seq<SpecToken>,
    tl: nat,
    st: SpecParserState,
    acc: Seq<SpecNode>,
) -> (Result<Seq<SpecNode>, SpecCompileError>, SpecParserState)
    decreases toks.len() + 1 - st.pos, 9int,
{
    match peek_kind(toks, st.pos) {
        Some(SpecTokenKind::SymbolComma) => {
            if acc.len() >= 6 {
                (
                    Err(
                        err_unexpected(
                            toks,
                            tl,
                            st.pos,
                            seq![SpecTokenKind::SymbolRoundBracketRight],
                        ),
                    ),
                    st,
                )
            } else {
                let a = spec_expression(toks, tl, advance(st));
                match a.res {
                    Err(er) => (Err(er), a.st),
                    Ok(nd) => spec_call_args_tail(
                        toks,
                        tl,
                        chain(toks.len(), advance(st), a.st, true),
                        acc.push(nd),
                    ),
                }
            }
        },
        _ => (Ok(acc), st),
    }
}


/// The common shape of a parsing method's contract, against the spec
/// production `out`: the method leaves exactly the state the
/// production computes and returns the node or error it computes; a
/// returned node is well-formed; success moves the cursor forward,
/// failure never moves it back; and the variable table and label
/// counter grow by at most one step per consumed token.
pub open spec fn parse_post(
    pre: Parser,
    post: Parser,
    r: Result<Node, CompileError>,
    out: SpecParseOut,
) -> bool {
    &&& post.wf()
    &&& post.toks() == pre.toks()
    &&& post.tl() == pre.tl()
    &&& post.st() == out.st
    &&& match (r, out.res) {
        (Ok(nd), Ok(sn)) => nd.deep_view() == sn && sn.wf(),
        (Err(e), Err(se)) => e.deep_view() == se,
        _ => false,
    }
    &&& (r is Ok ==> pre.st().pos < post.st().pos)
    &&& pre.st().pos <= post.st().pos
    &&& post.st().suffix + pre.st().pos <= pre.st().suffix + post.st().pos
    &&& post.st().locals.len() + pre.st().pos <= pre.st().locals.len() + post.st().pos
}

/// Like [`parse_post`], for the chain tails, whose success may stand
/// still (an empty tail).
pub open spec fn parse_post_weak(
    pre: Parser,
    post: Parser,
    r: Result<Node, CompileError>,
    out: SpecParseOut,
) -> bool {
    &&& post.wf()
    &&& post.toks() == pre.toks()
    &&& post.tl() == pre.tl()
    &&& post.st() == out.st
    &&& match (r, out.res) {
        (Ok(nd), Ok(sn)) => nd.deep_view() == sn && sn.wf(),
        (Err(e), Err(se)) => e.deep_view() == se,
        _ => false,
    }
    &&& pre.st().pos <= post.st().pos
    &&& post.st().suffix + pre.st().pos <= pre.st().suffix + post.st().pos
    &&& post.st().locals.len() + pre.st().pos <= pre.st().locals.len() + post.st().pos
}

/// Like [`parse_post_weak`], for the methods that mint one label
/// suffix after their sub-parses: the counter may step once beyond
/// the consumed tokens.
pub open spec fn parse_post_mint(
    pre: Parser,
    post: Parser,
    r: Result<Node, CompileError>,
    out: SpecParseOut,
) -> bool {
    &&& post.wf()
    &&& post.toks() == pre.toks()
    &&& post.tl() == pre.tl()
    &&& post.st() == out.st
    &&& match (r, out.res) {
        (Ok(nd), Ok(sn)) => nd.deep_view() == sn && sn.wf(),
        (Err(e), Err(se)) => e.deep_view() == se,
        _ => false,
    }
    &&& pre.st().pos <= post.st().pos
    &&& post.st().suffix + pre.st().pos <= pre.st().suffix + post.st().pos + 1
    &&& post.st().locals.len() + pre.st().pos <= pre.st().locals.len() + post.st().pos
}

/// The contract shape of the argument-list methods, against the spec
/// production `out`.
pub open spec fn args_post(
    pre: Parser,
    post: Parser,
    r: Result<Vec<Node>, CompileError>,
    out: (Result<Seq<SpecNode>, SpecCompileError>, SpecParserState),
) -> bool {
    &&& post.wf()
    &&& post.toks() == pre.toks()
    &&& post.tl() == pre.tl()
    &&& post.st() == out.1
    &&& match (r, out.0) {
        (Ok(v), Ok(s)) => deep_view_seq(v@) == s && wf_seq(s) && s.len() <= 6,
        (Err(e), Err(se)) => e.deep_view() == se,
        _ => false,
    }
    &&& pre.st().pos <= post.st().pos
    &&& post.st().suffix + pre.st().pos <= pre.st().suffix + post.st().pos
    &&& post.st().locals.len() + pre.st().pos <= pre.st().locals.len() + post.st().pos
}

// ---------------------------------------------------------------------------
// The executable parser
// ---------------------------------------------------------------------------

/// The parser: the tokens of one source text, a cursor into them, the
/// local-variable table and the label counter.
pub struct Parser {
    text_len: usize,
    tokens: Vec<Token>,
    pos: usize,
    locals: Vec<String>,
    last_label_suffix: usize,
}




pub proof fn lemma_find_local_props(locals: Seq<Seq<char>>, name: Seq<char>)
    ensures
        match spec_find_local(locals, name) {
            Some(i) => i < locals.len() && locals[i as int] == name && (forall|j: int|
                0 <= j < i ==> locals[j] != name),
            None => forall|j: int| 0 <= j < locals.len() ==> locals[j] != name,
        },
    decreases locals.len(),
{
    if locals.len() > 0 && locals[0] != name {
        let sub = locals.subrange(1, locals.len() as int);
        lemma_find_local_props(sub, name);
        assert forall|j: int| 0 <= j < sub.len() implies sub[j] == locals[j + 1] by {}
        match spec_find_local(sub, name) {
            Some(i) => {
                assert(locals[i as int + 1] == sub[i as int]);
                assert forall|j: int| 0 <= j < i + 1 implies locals[j] != name by {
                    if j > 0 {
                        assert(sub[j - 1] != name);
                    }
                }
            },
            None => {
                assert forall|j: int| 0 <= j < locals.len() implies locals[j] != name by {
                    if j > 0 {
                        assert(sub[j - 1] != name);
                    }
                }
            },
        }
    }
}

/// The string `<prefix><n>` with `n` in decimal.
fn make_label(prefix: &str, n: usize) -> (s: String)
    ensures
        s@ == prefix@ + dec_digits(n as nat),
{
    let mut s = String::new();
    s.append(prefix);
    push_dec_u64(&mut s, n as u64);
    s
}


/// The equality node for the operator token `op`.
fn eq_node_of(op: TokenKind, lhs: Node, rhs: Node) -> (nd: Node)
    requires
        is_eq_op(op.deep_view()),
    ensures
        nd.deep_view() == eq_op_node(op.deep_view(), lhs.deep_view(), rhs.deep_view()),
        lhs.deep_view().wf() && rhs.deep_view().wf() ==> nd.deep_view().wf(),
{
    match op {
        TokenKind::SymbolDoubleEqual => Node::OperatorEq {
            lhs: Box::new(lhs),
            rhs: Box::new(rhs),
        },
        _ => Node::OperatorNe { lhs: Box::new(lhs), rhs: Box::new(rhs) },
    }
}

/// The relational node for the operator token `op`: `>` and `>=`
/// swap the operands of `<` and `<=`.
fn rel_node_of(op: TokenKind, lhs: Node, rhs: Node) -> (nd: Node)
    requires
        is_rel_op(op.deep_view()),
    ensures
        nd.deep_view() == rel_op_node(op.deep_view(), lhs.deep_view(), rhs.deep_view()),
        lhs.deep_view().wf() && rhs.deep_view().wf() ==> nd.deep_view().wf(),
{
    match op {
        TokenKind::SymbolAngleBracketLeft => Node::OperatorLt {
            lhs: Box::new(lhs),
            rhs: Box::new(rhs),
        },
        TokenKind::SymbolAngleBracketRight => Node::OperatorLt {
            lhs: Box::new(rhs),
            rhs: Box::new(lhs),
        },
        TokenKind::SymbolAngleBracketLeftAndEqual => Node::OperatorLtEq {
            lhs: Box::new(lhs),
            rhs: Box::new(rhs),
        },
        _ => Node::OperatorLtEq { lhs: Box::new(rhs), rhs: Box::new(lhs) },
    }
}


/// The `for` node for the given clauses, body and labels.
fn for_node_of(
    initializer: Option<Node>,
    condition: Option<Node>,
    updater: Option<Node>,
    statement: Node,
    begin_label: String,
    end_label: String,
) -> (nd: Node)
    ensures
        nd.deep_view() == spec_for_node(
            opt_node_view(initializer),
            opt_node_view(condition),
            opt_node_view(updater),
            statement.deep_view(),
            begin_label@,
            end_label@,
        ),
        (match initializer {
            Some(x) => x.deep_view().wf(),
            None => true,
        }) && (match condition {
            Some(x) => x.deep_view().wf(),
            None => true,
        }) && (match updater {
            Some(x) => x.deep_view().wf(),
            None => true,
        }) && statement.deep_view().wf() ==> nd.deep_view().wf(),
{
    Node::For {
        initializer: match initializer {
            Some(x) => Some(Box::new(x)),
            None => None,
        },
        condition: match condition {
            Some(x) => Some(Box::new(x)),
            None => None,
        },
        updater: match updater {
            Some(x) => Some(Box::new(x)),
            None => None,
        },
        statement: Box::new(statement),
        begin_label,
        end_label,
    }
}

impl Parser {
    /// The abstractions of the tokens.
    pub closed spec fn toks(&self) -> Seq<SpecToken> {
        self.tokens.deep_view()
    }

    /// The byte length of the source text.
    pub closed spec fn tl(&self) -> nat {
        self.text_len as nat
    }

    /// The parser's current state.
    pub closed spec fn st(&self) -> SpecParserState {
        SpecParserState {
            pos: self.pos as nat,
            locals: self.locals.deep_view(),
            suffix: self.last_label_suffix as nat,
        }
    }

    /// The cursor stays within the tokens, and the variable table and
    /// label counter never outgrow the tokens consumed (which keeps
    /// every minted offset within machine bounds).
    pub open spec fn wf(&self) -> bool {
        &&& self.st().pos <= self.toks().len()
        &&& self.st().locals.len() <= self.st().pos
        &&& self.st().suffix <= self.st().pos
        &&& 8 * (self.toks().len() + 2) <= usize::MAX
    }

    /// Tokenizes the whole text. The token vector is exactly the
    /// sequence that [`spec_token_list`] ascribes to the text.
    pub fn new(text: &str) -> (r: Parser)
        requires
            8 * (text.spec_bytes().len() + 4) <= usize::MAX,
            ints_fit_from(text.spec_bytes(), 0),
        ensures
            r.wf(),
            r.toks() == spec_token_list(text.spec_bytes(), 0),
            r.tl() == text.spec_bytes().len(),
            r.st().pos == 0,
            r.st().locals == Seq::<Seq<char>>::empty(),
            r.st().suffix == 0,
    {
        Parser::new_from_bytes(text.as_bytes())
    }

    /// A parser over raw source bytes.
    #[verifier::loop_isolation(false)]
    pub fn new_from_bytes(text: &[u8]) -> (r: Parser)
        requires
            8 * (text@.len() + 4) <= usize::MAX,
            ints_fit_from(text@, 0),
        ensures
            r.wf(),
            r.toks() == spec_token_list(text@, 0),
            r.tl() == text@.len(),
            r.st().pos == 0,
            r.st().locals == Seq::<Seq<char>>::empty(),
            r.st().suffix == 0,
    {
        let ghost t = text@;
        let mut tokenizer = Tokenizer::new_bytes(text);
        let mut tokens: Vec<Token> = Vec::new();
        let mut done = false;
        while !done
            invariant
                tokenizer.wf(),
                tokenizer.text_bytes() == t,
                tokens@.len() <= tokenizer.spec_index(),
                tokenizer.spec_index() <= t.len() + 1,
                !done ==> ints_fit_from(t, tokenizer.spec_index()),
                !done ==> tokens.deep_view() + spec_token_list(t, tokenizer.spec_index())
                    == spec_token_list(t, 0),
                done ==> tokens.deep_view() == spec_token_list(t, 0),
            decreases t.len() + 2 - tokenizer.spec_index() + (if done { 0int } else { 1int }),
        {
            let ghost i0 = tokenizer.spec_index();
            let r = tokenizer.consume();
            proof {
                lemma_scan_bounds(t, i0);
            }
            match r {
                Some(tok) => {
                    let is_eof = matches!(tok.kind, TokenKind::EOF);
                    let ghost pre = tokens.deep_view();
                    tokens.push(tok);
                    proof {
                        assert(tokens.deep_view() =~= pre.push(tok.deep_view()));
                        if let Some((k, s, e)) = spec_scan(t, i0) {
                            assert(tok.kind.deep_view() == k && tok.index_start as nat == s);
                            assert(tok.deep_view() == SpecToken { kind: k, index_start: s });
                            assert(tokenizer.spec_index() == e);
                            assert(tokens@.len() == pre.len() + 1 <= i0 + 1 <= e);
                            assert(is_eof <==> k == SpecTokenKind::EOF);
                            if is_eof {
                                assert(spec_token_list(t, i0) == seq![tok.deep_view()]);
                                assert(tokens.deep_view() =~= pre + seq![tok.deep_view()]);
                            } else {
                                assert(spec_token_list(t, i0) == seq![tok.deep_view()]
                                    + spec_token_list(t, e));
                                assert(tokens.deep_view() + spec_token_list(t, e) =~= pre + (seq![
                                    tok.deep_view(),
                                ] + spec_token_list(t, e)));
                            }
                        }
                    }
                    if is_eof {
                        done = true;
                        proof {
                            assert(tokens.deep_view() =~= spec_token_list(t, 0));
                        }
                    }
                },
                None => {
                    done = true;
                    proof {
                        lemma_skip_ws_bounds(t, i0);
                        lemma_skip_ws_idempotent(t, i0);
                        assert(spec_scan(t, tokenizer.spec_index()) is None);
                        assert(spec_token_list(t, tokenizer.spec_index()) =~= Seq::<
                            SpecToken,
                        >::empty());
                        assert(tokens.deep_view() =~= tokens.deep_view() + Seq::empty());
                    }
                },
            }
        }
        let r = Parser {
            text_len: text.len(),
            tokens,
            pos: 0,
            locals: Vec::new(),
            last_label_suffix: 0,
        };
        proof {
            assert(r.toks().len() == r.tokens@.len());
            assert(r.st().locals =~= Seq::<Seq<char>>::empty());
        }
        r
    }

    /// The start offset of the token under the cursor, if any.
    pub fn current_index_in_text(&mut self) -> (r: Option<usize>)
        requires
            old(self).wf(),
        ensures
            *final(self) == *old(self),
            match r {
                Some(i) => old(self).st().pos < old(self).toks().len() && i as nat == cur_index(
                    old(self).toks(),
                    old(self).tl(),
                    old(self).st().pos,
                ),
                None => old(self).st().pos >= old(self).toks().len(),
            },
    {
        if self.pos < self.tokens.len() {
            proof {
                assert(self.tokens.deep_view()[self.pos as int]
                    == self.tokens@[self.pos as int].deep_view());
            }
            Some(self.tokens[self.pos].index_start)
        } else {
            None
        }
    }

    /// An `UnexpectedToken` error at the cursor (or at the end of the
    /// text when the tokens are exhausted), with the given expected
    /// kinds.
    pub fn error_unexpected_token(&mut self, expected: Vec<TokenKind>) -> (r: CompileError)
        requires
            old(self).wf(),
        ensures
            *final(self) == *old(self),
            r.deep_view() == err_unexpected(
                old(self).toks(),
                old(self).tl(),
                old(self).st().pos,
                expected.deep_view(),
            ),
    {
        let index = match self.current_index_in_text() {
            Some(i) => i,
            None => self.text_len,
        };
        CompileError::unexpected_token(index, expected)
    }

    /// The frame offset of `identifier`: the stored one, or for a
    /// first appearance the next free slot `(count + 1) * 8`,
    /// recorded for later references.
    #[verifier::loop_isolation(false)]
    pub fn get_or_insert_local_offset(&mut self, identifier: String) -> (r: usize)
        requires
            8 * (old(self).st().locals.len() + 2) <= usize::MAX,
        ensures
            final(self).toks() == old(self).toks(),
            final(self).tl() == old(self).tl(),
            final(self).st().pos == old(self).st().pos,
            final(self).st().suffix == old(self).st().suffix,
            match spec_find_local(old(self).st().locals, identifier@) {
                Some(i) => r == (i + 1) * 8 && final(self).st().locals == old(self).st().locals,
                None => r == (old(self).st().locals.len() + 1) * 8 && final(self).st().locals
                    == old(self).st().locals.push(identifier@),
            },
    {
        proof {
            lemma_find_local_props(self.locals.deep_view(), identifier@);
        }
        let mut i: usize = 0;
        while i < self.locals.len()
            invariant
                i <= self.locals@.len(),
                self.locals.deep_view().len() == self.locals@.len(),
                forall|j: int|
                    0 <= j < i ==> #[trigger] self.locals.deep_view()[j] != identifier@,
            decreases self.locals@.len() - i,
        {
            proof {
                assert(self.locals.deep_view()[i as int]
                    == self.locals@[i as int].deep_view());
            }
            if self.locals[i] == identifier {
                proof {
                    let lv = self.locals.deep_view();
                    lemma_find_local_props(lv, identifier@);
                    assert(lv[i as int] == identifier@);
                    match spec_find_local(lv, identifier@) {
                        Some(m) => {
                            if m < i as nat {
                                assert(lv[m as int] != identifier@);
                            }
                            if m > i as nat {
                                assert(lv[i as int] != identifier@);
                            }
                        },
                        None => {
                            assert(lv[i as int] != identifier@);
                        },
                    }
                    assert(spec_find_local(lv, identifier@) == Some(i as nat));
                }
                return (i + 1) * 8;
            }
            i = i + 1;
        }
        let n = self.locals.len();
        let ghost pre = self.locals.deep_view();
        self.locals.push(identifier);
        proof {
            assert(spec_find_local(pre, identifier@) is None);
            assert(self.locals.deep_view() =~= pre.push(identifier@));
        }
        (n + 1) * 8
    }

    /// Mints the next label suffix: the counter is strictly
    /// increasing, one step per call.
    pub fn get_next_label_suffix(&mut self) -> (r: usize)
        requires
            old(self).st().suffix + 1 <= usize::MAX,
        ensures
            final(self).toks() == old(self).toks(),
            final(self).tl() == old(self).tl(),
            final(self).st().pos == old(self).st().pos,
            final(self).st().locals == old(self).st().locals,
            final(self).st().suffix == old(self).st().suffix + 1,
            r == old(self).st().suffix + 1,
    {
        self.last_label_suffix = self.last_label_suffix + 1;
        self.last_label_suffix
    }

    /// Consumes the next token when it is an integer literal, yielding
    /// its value.
    pub fn next_numeric_value(&mut self) -> (r: Option<i32>)
        requires
            old(self).wf(),
        ensures
            final(self).wf(),
            final(self).toks() == old(self).toks(),
            final(self).tl() == old(self).tl(),
            final(self).st().locals == old(self).st().locals,
            final(self).st().suffix == old(self).st().suffix,
            match peek_kind(old(self).toks(), old(self).st().pos) {
                Some(SpecTokenKind::Integer(v)) => (r matches Some(x) && x as int == v)
                    && final(self).st().pos == old(self).st().pos + 1,
                _ => r is None && final(self).st().pos == old(self).st().pos,
            },
    {
        if self.pos < self.tokens.len() {
            proof {
                assert(self.tokens.deep_view()[self.pos as int]
                    == self.tokens@[self.pos as int].deep_view());
            }
            match self.tokens[self.pos].kind {
                TokenKind::Integer(v) => {
                    self.pos = self.pos + 1;
                    Some(v)
                },
                _ => None,
            }
        } else {
            None
        }
    }

    /// Consumes the next token when it is an identifier, yielding its
    /// lexeme.
    pub fn next_identifier(&mut self) -> (r: Option<String>)
        requires
            old(self).wf(),
        ensures
            final(self).wf(),
            final(self).toks() == old(self).toks(),
            final(self).tl() == old(self).tl(),
            final(self).st().locals == old(self).st().locals,
            final(self).st().suffix == old(self).st().suffix,
            match peek_kind(old(self).toks(), old(self).st().pos) {
                Some(SpecTokenKind::Identifier(name)) => (r matches Some(s) && s@ == name)
                    && final(self).st().pos == old(self).st().pos + 1,
                _ => r is None && final(self).st().pos == old(self).st().pos,
            },
    {
        if self.pos < self.tokens.len() {
            proof {
                assert(self.tokens.deep_view()[self.pos as int]
                    == self.tokens@[self.pos as int].deep_view());
            }
            let found = match &self.tokens[self.pos].kind {
                TokenKind::Identifier(s) => Some(s.clone()),
                _ => None,
            };
            match found {
                Some(s) => {
                    self.pos = self.pos + 1;
                    Some(s)
                },
                None => None,
            }
        } else {
            None
        }
    }

    /// Consumes the next token when it is `KeywordReturn`.
    pub fn next_keyword_return(&mut self) -> (r: Option<()>)
        requires
            old(self).wf(),
        ensures
            final(self).wf(),
            final(self).toks() == old(self).toks(),
            final(self).tl() == old(self).tl(),
            final(self).st().locals == old(self).st().locals,
            final(self).st().suffix == old(self).st().suffix,
            if peek_kind(old(self).toks(), old(self).st().pos) == Some(SpecTokenKind::KeywordReturn) {
                r is Some && final(self).st().pos == old(self).st().pos + 1
            } else {
                r is None && final(self).st().pos == old(self).st().pos
            },
    {
        if self.pos < self.tokens.len() {
            proof {
                assert(self.tokens.deep_view()[self.pos as int]
                    == self.tokens@[self.pos as int].deep_view());
            }
            let hit = match self.tokens[self.pos].kind {
                TokenKind::KeywordReturn => true,
                _ => false,
            };
            if hit {
                self.pos = self.pos + 1;
                Some(())
            } else {
                None
            }
        } else {
            None
        }
    }

    /// Consumes the next token when it is `KeywordIf`.
    pub fn next_keyword_if(&mut self) -> (r: Option<()>)
        requires
            old(self).wf(),
        ensures
            final(self).wf(),
            final(self).toks() == old(self).toks(),
            final(self).tl() == old(self).tl(),
            final(self).st().locals == old(self).st().locals,
            final(self).st().suffix == old(self).st().suffix,
            if peek_kind(old(self).toks(), old(self).st().pos) == Some(SpecTokenKind::KeywordIf) {
                r is Some && final(self).st().pos == old(self).st().pos + 1
            } else {
                r is None && final(self).st().pos == old(self).st().pos
            },
    {
        if self.pos < self.tokens.len() {
            proof {
                assert(self.tokens.deep_view()[self.pos as int]
                    == self.tokens@[self.pos as int].deep_view());
            }
            let hit = match self.tokens[self.pos].kind {
                TokenKind::KeywordIf => true,
                _ => false,
            };
            if hit {
                self.pos = self.pos + 1;
                Some(())
            } else {
                None
            }
        } else {
            None
        }
    }

    /// Consumes the next token when it is `KeywordElse`.
    pub fn next_keyword_else(&mut self) -> (r: Option<()>)
        requires
            old(self).wf(),
        ensures
            final(self).wf(),
            final(self).toks() == old(self).toks(),
            final(self).tl() == old(self).tl(),
            final(self).st().locals == old(self).st().locals,
            final(self).st().suffix == old(self).st().suffix,
            if peek_kind(old(self).toks(), old(self).st().pos) == Some(SpecTokenKind::KeywordElse) {
                r is Some && final(self).st().pos == old(self).st().pos + 1
            } else {
                r is None && final(self).st().pos == old(self).st().pos
            },
    {
        if self.pos < self.tokens.len() {
            proof {
                assert(self.tokens.deep_view()[self.pos as int]
                    == self.tokens@[self.pos as int].deep_view());
            }
            let hit = match self.tokens[self.pos].kind {
                TokenKind::KeywordElse => true,
                _ => false,
            };
            if hit {
                self.pos = self.pos + 1;
                Some(())
            } else {
                None
            }
        } else {
            None
        }
    }

    /// Consumes the next token when it is `KeywordWhile`.
    pub fn next_keyword_while(&mut self) -> (r: Option<()>)
        requires
            old(self).wf(),
        ensures
            final(self).wf(),
            final(self).toks() == old(self).toks(),
            final(self).tl() == old(self).tl(),
            final(self).st().locals == old(self).st().locals,
            final(self).st().suffix == old(self).st().suffix,
            if peek_kind(old(self).toks(), old(self).st().pos) == Some(SpecTokenKind::KeywordWhile) {
                r is Some && final(self).st().pos == old(self).st().pos + 1
            } else {
                r is None && final(self).st().pos == old(self).st().pos
            },
    {
        if self.pos < self.tokens.len() {
            proof {
                assert(self.tokens.deep_view()[self.pos as int]
                    == self.tokens@[self.pos as int].deep_view());
            }
            let hit = match self.tokens[self.pos].kind {
                TokenKind::KeywordWhile => true,
                _ => false,
            };
            if hit {
                self.pos = self.pos + 1;
                Some(())
            } else {
                None
            }
        } else {
            None
        }
    }

    /// Consumes the next token when it is `KeywordFor`.
    pub fn next_keyword_for(&mut self) -> (r: Option<()>)
        requires
            old(self).wf(),
        ensures
            final(self).wf(),
            final(self).toks() == old(self).toks(),
            final(self).tl() == old(self).tl(),
            final(self).st().locals == old(self).st().locals,
            final(self).st().suffix == old(self).st().suffix,
            if peek_kind(old(self).toks(), old(self).st().pos) == Some(SpecTokenKind::KeywordFor) {
                r is Some && final(self).st().pos == old(self).st().pos + 1
            } else {
                r is None && final(self).st().pos == old(self).st().pos
            },
    {
        if self.pos < self.tokens.len() {
            proof {
                assert(self.tokens.deep_view()[self.pos as int]
                    == self.tokens@[self.pos as int].deep_view());
            }
            let hit = match self.tokens[self.pos].kind {
                TokenKind::KeywordFor => true,
                _ => false,
            };
            if hit {
                self.pos = self.pos + 1;
                Some(())
            } else {
                None
            }
        } else {
            None
        }
    }

    /// Consumes the next token when it is `SymbolPlus`.
    pub fn next_symbol_plus(&mut self) -> (r: Option<()>)
        requires
            old(self).wf(),
        ensures
            final(self).wf(),
            final(self).toks() == old(self).toks(),
            final(self).tl() == old(self).tl(),
            final(self).st().locals == old(self).st().locals,
            final(self).st().suffix == old(self).st().suffix,
            if peek_kind(old(self).toks(), old(self).st().pos) == Some(SpecTokenKind::SymbolPlus) {
                r is Some && final(self).st().pos == old(self).st().pos + 1
            } else {
                r is None && final(self).st().pos == old(self).st().pos
            },
    {
        if self.pos < self.tokens.len() {
            proof {
                assert(self.tokens.deep_view()[self.pos as int]
                    == self.tokens@[self.pos as int].deep_view());
            }
            let hit = match self.tokens[self.pos].kind {
                TokenKind::SymbolPlus => true,
                _ => false,
            };
            if hit {
                self.pos = self.pos + 1;
                Some(())
            } else {
                None
            }
        } else {
            None
        }
    }

    /// Consumes the next token when it is `SymbolMinus`.
    pub fn next_symbol_minus(&mut self) -> (r: Option<()>)
        requires
            old(self).wf(),
        ensures
            final(self).wf(),
            final(self).toks() == old(self).toks(),
            final(self).tl() == old(self).tl(),
            final(self).st().locals == old(self).st().locals,
            final(self).st().suffix == old(self).st().suffix,
            if peek_kind(old(self).toks(), old(self).st().pos) == Some(SpecTokenKind::SymbolMinus) {
                r is Some && final(self).st().pos == old(self).st().pos + 1
            } else {
                r is None && final(self).st().pos == old(self).st().pos
            },
    {
        if self.pos < self.tokens.len() {
            proof {
                assert(self.tokens.deep_view()[self.pos as int]
                    == self.tokens@[self.pos as int].deep_view());
            }
            let hit = match self.tokens[self.pos].kind {
                TokenKind::SymbolMinus => true,
                _ => false,
            };
            if hit {
                self.pos = self.pos + 1;
                Some(())
            } else {
                None
            }
        } else {
            None
        }
    }

    /// Consumes the next token when it is `SymbolStar`.
    pub fn next_symbol_star(&mut self) -> (r: Option<()>)
        requires
            old(self).wf(),
        ensures
            final(self).wf(),
            final(self).toks() == old(self).toks(),
            final(self).tl() == old(self).tl(),
            final(self).st().locals == old(self).st().locals,
            final(self).st().suffix == old(self).st().suffix,
            if peek_kind(old(self).toks(), old(self).st().pos) == Some(SpecTokenKind::SymbolStar) {
                r is Some && final(self).st().pos == old(self).st().pos + 1
            } else {
                r is None && final(self).st().pos == old(self).st().pos
            },
    {
        if self.pos < self.tokens.len() {
            proof {
                assert(self.tokens.deep_view()[self.pos as int]
                    == self.tokens@[self.pos as int].deep_view());
            }
            let hit = match self.tokens[self.pos].kind {
                TokenKind::SymbolStar => true,
                _ => false,
            };
            if hit {
                self.pos = self.pos + 1;
                Some(())
            } else {
                None
            }
        } else {
            None
        }
    }

    /// Consumes the next token when it is `SymbolSlash`.
    pub fn next_symbol_slash(&mut self) -> (r: Option<()>)
        requires
            old(self).wf(),
        ensures
            final(self).wf(),
            final(self).toks() == old(self).toks(),
            final(self).tl() == old(self).tl(),
            final(self).st().locals == old(self).st().locals,
            final(self).st().suffix == old(self).st().suffix,
            if peek_kind(old(self).toks(), old(self).st().pos) == Some(SpecTokenKind::SymbolSlash) {
                r is Some && final(self).st().pos == old(self).st().pos + 1
            } else {
                r is None && final(self).st().pos == old(self).st().pos
            },
    {
        if self.pos < self.tokens.len() {
            proof {
                assert(self.tokens.deep_view()[self.pos as int]
                    == self.tokens@[self.pos as int].deep_view());
            }
            let hit = match self.tokens[self.pos].kind {
                TokenKind::SymbolSlash => true,
                _ => false,
            };
            if hit {
                self.pos = self.pos + 1;
                Some(())
            } else {
                None
            }
        } else {
            None
        }
    }

    /// Consumes the next token when it is `SymbolRoundBracketLeft`.
    pub fn next_symbol_round_bracket_left(&mut self) -> (r: Option<()>)
        requires
            old(self).wf(),
        ensures
            final(self).wf(),
            final(self).toks() == old(self).toks(),
            final(self).tl() == old(self).tl(),
            final(self).st().locals == old(self).st().locals,
            final(self).st().suffix == old(self).st().suffix,
            if peek_kind(old(self).toks(), old(self).st().pos) == Some(SpecTokenKind::SymbolRoundBracketLeft) {
                r is Some && final(self).st().pos == old(self).st().pos + 1
            } else {
                r is None && final(self).st().pos == old(self).st().pos
            },
    {
        if self.pos < self.tokens.len() {
            proof {
                assert(self.tokens.deep_view()[self.pos as int]
                    == self.tokens@[self.pos as int].deep_view());
            }
            let hit = match self.tokens[self.pos].kind {
                TokenKind::SymbolRoundBracketLeft => true,
                _ => false,
            };
            if hit {
                self.pos = self.pos + 1;
                Some(())
            } else {
                None
            }
        } else {
            None
        }
    }

    /// Consumes the next token when it is `SymbolRoundBracketRight`.
    pub fn next_symbol_round_bracket_right(&mut self) -> (r: Option<()>)
        requires
            old(self).wf(),
        ensures
            final(self).wf(),
            final(self).toks() == old(self).toks(),
            final(self).tl() == old(self).tl(),
            final(self).st().locals == old(self).st().locals,
            final(self).st().suffix == old(self).st().suffix,
            if peek_kind(old(self).toks(), old(self).st().pos) == Some(SpecTokenKind::SymbolRoundBracketRight) {
                r is Some && final(self).st().pos == old(self).st().pos + 1
            } else {
                r is None && final(self).st().pos == old(self).st().pos
            },
    {
        if self.pos < self.tokens.len() {
            proof {
                assert(self.tokens.deep_view()[self.pos as int]
                    == self.tokens@[self.pos as int].deep_view());
            }
            let hit = match self.tokens[self.pos].kind {
                TokenKind::SymbolRoundBracketRight => true,
                _ => false,
            };
            if hit {
                self.pos = self.pos + 1;
                Some(())
            } else {
                None
            }
        } else {
            None
        }
    }

    /// Consumes the next token when it is `SymbolAngleBracketLeft`.
    pub fn next_symbol_angle_bracket_left(&mut self) -> (r: Option<()>)
        requires
            old(self).wf(),
        ensures
            final(self).wf(),
            final(self).toks() == old(self).toks(),
            final(self).tl() == old(self).tl(),
            final(self).st().locals == old(self).st().locals,
            final(self).st().suffix == old(self).st().suffix,
            if peek_kind(old(self).toks(), old(self).st().pos) == Some(SpecTokenKind::SymbolAngleBracketLeft) {
                r is Some && final(self).st().pos == old(self).st().pos + 1
            } else {
                r is None && final(self).st().pos == old(self).st().pos
            },
    {
        if self.pos < self.tokens.len() {
            proof {
                assert(self.tokens.deep_view()[self.pos as int]
                    == self.tokens@[self.pos as int].deep_view());
            }
            let hit = match self.tokens[self.pos].kind {
                TokenKind::SymbolAngleBracketLeft => true,
                _ => false,
            };
            if hit {
                self.pos = self.pos + 1;
                Some(())
            } else {
                None
            }
        } else {
            None
        }
    }

    /// Consumes the next token when it is `SymbolAngleBracketRight`.
    pub fn next_symbol_angle_bracket_right(&mut self) -> (r: Option<()>)
        requires
            old(self).wf(),
        ensures
            final(self).wf(),
            final(self).toks() == old(self).toks(),
            final(self).tl() == old(self).tl(),
            final(self).st().locals == old(self).st().locals,
            final(self).st().suffix == old(self).st().suffix,
            if peek_kind(old(self).toks(), old(self).st().pos) == Some(SpecTokenKind::SymbolAngleBracketRight) {
                r is Some && final(self).st().pos == old(self).st().pos + 1
            } else {
                r is None && final(self).st().pos == old(self).st().pos
            },
    {
        if self.pos < self.tokens.len() {
            proof {
                assert(self.tokens.deep_view()[self.pos as int]
                    == self.tokens@[self.pos as int].deep_view());
            }
            let hit = match self.tokens[self.pos].kind {
                TokenKind::SymbolAngleBracketRight => true,
                _ => false,
            };
            if hit {
                self.pos = self.pos + 1;
                Some(())
            } else {
                None
            }
        } else {
            None
        }
    }

    /// Consumes the next token when it is `SymbolAngleBracketLeftAndEqual`.
    pub fn next_symbol_angle_bracket_left_and_equal(&mut self) -> (r: Option<()>)
        requires
            old(self).wf(),
        ensures
            final(self).wf(),
            final(self).toks() == old(self).toks(),
            final(self).tl() == old(self).tl(),
            final(self).st().locals == old(self).st().locals,
            final(self).st().suffix == old(self).st().suffix,
            if peek_kind(old(self).toks(), old(self).st().pos) == Some(SpecTokenKind::SymbolAngleBracketLeftAndEqual) {
                r is Some && final(self).st().pos == old(self).st().pos + 1
            } else {
                r is None && final(self).st().pos == old(self).st().pos
            },
    {
        if self.pos < self.tokens.len() {
            proof {
                assert(self.tokens.deep_view()[self.pos as int]
                    == self.tokens@[self.pos as int].deep_view());
            }
            let hit = match self.tokens[self.pos].kind {
                TokenKind::SymbolAngleBracketLeftAndEqual => true,
                _ => false,
            };
            if hit {
                self.pos = self.pos + 1;
                Some(())
            } else {
                None
            }
        } else {
            None
        }
    }

    /// Consumes the next token when it is `SymbolAngleBracketRightAndEqual`.
    pub fn next_symbol_angle_bracket_right_and_equal(&mut self) -> (r: Option<()>)
        requires
            old(self).wf(),
        ensures
            final(self).wf(),
            final(self).toks() == old(self).toks(),
            final(self).tl() == old(self).tl(),
            final(self).st().locals == old(self).st().locals,
            final(self).st().suffix == old(self).st().suffix,
            if peek_kind(old(self).toks(), old(self).st().pos) == Some(SpecTokenKind::SymbolAngleBracketRightAndEqual) {
                r is Some && final(self).st().pos == old(self).st().pos + 1
            } else {
                r is None && final(self).st().pos == old(self).st().pos
            },
    {
        if self.pos < self.tokens.len() {
            proof {
                assert(self.tokens.deep_view()[self.pos as int]
                    == self.tokens@[self.pos as int].deep_view());
            }
            let hit = match self.tokens[self.pos].kind {
                TokenKind::SymbolAngleBracketRightAndEqual => true,
                _ => false,
            };
            if hit {
                self.pos = self.pos + 1;
                Some(())
            } else {
                None
            }
        } else {
            None
        }
    }

    /// Consumes the next token when it is `SymbolCurlyBracketLeft`.
    pub fn next_symbol_curly_bracket_left(&mut self) -> (r: Option<()>)
        requires
            old(self).wf(),
        ensures
            final(self).wf(),
            final(self).toks() == old(self).toks(),
            final(self).tl() == old(self).tl(),
            final(self).st().locals == old(self).st().locals,
            final(self).st().suffix == old(self).st().suffix,
            if peek_kind(old(self).toks(), old(self).st().pos) == Some(SpecTokenKind::SymbolCurlyBracketLeft) {
                r is Some && final(self).st().pos == old(self).st().pos + 1
            } else {
                r is None && final(self).st().pos == old(self).st().pos
            },
    {
        if self.pos < self.tokens.len() {
            proof {
                assert(self.tokens.deep_view()[self.pos as int]
                    == self.tokens@[self.pos as int].deep_view());
            }
            let hit = match self.tokens[self.pos].kind {
                TokenKind::SymbolCurlyBracketLeft => true,
                _ => false,
            };
            if hit {
                self.pos = self.pos + 1;
                Some(())
            } else {
                None
            }
        } else {
            None
        }
    }

    /// Consumes the next token when it is `SymbolCurlyBracketRight`.
    pub fn next_symbol_curly_bracket_right(&mut self) -> (r: Option<()>)
        requires
            old(self).wf(),
        ensures
            final(self).wf(),
            final(self).toks() == old(self).toks(),
            final(self).tl() == old(self).tl(),
            final(self).st().locals == old(self).st().locals,
            final(self).st().suffix == old(self).st().suffix,
            if peek_kind(old(self).toks(), old(self).st().pos) == Some(SpecTokenKind::SymbolCurlyBracketRight) {
                r is Some && final(self).st().pos == old(self).st().pos + 1
            } else {
                r is None && final(self).st().pos == old(self).st().pos
            },
    {
        if self.pos < self.tokens.len() {
            proof {
                assert(self.tokens.deep_view()[self.pos as int]
                    == self.tokens@[self.pos as int].deep_view());
            }
            let hit = match self.tokens[self.pos].kind {
                TokenKind::SymbolCurlyBracketRight => true,
                _ => false,
            };
            if hit {
                self.pos = self.pos + 1;
                Some(())
            } else {
                None
            }
        } else {
            None
        }
    }

    /// Consumes the next token when it is `SymbolDoubleEqual`.
    pub fn next_symbol_double_equal(&mut self) -> (r: Option<()>)
        requires
            old(self).wf(),
        ensures
            final(self).wf(),
            final(self).toks() == old(self).toks(),
            final(self).tl() == old(self).tl(),
            final(self).st().locals == old(self).st().locals,
            final(self).st().suffix == old(self).st().suffix,
            if peek_kind(old(self).toks(), old(self).st().pos) == Some(SpecTokenKind::SymbolDoubleEqual) {
                r is Some && final(self).st().pos == old(self).st().pos + 1
            } else {
                r is None && final(self).st().pos == old(self).st().pos
            },
    {
        if self.pos < self.tokens.len() {
            proof {
                assert(self.tokens.deep_view()[self.pos as int]
                    == self.tokens@[self.pos as int].deep_view());
            }
            let hit = match self.tokens[self.pos].kind {
                TokenKind::SymbolDoubleEqual => true,
                _ => false,
            };
            if hit {
                self.pos = self.pos + 1;
                Some(())
            } else {
                None
            }
        } else {
            None
        }
    }

    /// Consumes the next token when it is `SymbolExclamationAndEqual`.
    pub fn next_symbol_exclamation_and_equal(&mut self) -> (r: Option<()>)
        requires
            old(self).wf(),
        ensures
            final(self).wf(),
            final(self).toks() == old(self).toks(),
            final(self).tl() == old(self).tl(),
            final(self).st().locals == old(self).st().locals,
            final(self).st().suffix == old(self).st().suffix,
            if peek_kind(old(self).toks(), old(self).st().pos) == Some(SpecTokenKind::SymbolExclamationAndEqual) {
                r is Some && final(self).st().pos == old(self).st().pos + 1
            } else {
                r is None && final(self).st().pos == old(self).st().pos
            },
    {
        if self.pos < self.tokens.len() {
            proof {
                assert(self.tokens.deep_view()[self.pos as int]
                    == self.tokens@[self.pos as int].deep_view());
            }
            let hit = match self.tokens[self.pos].kind {
                TokenKind::SymbolExclamationAndEqual => true,
                _ => false,
            };
            if hit {
                self.pos = self.pos + 1;
                Some(())
            } else {
                None
            }
        } else {
            None
        }
    }

    /// Consumes the next token when it is `SymbolEqual`.
    pub fn next_symbol_equal(&mut self) -> (r: Option<()>)
        requires
            old(self).wf(),
        ensures
            final(self).wf(),
            final(self).toks() == old(self).toks(),
            final(self).tl() == old(self).tl(),
            final(self).st().locals == old(self).st().locals,
            final(self).st().suffix == old(self).st().suffix,
            if peek_kind(old(self).toks(), old(self).st().pos) == Some(SpecTokenKind::SymbolEqual) {
                r is Some && final(self).st().pos == old(self).st().pos + 1
            } else {
                r is None && final(self).st().pos == old(self).st().pos
            },
    {
        if self.pos < self.tokens.len() {
            proof {
                assert(self.tokens.deep_view()[self.pos as int]
                    == self.tokens@[self.pos as int].deep_view());
            }
            let hit = match self.tokens[self.pos].kind {
                TokenKind::SymbolEqual => true,
                _ => false,
            };
            if hit {
                self.pos = self.pos + 1;
                Some(())
            } else {
                None
            }
        } else {
            None
        }
    }

    /// Consumes the next token when it is `SymbolSemicolon`.
    pub fn next_symbol_semicolon(&mut self) -> (r: Option<()>)
        requires
            old(self).wf(),
        ensures
            final(self).wf(),
            final(self).toks() == old(self).toks(),
            final(self).tl() == old(self).tl(),
            final(self).st().locals == old(self).st().locals,
            final(self).st().suffix == old(self).st().suffix,
            if peek_kind(old(self).toks(), old(self).st().pos) == Some(SpecTokenKind::SymbolSemicolon) {
                r is Some && final(self).st().pos == old(self).st().pos + 1
            } else {
                r is None && final(self).st().pos == old(self).st().pos
            },
    {
        if self.pos < self.tokens.len() {
            proof {
                assert(self.tokens.deep_view()[self.pos as int]
                    == self.tokens@[self.pos as int].deep_view());
            }
            let hit = match self.tokens[self.pos].kind {
                TokenKind::SymbolSemicolon => true,
                _ => false,
            };
            if hit {
                self.pos = self.pos + 1;
                Some(())
            } else {
                None
            }
        } else {
            None
        }
    }

    /// Consumes the next token when it is `SymbolComma`.
    pub fn next_symbol_comma(&mut self) -> (r: Option<()>)
        requires
            old(self).wf(),
        ensures
            final(self).wf(),
            final(self).toks() == old(self).toks(),
            final(self).tl() == old(self).tl(),
            final(self).st().locals == old(self).st().locals,
            final(self).st().suffix == old(self).st().suffix,
            if peek_kind(old(self).toks(), old(self).st().pos) == Some(SpecTokenKind::SymbolComma) {
                r is Some && final(self).st().pos == old(self).st().pos + 1
            } else {
                r is None && final(self).st().pos == old(self).st().pos
            },
    {
        if self.pos < self.tokens.len() {
            proof {
                assert(self.tokens.deep_view()[self.pos as int]
                    == self.tokens@[self.pos as int].deep_view());
            }
            let hit = match self.tokens[self.pos].kind {
                TokenKind::SymbolComma => true,
                _ => false,
            };
            if hit {
                self.pos = self.pos + 1;
                Some(())
            } else {
                None
            }
        } else {
            None
        }
    }

    /// Consumes the next token when it is `EOF`.
    pub fn next_eof(&mut self) -> (r: Option<()>)
        requires
            old(self).wf(),
        ensures
            final(self).wf(),
            final(self).toks() == old(self).toks(),
            final(self).tl() == old(self).tl(),
            final(self).st().locals == old(self).st().locals,
            final(self).st().suffix == old(self).st().suffix,
            if peek_kind(old(self).toks(), old(self).st().pos) == Some(SpecTokenKind::EOF) {
                r is Some && final(self).st().pos == old(self).st().pos + 1
            } else {
                r is None && final(self).st().pos == old(self).st().pos
            },
    {
        if self.pos < self.tokens.len() {
            proof {
                assert(self.tokens.deep_view()[self.pos as int]
                    == self.tokens@[self.pos as int].deep_view());
            }
            let hit = match self.tokens[self.pos].kind {
                TokenKind::EOF => true,
                _ => false,
            };
            if hit {
                self.pos = self.pos + 1;
                Some(())
            } else {
                None
            }
        } else {
            None
        }
    }


    /// Whether a comma stands under the cursor.
    fn peek_comma(&self) -> (r: bool)
        ensures
            r == (peek_kind(self.toks(), self.st().pos) == Some(SpecTokenKind::SymbolComma)),
    {
        if self.pos < self.tokens.len() {
            proof {
                assert(self.tokens.deep_view()[self.pos as int]
                    == self.tokens@[self.pos as int].deep_view());
            }
            match self.tokens[self.pos].kind {
                TokenKind::SymbolComma => true,
                _ => false,
            }
        } else {
            false
        }
    }


    /// An `UnexpectedToken` error at the cursor expecting `)`.
    fn error_expected_rparen(&mut self) -> (r: CompileError)
        requires
            old(self).wf(),
        ensures
            *final(self) == *old(self),
            r.deep_view() == err_unexpected(
                old(self).toks(),
                old(self).tl(),
                old(self).st().pos,
                seq![SpecTokenKind::SymbolRoundBracketRight],
            ),
    {
        let ex = vec![TokenKind::SymbolRoundBracketRight];
        proof {
            assert(ex.deep_view() =~= seq![SpecTokenKind::SymbolRoundBracketRight]);
        }
        self.error_unexpected_token(ex)
    }

    /// An `UnexpectedToken` error at the cursor expecting `(` (also
    /// reported, as the grammar always has, for a missing `)` after a
    /// control-flow condition).
    fn error_expected_lparen(&mut self) -> (r: CompileError)
        requires
            old(self).wf(),
        ensures
            *final(self) == *old(self),
            r.deep_view() == err_unexpected(
                old(self).toks(),
                old(self).tl(),
                old(self).st().pos,
                seq![SpecTokenKind::SymbolRoundBracketLeft],
            ),
    {
        let ex = vec![TokenKind::SymbolRoundBracketLeft];
        proof {
            assert(ex.deep_view() =~= seq![SpecTokenKind::SymbolRoundBracketLeft]);
        }
        self.error_unexpected_token(ex)
    }

    /// An `UnexpectedToken` error at the cursor expecting `}`.
    fn error_expected_rbrace(&mut self) -> (r: CompileError)
        requires
            old(self).wf(),
        ensures
            *final(self) == *old(self),
            r.deep_view() == err_unexpected(
                old(self).toks(),
                old(self).tl(),
                old(self).st().pos,
                seq![SpecTokenKind::SymbolCurlyBracketRight],
            ),
    {
        let ex = vec![TokenKind::SymbolCurlyBracketRight];
        proof {
            assert(ex.deep_view() =~= seq![SpecTokenKind::SymbolCurlyBracketRight]);
        }
        self.error_unexpected_token(ex)
    }

    /// An `UnexpectedToken` error at the cursor expecting `;`.
    fn error_expected_semicolon(&mut self) -> (r: CompileError)
        requires
            old(self).wf(),
        ensures
            *final(self) == *old(self),
            r.deep_view() == err_unexpected(
                old(self).toks(),
                old(self).tl(),
                old(self).st().pos,
                seq![SpecTokenKind::SymbolSemicolon],
            ),
    {
        let ex = vec![TokenKind::SymbolSemicolon];
        proof {
            assert(ex.deep_view() =~= seq![SpecTokenKind::SymbolSemicolon]);
        }
        self.error_unexpected_token(ex)
    }

    /// An `UnexpectedToken` error at the cursor expecting the start
    /// of a primary expression.
    fn error_expected_primary(&mut self) -> (r: CompileError)
        requires
            old(self).wf(),
        ensures
            *final(self) == *old(self),
            r.deep_view() == err_unexpected(
                old(self).toks(),
                old(self).tl(),
                old(self).st().pos,
                seq![SpecTokenKind::Integer(0), SpecTokenKind::SymbolRoundBracketLeft],
            ),
    {
        let ex = vec![TokenKind::Integer(0), TokenKind::SymbolRoundBracketLeft];
        proof {
            assert(ex.deep_view() =~= seq![
                SpecTokenKind::Integer(0),
                SpecTokenKind::SymbolRoundBracketLeft,
            ]);
        }
        self.error_unexpected_token(ex)
    }

    /// Consumes the next token when it is an equality operator,
    /// yielding it.
    fn next_eq_op(&mut self) -> (r: Option<TokenKind>)
        requires
            old(self).wf(),
        ensures
            final(self).wf(),
            final(self).toks() == old(self).toks(),
            final(self).tl() == old(self).tl(),
            final(self).st().locals == old(self).st().locals,
            final(self).st().suffix == old(self).st().suffix,
            match peek_kind(old(self).toks(), old(self).st().pos) {
                Some(k) => if is_eq_op(k) {
                    (r matches Some(t) && t.deep_view() == k) && final(self).st().pos == old(
                        self,
                    ).st().pos + 1
                } else {
                    r is None && final(self).st().pos == old(self).st().pos
                },
                None => r is None && final(self).st().pos == old(self).st().pos,
            },
    {
        if self.pos < self.tokens.len() {
            proof {
                assert(self.tokens.deep_view()[self.pos as int]
                    == self.tokens@[self.pos as int].deep_view());
            }
            let hit: Option<TokenKind> = match self.tokens[self.pos].kind {
                TokenKind::SymbolDoubleEqual => Some(TokenKind::SymbolDoubleEqual),
                TokenKind::SymbolExclamationAndEqual => Some(
                    TokenKind::SymbolExclamationAndEqual,
                ),
                _ => None,
            };
            if hit.is_some() {
                self.pos = self.pos + 1;
            }
            hit
        } else {
            None
        }
    }

    /// Consumes the next token when it is a relational operator,
    /// yielding it.
    fn next_rel_op(&mut self) -> (r: Option<TokenKind>)
        requires
            old(self).wf(),
        ensures
            final(self).wf(),
            final(self).toks() == old(self).toks(),
            final(self).tl() == old(self).tl(),
            final(self).st().locals == old(self).st().locals,
            final(self).st().suffix == old(self).st().suffix,
            match peek_kind(old(self).toks(), old(self).st().pos) {
                Some(k) => if is_rel_op(k) {
                    (r matches Some(t) && t.deep_view() == k) && final(self).st().pos == old(
                        self,
                    ).st().pos + 1
                } else {
                    r is None && final(self).st().pos == old(self).st().pos
                },
                None => r is None && final(self).st().pos == old(self).st().pos,
            },
    {
        if self.pos < self.tokens.len() {
            proof {
                assert(self.tokens.deep_view()[self.pos as int]
                    == self.tokens@[self.pos as int].deep_view());
            }
            let hit: Option<TokenKind> = match self.tokens[self.pos].kind {
                TokenKind::SymbolAngleBracketLeft => Some(TokenKind::SymbolAngleBracketLeft),
                TokenKind::SymbolAngleBracketRight => Some(TokenKind::SymbolAngleBracketRight),
                TokenKind::SymbolAngleBracketLeftAndEqual => Some(
                    TokenKind::SymbolAngleBracketLeftAndEqual,
                ),
                TokenKind::SymbolAngleBracketRightAndEqual => Some(
                    TokenKind::SymbolAngleBracketRightAndEqual,
                ),
                _ => None,
            };
            if hit.is_some() {
                self.pos = self.pos + 1;
            }
            hit
        } else {
            None
        }
    }

    /// Parses the whole program: statements up to `EOF`, yielded as
    /// one `Block`, exactly as [`spec_program`] describes from the
    /// empty statement list.
    pub fn parse(&mut self) -> (r: Result<Node, CompileError>)
        requires
            old(self).wf(),
        ensures
            parse_post(
                *old(self),
                *final(self),
                r,
                spec_program(old(self).toks(), old(self).tl(), old(self).st(), Seq::empty()),
            ),
    {
        let acc: Vec<Node> = Vec::new();
        proof {
            assert(deep_view_seq(acc@) =~= Seq::<SpecNode>::empty());
        }
        self.consume_program(acc)
    }

    fn consume_program(&mut self, acc: Vec<Node>) -> (r: Result<Node, CompileError>)
        requires
            old(self).wf(),
            wf_seq(deep_view_seq(acc@)),
        ensures
            parse_post(
                *old(self),
                *final(self),
                r,
                spec_program(
                    old(self).toks(),
                    old(self).tl(),
                    old(self).st(),
                    deep_view_seq(acc@),
                ),
            ),
        decreases self.toks().len() + 1 - self.st().pos, 11int,
    {
        let ghost st0 = old(self).st();
        if self.next_eof().is_some() {
            return Ok(Node::Block { statements: acc });
        }
        match self.consume_statement() {
            Err(e) => Err(e),
            Ok(nd) => {
                proof {
                    assert(st0.pos < self.st().pos <= self.toks().len());
                    lemma_deep_view_seq_push(acc@, nd);
                    assert(deep_view_seq(acc@.push(nd)).drop_last() =~= deep_view_seq(acc@));
                    assert(deep_view_seq(acc@.push(nd)).last() == nd.deep_view());
                    assert(wf_seq(deep_view_seq(acc@.push(nd))));
                }
                let mut acc2 = acc;
                acc2.push(nd);
                self.consume_program(acc2)
            },
        }
    }

    /// One statement, exactly as [`spec_statement`] describes.
    #[verifier::rlimit(100)]
    pub fn consume_statement(&mut self) -> (r: Result<Node, CompileError>)
        requires
            old(self).wf(),
        ensures
            parse_post(
                *old(self),
                *final(self),
                r,
                spec_statement(old(self).toks(), old(self).tl(), old(self).st()),
            ),
        decreases self.toks().len() + 1 - self.st().pos, 9int,
    {
        let ghost toks = old(self).toks();
        let ghost tl = old(self).tl();
        let ghost st0 = old(self).st();
        let ghost n = toks.len();
        if self.next_symbol_curly_bracket_left().is_some() {
            let empty_acc: Vec<Node> = Vec::new();
            proof {
                assert(deep_view_seq(empty_acc@) =~= Seq::<SpecNode>::empty());
            }
            let statements = self.consume_block_items(empty_acc);
            proof {
                assert(self.st() == spec_block_items(toks, tl, advance(st0), Seq::empty()).1);
            }
            if self.next_symbol_curly_bracket_right().is_none() {
                return Err(
                    self.error_expected_rbrace(),
                );
            }
            Ok(Node::Block { statements })
        } else if self.next_keyword_return().is_some() {
            let ghost st_a = advance(st0);
            let expression = match self.consume_expression() {
                Ok(x) => x,
                Err(e) => {
                    return Err(e);
                },
            };
            proof {
                assert(self.st() == chain(n, st_a, spec_expression(toks, tl, st_a).st, true));
            }
            if self.next_symbol_semicolon().is_none() {
                return Err(self.error_expected_semicolon());
            }
            Ok(Node::Return { value: Box::new(expression) })
        } else if self.next_keyword_if().is_some() {
            self.consume_if_statement()
        } else if self.next_keyword_while().is_some() {
            self.consume_while_statement()
        } else if self.next_keyword_for().is_some() {
            self.consume_for_statement()
        } else {
            let expression = match self.consume_expression() {
                Ok(x) => x,
                Err(e) => {
                    return Err(e);
                },
            };
            proof {
                assert(self.st() == chain(n, st0, spec_expression(toks, tl, st0).st, true));
            }
            if self.next_symbol_semicolon().is_none() {
                return Err(self.error_expected_semicolon());
            }
            Ok(expression)
        }
    }

    fn consume_block_items(&mut self, acc: Vec<Node>) -> (r: Vec<Node>)
        requires
            old(self).wf(),
            wf_seq(deep_view_seq(acc@)),
        ensures
            final(self).wf(),
            final(self).toks() == old(self).toks(),
            final(self).tl() == old(self).tl(),
            ({
                let out = spec_block_items(
                    old(self).toks(),
                    old(self).tl(),
                    old(self).st(),
                    deep_view_seq(acc@),
                );
                deep_view_seq(r@) == out.0 && final(self).st() == out.1 && wf_seq(out.0)
            }),
            old(self).st().pos <= final(self).st().pos,
            final(self).st().suffix + old(self).st().pos <= old(self).st().suffix + final(self).st().pos,
            final(self).st().locals.len() + old(self).st().pos <= old(self).st().locals.len() + final(self).st().pos,
        decreases self.toks().len() + 1 - self.st().pos, 11int,
    {
        let ghost st0 = old(self).st();
        match self.consume_statement() {
            Err(_) => acc,
            Ok(nd) => {
                proof {
                    assert(st0.pos < self.st().pos <= self.toks().len());
                    lemma_deep_view_seq_push(acc@, nd);
                    assert(deep_view_seq(acc@.push(nd)).drop_last() =~= deep_view_seq(acc@));
                    assert(deep_view_seq(acc@.push(nd)).last() == nd.deep_view());
                    assert(wf_seq(deep_view_seq(acc@.push(nd))));
                }
                let mut acc2 = acc;
                acc2.push(nd);
                self.consume_block_items(acc2)
            },
        }
    }

    #[verifier::rlimit(100)]
    fn consume_if_statement(&mut self) -> (r: Result<Node, CompileError>)
        requires
            old(self).wf(),
        ensures
            parse_post(
                *old(self),
                *final(self),
                r,
                spec_if_statement(old(self).toks(), old(self).tl(), old(self).st()),
            ),
        decreases self.toks().len() + 1 - self.st().pos, 9int,
    {
        let ghost toks = old(self).toks();
        let ghost tl = old(self).tl();
        let ghost st0 = old(self).st();
        let ghost n = toks.len();
        if self.next_symbol_round_bracket_left().is_none() {
            return Err(self.error_expected_lparen());
        }
        let ghost st_a = advance(st0);
        let condition = match self.consume_expression() {
            Ok(x) => x,
            Err(e) => {
                return Err(e);
            },
        };
        let ghost st1 = chain(n, st_a, spec_expression(toks, tl, st_a).st, true);
        proof {
            assert(self.st() == st1);
        }
        if self.next_symbol_round_bracket_right().is_none() {
            return Err(self.error_expected_lparen());
        }
        let statement = match self.consume_statement() {
            Ok(x) => x,
            Err(e) => {
                return Err(e);
            },
        };
        let ghost st2 = chain(n, advance(st1), spec_statement(toks, tl, advance(st1)).st, true);
        proof {
            assert(self.st() == st2);
        }
        self.consume_if_tail(condition, statement)
    }

    #[verifier::rlimit(100)]
    fn consume_if_tail(&mut self, condition: Node, statement: Node) -> (r: Result<
        Node,
        CompileError,
    >)
        requires
            old(self).wf(),
            old(self).st().suffix < old(self).st().pos,
            condition.deep_view().wf(),
            statement.deep_view().wf(),
        ensures
            parse_post_mint(
                *old(self),
                *final(self),
                r,
                spec_if_tail(
                    old(self).toks(),
                    old(self).tl(),
                    condition.deep_view(),
                    statement.deep_view(),
                    old(self).st(),
                ),
            ),
        decreases self.toks().len() + 1 - self.st().pos, 10int,
    {
        let ghost toks = old(self).toks();
        let ghost tl = old(self).tl();
        let ghost st0 = old(self).st();
        let ghost n = toks.len();
        if self.next_keyword_else().is_some() {
            let else_statement = match self.consume_statement() {
                Ok(x) => x,
                Err(e) => {
                    return Err(e);
                },
            };
            let ghost st3 = chain(n, advance(st0), spec_statement(toks, tl, advance(st0)).st, true);
            proof {
                assert(self.st() == st3);
                assert(self.st().suffix < self.st().pos);
            }
            let label_suffix = self.get_next_label_suffix();
            Ok(
                Node::IfElse {
                    condition: Box::new(condition),
                    statement: Box::new(statement),
                    end_label: make_label(".Lend", label_suffix),
                    else_statement: Box::new(else_statement),
                    else_label: make_label(".Lelse", label_suffix),
                },
            )
        } else {
            let label_suffix = self.get_next_label_suffix();
            Ok(
                Node::If {
                    condition: Box::new(condition),
                    statement: Box::new(statement),
                    end_label: make_label(".Lend", label_suffix),
                },
            )
        }
    }

    /// Mints the loop labels and builds the `while` node.
    fn mint_while_node(&mut self, condition: Node, statement: Node) -> (nd: Node)
        requires
            old(self).wf(),
            old(self).st().suffix < old(self).st().pos,
        ensures
            final(self).wf(),
            final(self).toks() == old(self).toks(),
            final(self).tl() == old(self).tl(),
            final(self).st().pos == old(self).st().pos,
            final(self).st().locals == old(self).st().locals,
            final(self).st().suffix == old(self).st().suffix + 1,
            nd.deep_view() == (SpecNode::While {
                condition: Box::new(condition.deep_view()),
                statement: Box::new(statement.deep_view()),
                begin_label: label_begin(old(self).st().suffix + 1),
                end_label: label_end(old(self).st().suffix + 1),
            }),
            condition.deep_view().wf() && statement.deep_view().wf() ==> nd.deep_view().wf(),
    {
        let label_suffix = self.get_next_label_suffix();
        Node::While {
            condition: Box::new(condition),
            statement: Box::new(statement),
            begin_label: make_label(".Lbegin", label_suffix),
            end_label: make_label(".Lend", label_suffix),
        }
    }

    /// Mints the loop labels and builds the `for` node.
    fn mint_for_node(
        &mut self,
        initializer: Option<Node>,
        condition: Option<Node>,
        updater: Option<Node>,
        statement: Node,
    ) -> (nd: Node)
        requires
            old(self).wf(),
            old(self).st().suffix < old(self).st().pos,
        ensures
            final(self).wf(),
            final(self).toks() == old(self).toks(),
            final(self).tl() == old(self).tl(),
            final(self).st().pos == old(self).st().pos,
            final(self).st().locals == old(self).st().locals,
            final(self).st().suffix == old(self).st().suffix + 1,
            nd.deep_view() == spec_for_node(
                opt_node_view(initializer),
                opt_node_view(condition),
                opt_node_view(updater),
                statement.deep_view(),
                label_begin(old(self).st().suffix + 1),
                label_end(old(self).st().suffix + 1),
            ),
            (match initializer {
                Some(x) => x.deep_view().wf(),
                None => true,
            }) && (match condition {
                Some(x) => x.deep_view().wf(),
                None => true,
            }) && (match updater {
                Some(x) => x.deep_view().wf(),
                None => true,
            }) && statement.deep_view().wf() ==> nd.deep_view().wf(),
    {
        let label_suffix = self.get_next_label_suffix();
        for_node_of(
            initializer,
            condition,
            updater,
            statement,
            make_label(".Lbegin", label_suffix),
            make_label(".Lend", label_suffix),
        )
    }

    #[verifier::rlimit(100)]
    fn consume_while_statement(&mut self) -> (r: Result<Node, CompileError>)
        requires
            old(self).wf(),
        ensures
            parse_post(
                *old(self),
                *final(self),
                r,
                spec_while_statement(old(self).toks(), old(self).tl(), old(self).st()),
            ),
        decreases self.toks().len() + 1 - self.st().pos, 9int,
    {
        let ghost toks = old(self).toks();
        let ghost tl = old(self).tl();
        let ghost st0 = old(self).st();
        let ghost n = toks.len();
        if self.next_symbol_round_bracket_left().is_none() {
            return Err(self.error_expected_lparen());
        }
        let ghost st_a = advance(st0);
        let condition = match self.consume_expression() {
            Ok(x) => x,
            Err(e) => {
                return Err(e);
            },
        };
        let ghost st1 = chain(n, st_a, spec_expression(toks, tl, st_a).st, true);
        proof {
            assert(self.st() == st1);
        }
        if self.next_symbol_round_bracket_right().is_none() {
            return Err(self.error_expected_lparen());
        }
        self.consume_while_tail(condition)
    }

    #[verifier::rlimit(100)]
    fn consume_while_tail(&mut self, condition: Node) -> (r: Result<Node, CompileError>)
        requires
            old(self).wf(),
            old(self).st().suffix < old(self).st().pos,
            condition.deep_view().wf(),
        ensures
            parse_post_mint(
                *old(self),
                *final(self),
                r,
                spec_while_tail(
                    old(self).toks(),
                    old(self).tl(),
                    condition.deep_view(),
                    old(self).st(),
                ),
            ),
            r is Ok ==> old(self).st().pos < final(self).st().pos,
        decreases self.toks().len() + 1 - self.st().pos, 10int,
    {
        let ghost toks = old(self).toks();
        let ghost tl = old(self).tl();
        let ghost st0 = old(self).st();
        let ghost n = toks.len();
        let statement = match self.consume_statement() {
            Ok(x) => x,
            Err(e) => {
                return Err(e);
            },
        };
        let ghost st2 = chain(n, st0, spec_statement(toks, tl, st0).st, true);
        proof {
            assert(self.st() == st2);
        }
        self.consume_while_finish(condition, statement)
    }

    fn consume_while_finish(&mut self, condition: Node, statement: Node) -> (r: Result<
        Node,
        CompileError,
    >)
        requires
            old(self).wf(),
            old(self).st().suffix < old(self).st().pos,
            condition.deep_view().wf(),
            statement.deep_view().wf(),
        ensures
            parse_post_mint(
                *old(self),
                *final(self),
                r,
                spec_while_finish(
                    condition.deep_view(),
                    statement.deep_view(),
                    old(self).st(),
                ),
            ),
    {
        let nd = self.mint_while_node(condition, statement);
        Ok(nd)
    }

    #[verifier::rlimit(100)]
    fn consume_for_statement(&mut self) -> (r: Result<Node, CompileError>)
        requires
            old(self).wf(),
        ensures
            parse_post(
                *old(self),
                *final(self),
                r,
                spec_for_statement(old(self).toks(), old(self).tl(), old(self).st()),
            ),
        decreases self.toks().len() + 1 - self.st().pos, 9int,
    {
        let ghost toks = old(self).toks();
        let ghost tl = old(self).tl();
        let ghost st0 = old(self).st();
        let ghost n = toks.len();
        if self.next_symbol_round_bracket_left().is_none() {
            return Err(self.error_expected_lparen());
        }
        let ghost st_a = advance(st0);
        let initializer = match self.consume_expression() {
            Ok(x) => Some(x),
            Err(_) => None,
        };
        let ghost i0 = spec_expression(toks, tl, st_a);
        let ghost st_b = chain(n, st_a, i0.st, i0.res is Ok);
        proof {
            assert(self.st() == st_b);
            assert(opt_node_view(initializer) == (match i0.res {
                Ok(nd) => Some(nd),
                Err(_) => None::<SpecNode>,
            }));
        }
        if self.next_symbol_semicolon().is_none() {
            return Err(self.error_expected_semicolon());
        }
        let ghost st_c = advance(st_b);
        let condition = match self.consume_expression() {
            Ok(x) => Some(x),
            Err(_) => None,
        };
        let ghost c0 = spec_expression(toks, tl, st_c);
        let ghost st_d = chain(n, st_c, c0.st, c0.res is Ok);
        proof {
            assert(self.st() == st_d);
            assert(opt_node_view(condition) == (match c0.res {
                Ok(nd) => Some(nd),
                Err(_) => None::<SpecNode>,
            }));
        }
        if self.next_symbol_semicolon().is_none() {
            return Err(self.error_expected_semicolon());
        }
        let ghost st_e = advance(st_d);
        let updater = match self.consume_expression() {
            Ok(x) => Some(x),
            Err(_) => None,
        };
        let ghost u0 = spec_expression(toks, tl, st_e);
        let ghost st_f = chain(n, st_e, u0.st, u0.res is Ok);
        proof {
            assert(self.st() == st_f);
            assert(opt_node_view(updater) == (match u0.res {
                Ok(nd) => Some(nd),
                Err(_) => None::<SpecNode>,
            }));
        }
        if self.next_symbol_round_bracket_right().is_none() {
            return Err(self.error_expected_lparen());
        }
        self.consume_for_body(initializer, condition, updater)
    }

    #[verifier::rlimit(100)]
    fn consume_for_body(
        &mut self,
        initializer: Option<Node>,
        condition: Option<Node>,
        updater: Option<Node>,
    ) -> (r: Result<Node, CompileError>)
        requires
            old(self).wf(),
            old(self).st().suffix < old(self).st().pos,
            match initializer {
                Some(nd) => nd.deep_view().wf(),
                None => true,
            },
            match condition {
                Some(nd) => nd.deep_view().wf(),
                None => true,
            },
            match updater {
                Some(nd) => nd.deep_view().wf(),
                None => true,
            },
        ensures
            parse_post_mint(
                *old(self),
                *final(self),
                r,
                spec_for_body(
                    old(self).toks(),
                    old(self).tl(),
                    opt_node_view(initializer),
                    opt_node_view(condition),
                    opt_node_view(updater),
                    old(self).st(),
                ),
            ),
            r is Ok ==> old(self).st().pos < final(self).st().pos,
        decreases self.toks().len() + 1 - self.st().pos, 10int,
    {
        let ghost toks = old(self).toks();
        let ghost tl = old(self).tl();
        let ghost st0 = old(self).st();
        let ghost n = toks.len();
        let statement = match self.consume_statement() {
            Ok(x) => x,
            Err(e) => {
                return Err(e);
            },
        };
        let ghost st_g = chain(n, st0, spec_statement(toks, tl, st0).st, true);
        proof {
            assert(self.st() == st_g);
        }
        self.consume_for_finish(initializer, condition, updater, statement)
    }

    fn consume_for_finish(
        &mut self,
        initializer: Option<Node>,
        condition: Option<Node>,
        updater: Option<Node>,
        statement: Node,
    ) -> (r: Result<Node, CompileError>)
        requires
            old(self).wf(),
            old(self).st().suffix < old(self).st().pos,
            match initializer {
                Some(nd) => nd.deep_view().wf(),
                None => true,
            },
            match condition {
                Some(nd) => nd.deep_view().wf(),
                None => true,
            },
            match updater {
                Some(nd) => nd.deep_view().wf(),
                None => true,
            },
            statement.deep_view().wf(),
        ensures
            parse_post_mint(
                *old(self),
                *final(self),
                r,
                spec_for_finish(
                    opt_node_view(initializer),
                    opt_node_view(condition),
                    opt_node_view(updater),
                    statement.deep_view(),
                    old(self).st(),
                ),
            ),
    {
        let nd = self.mint_for_node(initializer, condition, updater, statement);
        Ok(nd)
    }

    /// One expression (`expression = assign`), exactly as
    /// [`spec_expression`] describes.
    pub fn consume_expression(&mut self) -> (r: Result<Node, CompileError>)
        requires
            old(self).wf(),
        ensures
            parse_post(
                *old(self),
                *final(self),
                r,
                spec_expression(old(self).toks(), old(self).tl(), old(self).st()),
            ),
        decreases self.toks().len() + 1 - self.st().pos, 8int,
    {
        self.consume_assign()
    }

    /// An assignment chain, exactly as [`spec_assign`] describes:
    /// right-associative, and the left side of `=` must be an
    /// l-value, with the diagnostic at its start.
    #[verifier::rlimit(100)]
    pub fn consume_assign(&mut self) -> (r: Result<Node, CompileError>)
        requires
            old(self).wf(),
        ensures
            parse_post(
                *old(self),
                *final(self),
                r,
                spec_assign(old(self).toks(), old(self).tl(), old(self).st()),
            ),
        decreases self.toks().len() + 1 - self.st().pos, 7int,
    {
        let ghost toks = old(self).toks();
        let ghost tl = old(self).tl();
        let ghost st0 = old(self).st();
        let ghost n = toks.len();
        let index = match self.current_index_in_text() {
            Some(i) => i,
            None => self.text_len,
        };
        let equality = match self.consume_equality() {
            Ok(x) => x,
            Err(e) => {
                return Err(e);
            },
        };
        let ghost st1 = chain(n, st0, spec_equality(toks, tl, st0).st, true);
        proof {
            assert(self.st() == st1);
            assert(st0.pos < n);
        }
        self.consume_assign_rest(equality, index)
    }

    #[verifier::rlimit(100)]
    fn consume_assign_rest(&mut self, lhs: Node, index: usize) -> (r: Result<Node, CompileError>)
        requires
            old(self).wf(),
            lhs.deep_view().wf(),
        ensures
            parse_post_weak(
                *old(self),
                *final(self),
                r,
                spec_assign_rest(
                    old(self).toks(),
                    old(self).tl(),
                    lhs.deep_view(),
                    index as nat,
                    old(self).st(),
                ),
            ),
        decreases self.toks().len() + 1 - self.st().pos, 10int,
    {
        if self.next_symbol_equal().is_some() {
            if !lhs.is_left_value() {
                return Err(CompileError::not_a_left_value(index));
            }
            let assign = match self.consume_assign() {
                Ok(x) => x,
                Err(e) => {
                    return Err(e);
                },
            };
            Ok(Node::OperatorAssign { lhs: Box::new(lhs), rhs: Box::new(assign) })
        } else {
            Ok(lhs)
        }
    }


    /// An equality chain, exactly as [`spec_equality`] describes.
    #[verifier::rlimit(100)]
    pub fn consume_equality(&mut self) -> (r: Result<Node, CompileError>)
        requires
            old(self).wf(),
        ensures
            parse_post(
                *old(self),
                *final(self),
                r,
                spec_equality(old(self).toks(), old(self).tl(), old(self).st()),
            ),
        decreases self.toks().len() + 1 - self.st().pos, 6int,
    {
        let ghost toks = old(self).toks();
        let ghost tl = old(self).tl();
        let ghost st0 = old(self).st();
        let ghost n = toks.len();
        let node = match self.consume_relational() {
            Ok(x) => x,
            Err(e) => {
                return Err(e);
            },
        };
        let ghost st1 = chain(n, st0, spec_relational(toks, tl, st0).st, true);
        proof {
            assert(self.st() == st1);
            assert(st0.pos < n);
        }
        self.consume_equality_tail(node)
    }

    #[verifier::rlimit(100)]
    fn consume_equality_tail(&mut self, lhs: Node) -> (r: Result<Node, CompileError>)
        requires
            old(self).wf(),
            lhs.deep_view().wf(),
        ensures
            parse_post_weak(
                *old(self),
                *final(self),
                r,
                spec_equality_tail(
                    old(self).toks(),
                    old(self).tl(),
                    lhs.deep_view(),
                    old(self).st(),
                ),
            ),
        decreases self.toks().len() + 1 - self.st().pos, 6int,
    {
        let ghost toks = old(self).toks();
        let ghost tl = old(self).tl();
        let ghost st0 = old(self).st();
        let ghost n = toks.len();
        match self.next_eq_op() {
            None => Ok(lhs),
            Some(op) => {
                let rhs = match self.consume_relational() {
                    Ok(x) => x,
                    Err(e) => {
                        return Err(e);
                    },
                };
                let ghost st_r = chain(n, advance(st0), spec_relational(toks, tl, advance(st0)).st, true);
                proof {
                    assert(self.st() == st_r);
                }
                let nd = eq_node_of(op, lhs, rhs);
                self.consume_equality_tail(nd)
            },
        }
    }

    /// An relational chain, exactly as [`spec_relational`] describes.
    #[verifier::rlimit(100)]
    pub fn consume_relational(&mut self) -> (r: Result<Node, CompileError>)
        requires
            old(self).wf(),
        ensures
            parse_post(
                *old(self),
                *final(self),
                r,
                spec_relational(old(self).toks(), old(self).tl(), old(self).st()),
            ),
        decreases self.toks().len() + 1 - self.st().pos, 5int,
    {
        let ghost toks = old(self).toks();
        let ghost tl = old(self).tl();
        let ghost st0 = old(self).st();
        let ghost n = toks.len();
        let node = match self.consume_add() {
            Ok(x) => x,
            Err(e) => {
                return Err(e);
            },
        };
        let ghost st1 = chain(n, st0, spec_add(toks, tl, st0).st, true);
        proof {
            assert(self.st() == st1);
            assert(st0.pos < n);
        }
        self.consume_relational_tail(node)
    }

    #[verifier::rlimit(100)]
    fn consume_relational_tail(&mut self, lhs: Node) -> (r: Result<Node, CompileError>)
        requires
            old(self).wf(),
            lhs.deep_view().wf(),
        ensures
            parse_post_weak(
                *old(self),
                *final(self),
                r,
                spec_relational_tail(
                    old(self).toks(),
                    old(self).tl(),
                    lhs.deep_view(),
                    old(self).st(),
                ),
            ),
        decreases self.toks().len() + 1 - self.st().pos, 5int,
    {
        let ghost toks = old(self).toks();
        let ghost tl = old(self).tl();
        let ghost st0 = old(self).st();
        let ghost n = toks.len();
        match self.next_rel_op() {
            None => Ok(lhs),
            Some(op) => {
                let rhs = match self.consume_add() {
                    Ok(x) => x,
                    Err(e) => {
                        return Err(e);
                    },
                };
                let ghost st_r = chain(n, advance(st0), spec_add(toks, tl, advance(st0)).st, true);
                proof {
                    assert(self.st() == st_r);
                }
                let nd = rel_node_of(op, lhs, rhs);
                self.consume_relational_tail(nd)
            },
        }
    }

    /// An additive chain, exactly as [`spec_add`] describes.
    #[verifier::rlimit(100)]
    pub fn consume_add(&mut self) -> (r: Result<Node, CompileError>)
        requires
            old(self).wf(),
        ensures
            parse_post(
                *old(self),
                *final(self),
                r,
                spec_add(old(self).toks(), old(self).tl(), old(self).st()),
            ),
        decreases self.toks().len() + 1 - self.st().pos, 4int,
    {
        let ghost toks = old(self).toks();
        let ghost tl = old(self).tl();
        let ghost st0 = old(self).st();
        let ghost n = toks.len();
        let node = match self.consume_mul() {
            Ok(x) => x,
            Err(e) => {
                return Err(e);
            },
        };
        let ghost st1 = chain(n, st0, spec_mul(toks, tl, st0).st, true);
        proof {
            assert(self.st() == st1);
            assert(st0.pos < n);
        }
        self.consume_add_tail(node)
    }

    #[verifier::rlimit(100)]
    fn consume_add_tail(&mut self, lhs: Node) -> (r: Result<Node, CompileError>)
        requires
            old(self).wf(),
            lhs.deep_view().wf(),
        ensures
            parse_post_weak(
                *old(self),
                *final(self),
                r,
                spec_add_tail(
                    old(self).toks(),
                    old(self).tl(),
                    lhs.deep_view(),
                    old(self).st(),
                ),
            ),
        decreases self.toks().len() + 1 - self.st().pos, 4int,
    {
        let ghost toks = old(self).toks();
        let ghost tl = old(self).tl();
        let ghost st0 = old(self).st();
        let ghost n = toks.len();
        if self.next_symbol_plus().is_some() {
            let rhs = match self.consume_mul() {
                Ok(x) => x,
                Err(e) => {
                    return Err(e);
                },
            };
            let ghost st_r = chain(n, advance(st0), spec_mul(toks, tl, advance(st0)).st, true);
            proof {
                assert(self.st() == st_r);
            }
            let nd = Node::OperatorAdd { lhs: Box::new(lhs), rhs: Box::new(rhs) };
            proof {
                assert(nd.deep_view() == add_op_node(SpecTokenKind::SymbolPlus, lhs.deep_view(), rhs.deep_view()));
            }
            self.consume_add_tail(nd)
        } else         if self.next_symbol_minus().is_some() {
            let rhs = match self.consume_mul() {
                Ok(x) => x,
                Err(e) => {
                    return Err(e);
                },
            };
            let ghost st_r = chain(n, advance(st0), spec_mul(toks, tl, advance(st0)).st, true);
            proof {
                assert(self.st() == st_r);
            }
            let nd = Node::OperatorSub { lhs: Box::new(lhs), rhs: Box::new(rhs) };
            proof {
                assert(nd.deep_view() == add_op_node(SpecTokenKind::SymbolMinus, lhs.deep_view(), rhs.deep_view()));
            }
            self.consume_add_tail(nd)
        } else         {
            Ok(lhs)
        }
    }

    /// An multiplicative chain, exactly as [`spec_mul`] describes.
    #[verifier::rlimit(100)]
    pub fn consume_mul(&mut self) -> (r: Result<Node, CompileError>)
        requires
            old(self).wf(),
        ensures
            parse_post(
                *old(self),
                *final(self),
                r,
                spec_mul(old(self).toks(), old(self).tl(), old(self).st()),
            ),
        decreases self.toks().len() + 1 - self.st().pos, 3int,
    {
        let ghost toks = old(self).toks();
        let ghost tl = old(self).tl();
        let ghost st0 = old(self).st();
        let ghost n = toks.len();
        let node = match self.consume_unary() {
            Ok(x) => x,
            Err(e) => {
                return Err(e);
            },
        };
        let ghost st1 = chain(n, st0, spec_unary(toks, tl, st0).st, true);
        proof {
            assert(self.st() == st1);
            assert(st0.pos < n);
        }
        self.consume_mul_tail(node)
    }

    #[verifier::rlimit(100)]
    fn consume_mul_tail(&mut self, lhs: Node) -> (r: Result<Node, CompileError>)
        requires
            old(self).wf(),
            lhs.deep_view().wf(),
        ensures
            parse_post_weak(
                *old(self),
                *final(self),
                r,
                spec_mul_tail(
                    old(self).toks(),
                    old(self).tl(),
                    lhs.deep_view(),
                    old(self).st(),
                ),
            ),
        decreases self.toks().len() + 1 - self.st().pos, 3int,
    {
        let ghost toks = old(self).toks();
        let ghost tl = old(self).tl();
        let ghost st0 = old(self).st();
        let ghost n = toks.len();
        if self.next_symbol_star().is_some() {
            let rhs = match self.consume_unary() {
                Ok(x) => x,
                Err(e) => {
                    return Err(e);
                },
            };
            let ghost st_r = chain(n, advance(st0), spec_unary(toks, tl, advance(st0)).st, true);
            proof {
                assert(self.st() == st_r);
            }
            let nd = Node::OperatorMul { lhs: Box::new(lhs), rhs: Box::new(rhs) };
            proof {
                assert(nd.deep_view() == mul_op_node(SpecTokenKind::SymbolStar, lhs.deep_view(), rhs.deep_view()));
            }
            self.consume_mul_tail(nd)
        } else         if self.next_symbol_slash().is_some() {
            let rhs = match self.consume_unary() {
                Ok(x) => x,
                Err(e) => {
                    return Err(e);
                },
            };
            let ghost st_r = chain(n, advance(st0), spec_unary(toks, tl, advance(st0)).st, true);
            proof {
                assert(self.st() == st_r);
            }
            let nd = Node::OperatorDiv { lhs: Box::new(lhs), rhs: Box::new(rhs) };
            proof {
                assert(nd.deep_view() == mul_op_node(SpecTokenKind::SymbolSlash, lhs.deep_view(), rhs.deep_view()));
            }
            self.consume_mul_tail(nd)
        } else         {
            Ok(lhs)
        }
    }

    /// A unary expression, exactly as [`spec_unary`] describes: `+x`
    /// is `x`, and `-x` is `0 - x`.
    #[verifier::rlimit(100)]
    pub fn consume_unary(&mut self) -> (r: Result<Node, CompileError>)
        requires
            old(self).wf(),
        ensures
            parse_post(
                *old(self),
                *final(self),
                r,
                spec_unary(old(self).toks(), old(self).tl(), old(self).st()),
            ),
        decreases self.toks().len() + 1 - self.st().pos, 2int,
    {
        if self.next_symbol_plus().is_some() {
            return self.consume_primary();
        } else if self.next_symbol_minus().is_some() {
            let rhs = match self.consume_primary() {
                Ok(x) => x,
                Err(e) => {
                    return Err(e);
                },
            };
            let nd = Node::OperatorSub {
                lhs: Box::new(Node::Integer { value: 0 }),
                rhs: Box::new(rhs),
            };
            proof {
                let zero = Node::Integer { value: 0 };
                assert(zero.deep_view() == (SpecNode::Integer { value: 0 }));
                assert(zero.deep_view().wf());
                assert(nd.deep_view() == (SpecNode::OperatorSub {
                    lhs: Box::new(SpecNode::Integer { value: 0 }),
                    rhs: Box::new(rhs.deep_view()),
                }));
            }
            return Ok(nd);
        }
        self.consume_primary()
    }

    /// A primary expression, exactly as [`spec_primary`] describes:
    /// an integer, an identifier (a call when `(` follows, else a
    /// variable reference with its stable slot), or a parenthesized
    /// expression.
    #[verifier::rlimit(100)]
    pub fn consume_primary(&mut self) -> (r: Result<Node, CompileError>)
        requires
            old(self).wf(),
        ensures
            parse_post(
                *old(self),
                *final(self),
                r,
                spec_primary(old(self).toks(), old(self).tl(), old(self).st()),
            ),
        decreases self.toks().len() + 1 - self.st().pos, 1int,
    {
        let ghost toks = old(self).toks();
        let ghost tl = old(self).tl();
        let ghost st0 = old(self).st();
        if let Some(value) = self.next_numeric_value() {
            let nd = Node::Integer { value };
            proof {
                assert(spec_primary(toks, tl, st0) == (SpecParseOut {
                    res: Ok(nd.deep_view()),
                    st: advance(st0),
                }));
            }
            Ok(nd)
        } else if let Some(value) = self.next_identifier() {
            if self.next_symbol_round_bracket_left().is_some() {
                proof {
                    assert(spec_primary(toks, tl, st0) == spec_call_primary(
                        toks,
                        tl,
                        value@,
                        advance(advance(st0)),
                    ));
                }
                self.consume_call_primary(value)
            } else {
                proof {
                    assert(self.st().locals == st0.locals);
                    assert(8 * (self.st().locals.len() + 2) <= usize::MAX);
                    assert(spec_primary(toks, tl, st0) == spec_var_primary(
                        value@,
                        advance(st0),
                    ));
                }
                let ghost st1 = self.st();
                let offset = self.get_or_insert_local_offset(value.clone());
                proof {
                    assert(self.st().locals.len() <= st1.locals.len() + 1 <= self.st().pos);
                }
                Ok(Node::LocalVariable { identifier: value, offset })
            }
        } else if self.next_symbol_round_bracket_left().is_some() {
            proof {
                assert(spec_primary(toks, tl, st0) == spec_paren_primary(
                    toks,
                    tl,
                    advance(st0),
                ));
            }
            self.consume_paren_primary()
        } else {
            Err(self.error_expected_primary())
        }
    }

    #[verifier::rlimit(100)]
    fn consume_paren_primary(&mut self) -> (r: Result<Node, CompileError>)
        requires
            old(self).wf(),
        ensures
            parse_post(
                *old(self),
                *final(self),
                r,
                spec_paren_primary(old(self).toks(), old(self).tl(), old(self).st()),
            ),
        decreases self.toks().len() + 1 - self.st().pos, 10int,
    {
        let ghost toks = old(self).toks();
        let ghost tl = old(self).tl();
        let ghost st0 = old(self).st();
        let ghost n = toks.len();
        let node = match self.consume_expression() {
            Ok(x) => x,
            Err(e) => {
                return Err(e);
            },
        };
        let ghost st1 = chain(n, st0, spec_expression(toks, tl, st0).st, true);
        proof {
            assert(self.st() == st1);
        }
        if self.next_symbol_round_bracket_right().is_none() {
            return Err(self.error_expected_rparen());
        }
        Ok(node)
    }

    #[verifier::rlimit(100)]
    fn consume_call_primary(&mut self, name: String) -> (r: Result<Node, CompileError>)
        requires
            old(self).wf(),
        ensures
            parse_post(
                *old(self),
                *final(self),
                r,
                spec_call_primary(old(self).toks(), old(self).tl(), name@, old(self).st()),
            ),
        decreases self.toks().len() + 1 - self.st().pos, 10int,
    {
        let arguments = match self.consume_call_args() {
            Ok(a) => a,
            Err(e) => {
                return Err(e);
            },
        };
        self.consume_call_finish(name, arguments)
    }

    fn consume_call_finish(&mut self, name: String, arguments: Vec<Node>) -> (r: Result<
        Node,
        CompileError,
    >)
        requires
            old(self).wf(),
            wf_seq(deep_view_seq(arguments@)),
            deep_view_seq(arguments@).len() <= 6,
        ensures
            parse_post_weak(
                *old(self),
                *final(self),
                r,
                spec_call_finish(
                    old(self).toks(),
                    old(self).tl(),
                    name@,
                    deep_view_seq(arguments@),
                    old(self).st(),
                ),
            ),
    {
        if self.next_symbol_round_bracket_right().is_none() {
            return Err(self.error_expected_rparen());
        }
        Ok(Node::FunctionCall { identifier: name, arguments })
    }

    #[verifier::rlimit(100)]
    fn consume_call_args(&mut self) -> (r: Result<Vec<Node>, CompileError>)
        requires
            old(self).wf(),
        ensures
            args_post(
                *old(self),
                *final(self),
                r,
                spec_call_args(old(self).toks(), old(self).tl(), old(self).st()),
            ),
        decreases self.toks().len() + 1 - self.st().pos, 9int,
    {
        let ghost st0 = old(self).st();
        match self.consume_expression() {
            Err(_) => {
                let empty: Vec<Node> = Vec::new();
                proof {
                    assert(deep_view_seq(empty@) =~= Seq::<SpecNode>::empty());
                }
                Ok(empty)
            },
            Ok(a0) => {
                proof {
                    assert(st0.pos < self.st().pos <= self.toks().len());
                }
                let mut acc: Vec<Node> = Vec::new();
                proof {
                    lemma_deep_view_seq_push(acc@, a0);
                    assert(deep_view_seq(acc@) =~= Seq::<SpecNode>::empty());
                }
                acc.push(a0);
                proof {
                    assert(deep_view_seq(acc@) =~= seq![a0.deep_view()]);
                    assert(deep_view_seq(acc@).drop_last() =~= Seq::<SpecNode>::empty());
                    assert(wf_seq(deep_view_seq(acc@).drop_last()));
                    assert(deep_view_seq(acc@).last() == a0.deep_view());
                    assert(wf_seq(deep_view_seq(acc@)));
                }
                self.consume_call_args_tail(acc)
            },
        }
    }

    #[verifier::rlimit(100)]
    fn consume_call_args_tail(&mut self, acc: Vec<Node>) -> (r: Result<Vec<Node>, CompileError>)
        requires
            old(self).wf(),
            wf_seq(deep_view_seq(acc@)),
            acc@.len() <= 6,
        ensures
            args_post(
                *old(self),
                *final(self),
                r,
                spec_call_args_tail(
                    old(self).toks(),
                    old(self).tl(),
                    old(self).st(),
                    deep_view_seq(acc@),
                ),
            ),
        decreases self.toks().len() + 1 - self.st().pos, 9int,
    {
        let ghost toks = old(self).toks();
        let ghost tl = old(self).tl();
        let ghost st0 = old(self).st();
        let ghost n = toks.len();
        proof {
            crate::ast::lemma_deep_view_seq_len(acc@);
        }
        if self.peek_comma() {
            if acc.len() >= 6 {
                return Err(self.error_expected_rparen());
            }
            let consumed = self.next_symbol_comma();
            proof {
                assert(consumed is Some);
            }
            let a = match self.consume_expression() {
                Ok(x) => x,
                Err(e) => {
                    return Err(e);
                },
            };
            let ghost st_r = chain(n, advance(st0), spec_expression(toks, tl, advance(st0)).st, true);
            proof {
                assert(self.st() == st_r);
                lemma_deep_view_seq_push(acc@, a);
                assert(deep_view_seq(acc@.push(a)).drop_last() =~= deep_view_seq(acc@));
                assert(deep_view_seq(acc@.push(a)).last() == a.deep_view());
                assert(wf_seq(deep_view_seq(acc@.push(a))));
                crate::ast::lemma_deep_view_seq_len(acc@.push(a));
            }
            let mut acc2 = acc;
            acc2.push(a);
            self.consume_call_args_tail(acc2)
        } else {
            Ok(acc)
        }
    }

}

} // verus!
