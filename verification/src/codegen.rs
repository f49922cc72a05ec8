//! The code generator: lowers the tree to Intel-syntax x86-64 lines
//! with a pure stack discipline (every expression pushes exactly one
//! value; a statement's value is popped into `rax`), and wraps the
//! body in the fixed frame prologue and epilogue.

use vstd::prelude::*;
use vstd::string::*;

use crate::ast::{Node, SpecNode};
use crate::decimal::{dec_digits, dec_int_digits, push_dec_i64, push_dec_u64};

verus! {

/// One emitted line of the function body.
#[derive(Debug, PartialEq)]
pub enum AsmLine {
    /// An instruction, rendered indented by four spaces.
    Op(String),
    /// A label definition, rendered flush left with a trailing `:`.
    Label(String),
}

/// The abstraction of an emitted line.
#[verifier::ext_equal]
pub enum SpecAsmLine {
    Op(Seq<char>),
    Label(Seq<char>),
}

impl DeepView for AsmLine {
    type V = SpecAsmLine;

    open spec fn deep_view(&self) -> SpecAsmLine {
        match self {
            AsmLine::Op(s) => SpecAsmLine::Op(s@),
            AsmLine::Label(s) => SpecAsmLine::Label(s@),
        }
    }
}

/// The register receiving the `i`-th call argument, per the System V
/// convention.
pub open spec fn reg_name(i: nat) -> Seq<char> {
    if i == 0 {
        "rdi"@
    } else if i == 1 {
        "rsi"@
    } else if i == 2 {
        "rdx"@
    } else if i == 3 {
        "rcx"@
    } else if i == 4 {
        "r8"@
    } else {
        "r9"@
    }
}

/// The address-push sequence for an l-value: the variable's slot
/// address, `rbp - offset`, pushed. Only a local variable has one.
pub open spec fn spec_emit_lvalue(n: SpecNode) -> Seq<SpecAsmLine> {
    match n {
        SpecNode::LocalVariable { identifier, offset } => seq![
            SpecAsmLine::Op("mov rax, rbp"@),
            SpecAsmLine::Op("sub rax, "@ + dec_digits(offset)),
            SpecAsmLine::Op("push rax"@),
        ],
        _ => Seq::empty(),
    }
}

/// The body lines a node lowers to.
pub open spec fn spec_emit(n: SpecNode) -> Seq<SpecAsmLine>
    decreases n,
{
    match n {
        SpecNode::Block { statements } => spec_emit_stmts(statements),
        SpecNode::Integer { value } => seq![SpecAsmLine::Op("push "@ + dec_int_digits(value))],
        SpecNode::LocalVariable { .. } => spec_emit_lvalue(n) + seq![
            SpecAsmLine::Op("pop rax"@),
            SpecAsmLine::Op("mov rax, [rax]"@),
            SpecAsmLine::Op("push rax"@),
        ],
        SpecNode::Return { value } => spec_emit(*value) + seq![
            SpecAsmLine::Op("pop rax"@),
            SpecAsmLine::Op("mov rsp, rbp"@),
            SpecAsmLine::Op("pop rbp"@),
            SpecAsmLine::Op("ret"@),
        ],
        SpecNode::If { condition, statement, end_label } => spec_emit(*condition) + seq![
            SpecAsmLine::Op("pop rax"@),
            SpecAsmLine::Op("cmp rax, 0"@),
            SpecAsmLine::Op("je "@ + end_label),
        ] + spec_emit(*statement) + seq![SpecAsmLine::Label(end_label)],
        SpecNode::IfElse { condition, statement, end_label, else_statement, else_label } => {
            spec_emit(*condition) + seq![
                SpecAsmLine::Op("pop rax"@),
                SpecAsmLine::Op("cmp rax, 0"@),
                SpecAsmLine::Op("je "@ + else_label),
            ] + spec_emit(*statement) + seq![
                SpecAsmLine::Op("jmp "@ + end_label),
                SpecAsmLine::Label(else_label),
            ] + spec_emit(*else_statement) + seq![SpecAsmLine::Label(end_label)]
        },
        SpecNode::While { condition, statement, begin_label, end_label } => seq![
            SpecAsmLine::Label(begin_label),
        ] + spec_emit(*condition) + seq![
            SpecAsmLine::Op("pop rax"@),
            SpecAsmLine::Op("cmp rax, 0"@),
            SpecAsmLine::Op("je "@ + end_label),
        ] + spec_emit(*statement) + seq![
            SpecAsmLine::Op("jmp "@ + begin_label),
            SpecAsmLine::Label(end_label),
        ],
        SpecNode::For { initializer, condition, updater, statement, begin_label, end_label } => {
            (match initializer {
                Some(init) => spec_emit(*init) + seq![SpecAsmLine::Op("pop rax"@)],
                None => Seq::empty(),
            }) + seq![SpecAsmLine::Label(begin_label)] + (match condition {
                Some(cond) => spec_emit(*cond) + seq![
                    SpecAsmLine::Op("pop rax"@),
                    SpecAsmLine::Op("cmp rax, 0"@),
                    SpecAsmLine::Op("je "@ + end_label),
                ],
                None => Seq::empty(),
            }) + spec_emit(*statement) + (match updater {
                Some(upd) => spec_emit(*upd) + seq![SpecAsmLine::Op("pop rax"@)],
                None => Seq::empty(),
            }) + seq![
                SpecAsmLine::Op("jmp "@ + begin_label),
                SpecAsmLine::Label(end_label),
            ]
        },
        SpecNode::FunctionCall { identifier, arguments } => spec_emit_args(arguments) + seq![
            SpecAsmLine::Op("call "@ + identifier),
        ],
        SpecNode::OperatorAdd { lhs, rhs } => spec_emit(*lhs) + spec_emit(*rhs) + seq![
            SpecAsmLine::Op("pop rdi"@),
            SpecAsmLine::Op("pop rax"@),
            SpecAsmLine::Op("add rax, rdi"@),
            SpecAsmLine::Op("push rax"@),
        ],
        SpecNode::OperatorSub { lhs, rhs } => spec_emit(*lhs) + spec_emit(*rhs) + seq![
            SpecAsmLine::Op("pop rdi"@),
            SpecAsmLine::Op("pop rax"@),
            SpecAsmLine::Op("sub rax, rdi"@),
            SpecAsmLine::Op("push rax"@),
        ],
        SpecNode::OperatorMul { lhs, rhs } => spec_emit(*lhs) + spec_emit(*rhs) + seq![
            SpecAsmLine::Op("pop rdi"@),
            SpecAsmLine::Op("pop rax"@),
            SpecAsmLine::Op("imul rax, rdi"@),
            SpecAsmLine::Op("push rax"@),
        ],
        SpecNode::OperatorDiv { lhs, rhs } => spec_emit(*lhs) + spec_emit(*rhs) + seq![
            SpecAsmLine::Op("pop rdi"@),
            SpecAsmLine::Op("pop rax"@),
            SpecAsmLine::Op("cqo"@),
            SpecAsmLine::Op("idiv rdi"@),
            SpecAsmLine::Op("push rax"@),
        ],
        SpecNode::OperatorLt { lhs, rhs } => spec_emit(*lhs) + spec_emit(*rhs) + seq![
            SpecAsmLine::Op("pop rdi"@),
            SpecAsmLine::Op("pop rax"@),
            SpecAsmLine::Op("cmp rax, rdi"@),
            SpecAsmLine::Op("setl al"@),
            SpecAsmLine::Op("movzb rax, al"@),
            SpecAsmLine::Op("push rax"@),
        ],
        SpecNode::OperatorLtEq { lhs, rhs } => spec_emit(*lhs) + spec_emit(*rhs) + seq![
            SpecAsmLine::Op("pop rdi"@),
            SpecAsmLine::Op("pop rax"@),
            SpecAsmLine::Op("cmp rax, rdi"@),
            SpecAsmLine::Op("setle al"@),
            SpecAsmLine::Op("movzb rax, al"@),
            SpecAsmLine::Op("push rax"@),
        ],
        SpecNode::OperatorEq { lhs, rhs } => spec_emit(*lhs) + spec_emit(*rhs) + seq![
            SpecAsmLine::Op("pop rdi"@),
            SpecAsmLine::Op("pop rax"@),
            SpecAsmLine::Op("cmp rax, rdi"@),
            SpecAsmLine::Op("sete al"@),
            SpecAsmLine::Op("movzb rax, al"@),
            SpecAsmLine::Op("push rax"@),
        ],
        SpecNode::OperatorNe { lhs, rhs } => spec_emit(*lhs) + spec_emit(*rhs) + seq![
            SpecAsmLine::Op("pop rdi"@),
            SpecAsmLine::Op("pop rax"@),
            SpecAsmLine::Op("cmp rax, rdi"@),
            SpecAsmLine::Op("setne al"@),
            SpecAsmLine::Op("movzb rax, al"@),
            SpecAsmLine::Op("push rax"@),
        ],
        SpecNode::OperatorAssign { lhs, rhs } => spec_emit_lvalue(*lhs) + spec_emit(*rhs) + seq![
            SpecAsmLine::Op("pop rdi"@),
            SpecAsmLine::Op("pop rax"@),
            SpecAsmLine::Op("mov [rax], rdi"@),
            SpecAsmLine::Op("push rdi"@),
        ],
    }
}

/// The lines a statement sequence lowers to: each statement, then
/// `pop rax` to discard its value.
pub open spec fn spec_emit_stmts(s: Seq<SpecNode>) -> Seq<SpecAsmLine>
    decreases s,
{
    if s.len() == 0 {
        Seq::empty()
    } else {
        spec_emit_stmts(s.drop_last()) + spec_emit(s.last()) + seq![SpecAsmLine::Op("pop rax"@)]
    }
}

/// The lines an argument list lowers to: each argument, then a pop
/// into its register.
pub open spec fn spec_emit_args(s: Seq<SpecNode>) -> Seq<SpecAsmLine>
    decreases s,
{
    if s.len() == 0 {
        Seq::empty()
    } else {
        spec_emit_args(s.drop_last()) + spec_emit(s.last()) + seq![
            SpecAsmLine::Op("pop "@ + reg_name((s.len() - 1) as nat)),
        ]
    }
}

/// One rendered line: instructions indented four spaces, labels flush
/// left with `:`, each ended by a newline.
pub open spec fn spec_render_line(l: SpecAsmLine) -> Seq<char> {
    match l {
        SpecAsmLine::Op(s) => "    "@ + s + "\n"@,
        SpecAsmLine::Label(s) => s + ":\n"@,
    }
}

/// The rendering of a line sequence.
pub open spec fn spec_render(lines: Seq<SpecAsmLine>) -> Seq<char>
    decreases lines.len(),
{
    if lines.len() == 0 {
        Seq::empty()
    } else {
        spec_render(lines.drop_last()) + spec_render_line(lines.last())
    }
}

/// The fixed wrapper around the body: directives, `main`, and the
/// frame with its 208-byte local area.
pub open spec fn spec_prologue() -> Seq<char> {
    ".intel_syntax noprefix\n.global main\nmain:\n    push rbp\n    mov rbp, rsp\n    sub rsp, 208\n"@
}

/// The frame teardown after the body.
pub open spec fn spec_epilogue() -> Seq<char> {
    "    mov rsp, rbp\n    pop rbp\n    ret"@
}

/// The whole program a well-formed tree compiles to.
pub open spec fn spec_asm_string(n: SpecNode) -> Seq<char> {
    spec_prologue() + spec_render(spec_emit(n)) + spec_epilogue()
}


/// Appends one line; the view grows by exactly that line.
fn push_line(out: &mut Vec<AsmLine>, line: AsmLine)
    ensures
        final(out).deep_view() == old(out).deep_view() + seq![line.deep_view()],
{
    let ghost pre = out.deep_view();
    let ghost lv = line.deep_view();
    out.push(line);
    proof {
        assert(out.deep_view() =~= pre.push(lv));
        assert(pre.push(lv) =~= pre + seq![lv]);
    }
}

fn op_static(text: &'static str) -> (l: AsmLine)
    ensures
        l.deep_view() == SpecAsmLine::Op(text@),
{
    AsmLine::Op(text.to_owned())
}

/// Appends the address-push sequence of the l-value `node`.
fn emit_lvalue(node: &Node, out: &mut Vec<AsmLine>)
    requires
        node.deep_view() is LocalVariable,
    ensures
        final(out).deep_view() == old(out).deep_view() + spec_emit_lvalue(node.deep_view()),
{
    let ghost pre = out.deep_view();
    match node {
        Node::LocalVariable { identifier: _, offset } => {
            push_line(out, op_static("mov rax, rbp"));
            let mut s = String::new();
            s.append("sub rax, ");
            push_dec_u64(&mut s, *offset as u64);
            push_line(out, AsmLine::Op(s));
            push_line(out, op_static("push rax"));
            proof {
                assert(out.deep_view() =~~= pre + spec_emit_lvalue(node.deep_view()));
            }
        },
        _ => {
            proof {
                assert(false);
            }
        },
    }
}

/// Appends the body lines of `node`, as [`spec_emit`] describes.
#[verifier::loop_isolation(false)]
#[verifier::rlimit(100)]
fn emit_node(node: &Node, out: &mut Vec<AsmLine>)
    requires
        node.deep_view().wf(),
    ensures
        final(out).deep_view() == old(out).deep_view() + spec_emit(node.deep_view()),
    decreases *node, 1int,
{
    let ghost pre = out.deep_view();
    match node {
        Node::Block { statements } => {
            let mut i: usize = 0;
            while i < statements.len()
                invariant
                    i <= statements@.len(),
                    out.deep_view() == pre + spec_emit_stmts(
                        crate::ast::deep_view_seq(statements@).subrange(0, i as int),
                    ),
                decreases statements@.len() - i,
            {
                proof {
                    assert(decreases_to!(*node => (*node)->statements));
                    assert((*node)->statements == *statements);
                    assert(decreases_to!(*statements => statements@));
                    assert(decreases_to!(statements@ => statements@[i as int]));
                    assert(decreases_to!(*node => statements@[i as int]));
                    assert(node.deep_view() == (SpecNode::Block {
                        statements: crate::ast::deep_view_seq(statements@),
                    }));
                    assert(crate::ast::wf_seq(crate::ast::deep_view_seq(statements@)));
                    crate::ast::lemma_deep_view_seq_len(statements@);
                    crate::ast::lemma_wf_seq_index(crate::ast::deep_view_seq(statements@));
                    assert(crate::ast::deep_view_seq(statements@)[i as int]
                        == statements@[i as int].deep_view());
                    assert(crate::ast::deep_view_seq(statements@)[i as int].wf());
                    assert(statements@[i as int].deep_view().wf());
                }
                emit_node(&statements[i], out);
                push_line(out, op_static("pop rax"));
                proof {
                    let dv = crate::ast::deep_view_seq(statements@);
                    assert(dv.subrange(0, i + 1).drop_last() =~= dv.subrange(0, i as int));
                    assert(dv.subrange(0, i + 1).last() == dv[i as int]);
                    assert(out.deep_view() =~~= pre + spec_emit_stmts(dv.subrange(0, i + 1)));
                }
                i = i + 1;
            }
            proof {
                let dv = crate::ast::deep_view_seq(statements@);
                crate::ast::lemma_deep_view_seq_len(statements@);
                assert(dv.subrange(0, dv.len() as int) =~= dv);
            }
        },
        Node::Integer { value } => {
            let mut s = String::new();
            s.append("push ");
            push_dec_i64(&mut s, *value as i64);
            proof {
                assert(node.deep_view() == (SpecNode::Integer { value: *value as int }));
                assert(s@ == "push "@ + dec_int_digits(*value as int));
            }
            push_line(out, AsmLine::Op(s));
            proof {
                assert(out.deep_view() =~~= pre + spec_emit(node.deep_view()));
            }
        },
        Node::LocalVariable { .. } => {
            proof {
                assert(node.deep_view() is LocalVariable);
            }
            emit_lvalue(node, out);
            push_line(out, op_static("pop rax"));
            push_line(out, op_static("mov rax, [rax]"));
            push_line(out, op_static("push rax"));
            proof {
                assert(out.deep_view() =~~= pre + spec_emit(node.deep_view()));
            }
        },
        Node::Return { value } => {
            emit_node(value, out);
            push_line(out, op_static("pop rax"));
            push_line(out, op_static("mov rsp, rbp"));
            push_line(out, op_static("pop rbp"));
            push_line(out, op_static("ret"));
            proof {
                assert(out.deep_view() =~~= pre + spec_emit(node.deep_view()));
            }
        },
        Node::If { condition, statement, end_label } => {
            emit_node(condition, out);
            push_line(out, op_static("pop rax"));
            push_line(out, op_static("cmp rax, 0"));
            let mut j = String::new();
            j.append("je ");
            j.append(end_label.as_str());
            push_line(out, AsmLine::Op(j));
            emit_node(statement, out);
            push_line(out, AsmLine::Label(end_label.clone()));
            proof {
                assert(out.deep_view() =~~= pre + spec_emit(node.deep_view()));
            }
        },
        Node::IfElse { condition, statement, end_label, else_statement, else_label } => {
            emit_node(condition, out);
            push_line(out, op_static("pop rax"));
            push_line(out, op_static("cmp rax, 0"));
            let mut j = String::new();
            j.append("je ");
            j.append(else_label.as_str());
            push_line(out, AsmLine::Op(j));
            emit_node(statement, out);
            let mut jm = String::new();
            jm.append("jmp ");
            jm.append(end_label.as_str());
            push_line(out, AsmLine::Op(jm));
            push_line(out, AsmLine::Label(else_label.clone()));
            emit_node(else_statement, out);
            push_line(out, AsmLine::Label(end_label.clone()));
            proof {
                assert(out.deep_view() =~~= pre + spec_emit(node.deep_view()));
            }
        },
        Node::While { condition, statement, begin_label, end_label } => {
            push_line(out, AsmLine::Label(begin_label.clone()));
            emit_node(condition, out);
            push_line(out, op_static("pop rax"));
            push_line(out, op_static("cmp rax, 0"));
            let mut j = String::new();
            j.append("je ");
            j.append(end_label.as_str());
            push_line(out, AsmLine::Op(j));
            emit_node(statement, out);
            let mut jm = String::new();
            jm.append("jmp ");
            jm.append(begin_label.as_str());
            push_line(out, AsmLine::Op(jm));
            push_line(out, AsmLine::Label(end_label.clone()));
            proof {
                assert(out.deep_view() =~~= pre + spec_emit(node.deep_view()));
            }
        },
        Node::For { initializer, condition, updater, statement, begin_label, end_label } => {
            match initializer {
                Some(init) => {
                    emit_node(init, out);
                    push_line(out, op_static("pop rax"));
                },
                None => {},
            }
            push_line(out, AsmLine::Label(begin_label.clone()));
            match condition {
                Some(cond) => {
                    emit_node(cond, out);
                    push_line(out, op_static("pop rax"));
                    push_line(out, op_static("cmp rax, 0"));
                    let mut j = String::new();
                    j.append("je ");
                    j.append(end_label.as_str());
                    push_line(out, AsmLine::Op(j));
                },
                None => {},
            }
            emit_node(statement, out);
            match updater {
                Some(upd) => {
                    emit_node(upd, out);
                    push_line(out, op_static("pop rax"));
                },
                None => {},
            }
            let mut jm = String::new();
            jm.append("jmp ");
            jm.append(begin_label.as_str());
            push_line(out, AsmLine::Op(jm));
            push_line(out, AsmLine::Label(end_label.clone()));
            proof {
                assert(out.deep_view() =~~= pre + spec_emit(node.deep_view()));
            }
        },
        Node::FunctionCall { identifier, arguments } => {
            let mut i: usize = 0;
            while i < arguments.len()
                invariant
                    i <= arguments@.len(),
                    out.deep_view() == pre + spec_emit_args(
                        crate::ast::deep_view_seq(arguments@).subrange(0, i as int),
                    ),
                decreases arguments@.len() - i,
            {
                proof {
                    assert(decreases_to!(*node => (*node)->arguments));
                    assert((*node)->arguments == *arguments);
                    assert(decreases_to!(*arguments => arguments@));
                    assert(decreases_to!(arguments@ => arguments@[i as int]));
                    assert(decreases_to!(*node => arguments@[i as int]));
                    assert(node.deep_view() == (SpecNode::FunctionCall {
                        identifier: (*node)->FunctionCall_identifier@,
                        arguments: crate::ast::deep_view_seq(arguments@),
                    }));
                    assert(crate::ast::wf_seq(crate::ast::deep_view_seq(arguments@)));
                    crate::ast::lemma_deep_view_seq_len(arguments@);
                    crate::ast::lemma_wf_seq_index(crate::ast::deep_view_seq(arguments@));
                    assert(crate::ast::deep_view_seq(arguments@)[i as int]
                        == arguments@[i as int].deep_view());
                    assert(crate::ast::deep_view_seq(arguments@)[i as int].wf());
                    assert(arguments@[i as int].deep_view().wf());
                }
                emit_node(&arguments[i], out);
                let reg: &'static str = match i {
                    0 => "rdi",
                    1 => "rsi",
                    2 => "rdx",
                    3 => "rcx",
                    4 => "r8",
                    _ => "r9",
                };
                proof {
                    assert(reg@ == reg_name(i as nat));
                }
                let mut p = String::new();
                p.append("pop ");
                p.append(reg);
                push_line(out, AsmLine::Op(p));
                proof {
                    let dv = crate::ast::deep_view_seq(arguments@);
                    assert(dv.subrange(0, i + 1).drop_last() =~= dv.subrange(0, i as int));
                    assert(dv.subrange(0, i + 1).last() == dv[i as int]);
                    assert(out.deep_view() =~~= pre + spec_emit_args(dv.subrange(0, i + 1)));
                }
                i = i + 1;
            }
            let mut c = String::new();
            c.append("call ");
            c.append(identifier.as_str());
            push_line(out, AsmLine::Op(c));
            proof {
                let dv = crate::ast::deep_view_seq(arguments@);
                crate::ast::lemma_deep_view_seq_len(arguments@);
                assert(dv.subrange(0, dv.len() as int) =~= dv);
                assert(out.deep_view() =~~= pre + spec_emit(node.deep_view()));
            }
        },
        Node::OperatorAdd { .. } => {
            emit_operator(node, out);
        },
        Node::OperatorSub { .. } => {
            emit_operator(node, out);
        },
        Node::OperatorMul { .. } => {
            emit_operator(node, out);
        },
        Node::OperatorDiv { .. } => {
            emit_operator(node, out);
        },
        Node::OperatorLt { .. } => {
            emit_operator(node, out);
        },
        Node::OperatorLtEq { .. } => {
            emit_operator(node, out);
        },
        Node::OperatorEq { .. } => {
            emit_operator(node, out);
        },
        Node::OperatorNe { .. } => {
            emit_operator(node, out);
        },
        Node::OperatorAssign { .. } => {
            emit_operator(node, out);
        },
    }
}

/// Whether the node is a binary operator.
pub open spec fn spec_is_operator_node(n: &Node) -> bool {
    ||| n is OperatorAdd
    ||| n is OperatorSub
    ||| n is OperatorMul
    ||| n is OperatorDiv
    ||| n is OperatorLt
    ||| n is OperatorLtEq
    ||| n is OperatorEq
    ||| n is OperatorNe
    ||| n is OperatorAssign
}

/// Appends the body lines of a binary-operator node.
#[verifier::rlimit(100)]
fn emit_operator(node: &Node, out: &mut Vec<AsmLine>)
    requires
        node.deep_view().wf(),
        spec_is_operator_node(node),
    ensures
        final(out).deep_view() == old(out).deep_view() + spec_emit(node.deep_view()),
    decreases *node, 0int,
{
    let ghost pre = out.deep_view();
    match node {
        Node::OperatorAdd { lhs, rhs } => {
            emit_node(lhs, out);
            emit_node(rhs, out);
            push_line(out, op_static("pop rdi"));
            push_line(out, op_static("pop rax"));
            push_line(out, op_static("add rax, rdi"));
            push_line(out, op_static("push rax"));
            proof {
                assert(out.deep_view() =~~= pre + spec_emit(node.deep_view()));
            }
        },
        Node::OperatorSub { lhs, rhs } => {
            emit_node(lhs, out);
            emit_node(rhs, out);
            push_line(out, op_static("pop rdi"));
            push_line(out, op_static("pop rax"));
            push_line(out, op_static("sub rax, rdi"));
            push_line(out, op_static("push rax"));
            proof {
                assert(out.deep_view() =~~= pre + spec_emit(node.deep_view()));
            }
        },
        Node::OperatorMul { lhs, rhs } => {
            emit_node(lhs, out);
            emit_node(rhs, out);
            push_line(out, op_static("pop rdi"));
            push_line(out, op_static("pop rax"));
            push_line(out, op_static("imul rax, rdi"));
            push_line(out, op_static("push rax"));
            proof {
                assert(out.deep_view() =~~= pre + spec_emit(node.deep_view()));
            }
        },
        Node::OperatorDiv { lhs, rhs } => {
            emit_node(lhs, out);
            emit_node(rhs, out);
            push_line(out, op_static("pop rdi"));
            push_line(out, op_static("pop rax"));
            push_line(out, op_static("cqo"));
            push_line(out, op_static("idiv rdi"));
            push_line(out, op_static("push rax"));
            proof {
                assert(out.deep_view() =~~= pre + spec_emit(node.deep_view()));
            }
        },
        Node::OperatorLt { lhs, rhs } => {
            emit_node(lhs, out);
            emit_node(rhs, out);
            push_line(out, op_static("pop rdi"));
            push_line(out, op_static("pop rax"));
            push_line(out, op_static("cmp rax, rdi"));
            push_line(out, op_static("setl al"));
            push_line(out, op_static("movzb rax, al"));
            push_line(out, op_static("push rax"));
            proof {
                assert(out.deep_view() =~~= pre + spec_emit(node.deep_view()));
            }
        },
        Node::OperatorLtEq { lhs, rhs } => {
            emit_node(lhs, out);
            emit_node(rhs, out);
            push_line(out, op_static("pop rdi"));
            push_line(out, op_static("pop rax"));
            push_line(out, op_static("cmp rax, rdi"));
            push_line(out, op_static("setle al"));
            push_line(out, op_static("movzb rax, al"));
            push_line(out, op_static("push rax"));
            proof {
                assert(out.deep_view() =~~= pre + spec_emit(node.deep_view()));
            }
        },
        Node::OperatorEq { lhs, rhs } => {
            emit_node(lhs, out);
            emit_node(rhs, out);
            push_line(out, op_static("pop rdi"));
            push_line(out, op_static("pop rax"));
            push_line(out, op_static("cmp rax, rdi"));
            push_line(out, op_static("sete al"));
            push_line(out, op_static("movzb rax, al"));
            push_line(out, op_static("push rax"));
            proof {
                assert(out.deep_view() =~~= pre + spec_emit(node.deep_view()));
            }
        },
        Node::OperatorNe { lhs, rhs } => {
            emit_node(lhs, out);
            emit_node(rhs, out);
            push_line(out, op_static("pop rdi"));
            push_line(out, op_static("pop rax"));
            push_line(out, op_static("cmp rax, rdi"));
            push_line(out, op_static("setne al"));
            push_line(out, op_static("movzb rax, al"));
            push_line(out, op_static("push rax"));
            proof {
                assert(out.deep_view() =~~= pre + spec_emit(node.deep_view()));
            }
        },
        Node::OperatorAssign { lhs, rhs } => {
            proof {
                assert(lhs.deep_view().is_left_value());
            }
            emit_lvalue(lhs, out);
            emit_node(rhs, out);
            push_line(out, op_static("pop rdi"));
            push_line(out, op_static("pop rax"));
            push_line(out, op_static("mov [rax], rdi"));
            push_line(out, op_static("push rdi"));
            proof {
                assert(out.deep_view() =~~= pre + spec_emit(node.deep_view()));
            }
        },
        _ => {
            proof {
                assert(false);
            }
        },
    }
}


/// The whole emitted program for a well-formed tree: prologue, the
/// tree's body lines rendered (instructions indented, labels flush),
/// and the epilogue.
#[verifier::loop_isolation(false)]
pub fn into_asm_string(node: &Node) -> (r: String)
    requires
        node.deep_view().wf(),
    ensures
        r@ == spec_asm_string(node.deep_view()),
{
    let mut lines: Vec<AsmLine> = Vec::new();
    emit_node(node, &mut lines);
    proof {
        assert(lines.deep_view() =~~= spec_emit(node.deep_view()));
    }
    let mut out = String::new();
    out.append(
        ".intel_syntax noprefix\n.global main\nmain:\n    push rbp\n    mov rbp, rsp\n    sub rsp, 208\n",
    );
    let ghost all = lines.deep_view();
    let mut i: usize = 0;
    while i < lines.len()
        invariant
            i <= lines@.len(),
            out@ == spec_prologue() + spec_render(all.subrange(0, i as int)),
        decreases lines@.len() - i,
    {
        proof {
            assert(lines.deep_view()[i as int] == lines@[i as int].deep_view());
        }
        match &lines[i] {
            AsmLine::Op(s) => {
                out.append("    ");
                out.append(s.as_str());
                out.append("\n");
            },
            AsmLine::Label(s) => {
                out.append(s.as_str());
                out.append(":\n");
            },
        }
        proof {
            assert(all.subrange(0, i + 1).drop_last() =~= all.subrange(0, i as int));
            assert(all.subrange(0, i + 1).last() == all[i as int]);
            assert(out@ =~= spec_prologue() + spec_render(all.subrange(0, i + 1)));
        }
        i = i + 1;
    }
    proof {
        assert(all.subrange(0, all.len() as int) =~= all);
    }
    out.append("    mov rsp, rbp\n    pop rbp\n    ret");
    proof {
        assert(out@ =~= spec_asm_string(node.deep_view()));
    }
    out
}

} // verus!
