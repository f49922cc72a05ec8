use r9cc::ast::Node;
use r9cc::codegen::into_asm_string;
use r9cc::compile::compile;
use r9cc::error::CompileError;
use r9cc::parser::Parser;
use r9cc::token::TokenKind;
use r9cc::tokenizer::Tokenizer;

const PROLOGUE: &str = ".intel_syntax noprefix\n.global main\nmain:\n    push rbp\n    mov rbp, rsp\n    sub rsp, 208\n";
const EPILOGUE: &str = "    mov rsp, rbp\n    pop rbp\n    ret";

fn body(src: &str) -> String {
    let out = compile(src).unwrap();
    let inner = out.strip_prefix(PROLOGUE).unwrap();
    inner.strip_suffix(EPILOGUE).unwrap().to_string()
}

#[test]
fn integer_statement_body() {
    assert_eq!(body("42;"), "    push 42\n    pop rax\n");
}

#[test]
fn precedence_body() {
    assert_eq!(
        body("1 + 2 * 3;"),
        "    push 1\n    push 2\n    push 3\n    pop rdi\n    pop rax\n    imul rax, rdi\n    push rax\n    pop rdi\n    pop rax\n    add rax, rdi\n    push rax\n    pop rax\n"
    );
}

#[test]
fn assign_and_load_body() {
    assert_eq!(
        body("a = 3; a + 4;"),
        "    mov rax, rbp\n    sub rax, 8\n    push rax\n    push 3\n    pop rdi\n    pop rax\n    mov [rax], rdi\n    push rdi\n    pop rax\n    mov rax, rbp\n    sub rax, 8\n    push rax\n    pop rax\n    mov rax, [rax]\n    push rax\n    push 4\n    pop rdi\n    pop rax\n    add rax, rdi\n    push rax\n    pop rax\n"
    );
}

#[test]
fn if_return_body() {
    assert_eq!(
        body("if (1 < 2) return 7; return 9;"),
        "    push 1\n    push 2\n    pop rdi\n    pop rax\n    cmp rax, rdi\n    setl al\n    movzb rax, al\n    push rax\n    pop rax\n    cmp rax, 0\n    je .Lend1\n    push 7\n    pop rax\n    mov rsp, rbp\n    pop rbp\n    ret\n.Lend1:\n    pop rax\n    push 9\n    pop rax\n    mov rsp, rbp\n    pop rbp\n    ret\n    pop rax\n"
    );
}

#[test]
fn while_loop_emission() {
    let out = compile("i = 0; while (i < 10) i = i + 1; return i;").unwrap();
    let begin = out.find(".Lbegin1:").expect("begin label defined");
    let je = out.find("je .Lend1").expect("conditional exit");
    let jmp = out.find("jmp .Lbegin1").expect("back edge");
    let end = out.find(".Lend1:").expect("end label defined");
    assert!(begin < je && je < jmp && jmp < end);
}

#[test]
fn call_with_three_arguments_body() {
    assert_eq!(
        body("foo(1, 2, 3);"),
        "    push 1\n    pop rdi\n    push 2\n    pop rsi\n    push 3\n    pop rdx\n    call foo\n    pop rax\n"
    );
}

#[test]
fn six_argument_registers() {
    let out = compile("foo(1, 2, 3, 4, 5, 6);").unwrap();
    for reg in ["rdi", "rsi", "rdx", "rcx", "r8", "r9"] {
        assert!(out.contains(&format!("pop {}", reg)), "missing register {}", reg);
    }
}

#[test]
fn seven_arguments_refused() {
    assert!(compile("foo(1, 2, 3, 4, 5, 6, 7);").is_err());
}

#[test]
fn not_a_left_value_at_lhs_start() {
    let mut parser = Parser::new("1 = 2");
    assert_eq!(
        parser.consume_expression().unwrap_err(),
        CompileError::not_a_left_value(0)
    );
}

#[test]
fn compile_reports_not_a_left_value() {
    assert_eq!(
        compile("1 = 2;").unwrap_err(),
        CompileError::not_a_left_value(0)
    );
}

#[test]
fn error_offsets_follow_trimming() {
    // Leading whitespace is trimmed before parsing, so the offset is
    // relative to the trimmed text.
    assert_eq!(
        compile("   1 = 2;").unwrap_err(),
        CompileError::not_a_left_value(0)
    );
}

#[test]
fn missing_semicolon_expected_list() {
    assert_eq!(
        compile("1 + 2").unwrap_err(),
        CompileError::unexpected_token(5, vec![TokenKind::SymbolSemicolon])
    );
}

#[test]
fn empty_program_compiles_to_frame_only() {
    assert_eq!(compile("").unwrap(), format!("{}{}", PROLOGUE, EPILOGUE));
}

#[test]
fn label_suffixes_increase_in_emission_order() {
    let out = compile("if (1) 1; if (2) 2; while (3) 3;").unwrap();
    let e1 = out.find(".Lend1:").unwrap();
    let e2 = out.find(".Lend2:").unwrap();
    let e3 = out.find(".Lend3:").unwrap();
    assert!(e1 < e2 && e2 < e3);
}

#[test]
fn slot_stability() {
    let mut parser = Parser::new("a = 1; b = a + 1; a = b;");
    let tree = parser.parse().unwrap();
    match tree {
        Node::Block { statements } => {
            let offset_of = |n: &Node| match n {
                Node::OperatorAssign { lhs, .. } => match lhs.as_ref() {
                    Node::LocalVariable { offset, .. } => *offset,
                    _ => panic!("lhs not a variable"),
                },
                _ => panic!("not an assignment"),
            };
            assert_eq!(offset_of(&statements[0]), 8);
            assert_eq!(offset_of(&statements[1]), 16);
            assert_eq!(offset_of(&statements[2]), 8);
        }
        _ => panic!("not a block"),
    }
}

#[test]
fn tokenizer_keywords_and_identifiers() {
    let mut tok = Tokenizer::new("return retur if ifx while for else");
    let kinds: Vec<TokenKind> = std::iter::from_fn(|| tok.consume().map(|t| t.kind)).collect();
    assert_eq!(
        kinds,
        vec![
            TokenKind::KeywordReturn,
            TokenKind::Identifier(String::from("retur")),
            TokenKind::KeywordIf,
            TokenKind::Identifier(String::from("ifx")),
            TokenKind::KeywordWhile,
            TokenKind::KeywordFor,
            TokenKind::KeywordElse,
            TokenKind::EOF,
        ]
    );
}

#[test]
fn tokenizer_is_deterministic_per_position() {
    let text = "a = 1 <= 2;";
    let mut first = Tokenizer::new(text);
    let mut second = Tokenizer::new(text);
    loop {
        let a = first.consume();
        let b = second.consume();
        match (&a, &b) {
            (Some(x), Some(y)) => {
                assert_eq!(x.kind, y.kind);
                assert_eq!(x.index_start, y.index_start);
            }
            (None, None) => break,
            _ => panic!("streams diverged"),
        }
    }
}

#[test]
fn tokenizer_stops_after_eof() {
    let mut tok = Tokenizer::new("1");
    assert_eq!(tok.consume().unwrap().kind, TokenKind::Integer(1));
    assert_eq!(tok.consume().unwrap().kind, TokenKind::EOF);
    assert!(tok.consume().is_none());
    assert!(tok.consume().is_none());
}

#[test]
fn tokenizer_unrecognized_byte_ends_stream() {
    let mut tok = Tokenizer::new("1 @ 2");
    assert_eq!(tok.consume().unwrap().kind, TokenKind::Integer(1));
    assert!(tok.consume().is_none());
}

#[test]
fn tokenizer_maximal_munch_two_byte() {
    let mut tok = Tokenizer::new("<= < == = != >=");
    let kinds: Vec<TokenKind> = std::iter::from_fn(|| tok.consume().map(|t| t.kind)).collect();
    assert_eq!(
        kinds,
        vec![
            TokenKind::SymbolAngleBracketLeftAndEqual,
            TokenKind::SymbolAngleBracketLeft,
            TokenKind::SymbolDoubleEqual,
            TokenKind::SymbolEqual,
            TokenKind::SymbolExclamationAndEqual,
            TokenKind::SymbolAngleBracketRightAndEqual,
            TokenKind::EOF,
        ]
    );
}

#[test]
fn tokenizer_zero_literal_is_not_munched() {
    let mut tok = Tokenizer::new("042");
    assert_eq!(tok.consume().unwrap().kind, TokenKind::Integer(0));
    assert_eq!(tok.consume().unwrap().kind, TokenKind::Integer(42));
}

#[test]
fn tokenizer_token_offsets_are_byte_offsets() {
    let mut tok = Tokenizer::new("  ab + 12");
    let t1 = tok.consume().unwrap();
    assert_eq!((t1.kind, t1.index_start), (TokenKind::Identifier(String::from("ab")), 2));
    let t2 = tok.consume().unwrap();
    assert_eq!((t2.kind, t2.index_start), (TokenKind::SymbolPlus, 5));
    let t3 = tok.consume().unwrap();
    assert_eq!((t3.kind, t3.index_start), (TokenKind::Integer(12), 7));
    let t4 = tok.consume().unwrap();
    assert_eq!((t4.kind, t4.index_start), (TokenKind::EOF, 9));
}

#[test]
fn negative_literal_via_unary_minus() {
    assert_eq!(body("-5;"), "    push 0\n    push 5\n    pop rdi\n    pop rax\n    sub rax, rdi\n    push rax\n    pop rax\n");
}

#[test]
fn error_message_rendering() {
    let e = CompileError::unexpected_token(5, vec![TokenKind::Integer(0), TokenKind::SymbolRoundBracketLeft]);
    assert_eq!(
        e.message(),
        "Compile error: unexpected token at 5\nexpected the one of [integer, '(']\n"
    );
    let f = CompileError::not_a_left_value(2).into_formatter("1 + 2");
    assert_eq!(
        f.message(),
        "Compile error: left value expected at 2\n\n1 + 2  ^\n"
    );
}

#[test]
fn emitted_program_wraps_body() {
    let node = Node::Block { statements: vec![Node::Integer { value: 7 }] };
    let rendered = into_asm_string(&node);
    assert_eq!(rendered, format!("{}    push 7\n    pop rax\n{}", PROLOGUE, EPILOGUE));
}

#[test]
fn relational_reversal() {
    let mut gt = Parser::new("1 > 2;");
    let mut lt = Parser::new("2 < 1;");
    assert_eq!(gt.parse().unwrap(), lt.parse().unwrap());
    let mut ge = Parser::new("1 >= 2;");
    let mut le = Parser::new("2 <= 1;");
    assert_eq!(ge.parse().unwrap(), le.parse().unwrap());
}

#[test]
fn left_associativity_of_sub() {
    let mut parser = Parser::new("1 - 2 - 3;");
    assert_eq!(
        parser.consume_statement().unwrap(),
        Node::OperatorSub {
            lhs: Box::new(Node::OperatorSub {
                lhs: Box::new(Node::Integer { value: 1 }),
                rhs: Box::new(Node::Integer { value: 2 }),
            }),
            rhs: Box::new(Node::Integer { value: 3 }),
        }
    );
}

#[test]
fn right_associativity_of_assign() {
    let mut parser = Parser::new("a = b = c;");
    assert_eq!(
        parser.consume_statement().unwrap(),
        Node::OperatorAssign {
            lhs: Box::new(Node::LocalVariable { identifier: String::from("a"), offset: 8 }),
            rhs: Box::new(Node::OperatorAssign {
                lhs: Box::new(Node::LocalVariable { identifier: String::from("b"), offset: 16 }),
                rhs: Box::new(Node::LocalVariable { identifier: String::from("c"), offset: 24 }),
            }),
        }
    );
}
