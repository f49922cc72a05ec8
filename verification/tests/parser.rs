use r9cc::ast::Node;
use r9cc::parser::Parser;

#[test]
fn number() {
    let mut parser = Parser::new("  1234567890 ;  ");
    assert_eq!(
        parser.consume_statement().unwrap(),
        Node::Integer { value: 1234567890 }
    );
    assert!(parser.next_eof().is_some());
}

#[test]
fn add() {
    let mut parser = Parser::new("  1 + 2 ;  ");
    assert_eq!(
        parser.consume_statement().unwrap(),
        Node::OperatorAdd {
            lhs: Box::new(Node::Integer { value: 1 }),
            rhs: Box::new(Node::Integer { value: 2 }),
        }
    );
    assert!(parser.next_eof().is_some());
}

#[test]
fn sub() {
    let mut parser = Parser::new("  1 - 2 ;  ");
    assert_eq!(
        parser.consume_statement().unwrap(),
        Node::OperatorSub {
            lhs: Box::new(Node::Integer { value: 1 }),
            rhs: Box::new(Node::Integer { value: 2 }),
        }
    );
    assert!(parser.next_eof().is_some());
}

#[test]
fn mul() {
    let mut parser = Parser::new("  1 * 2 ;  ");
    assert_eq!(
        parser.consume_statement().unwrap(),
        Node::OperatorMul {
            lhs: Box::new(Node::Integer { value: 1 }),
            rhs: Box::new(Node::Integer { value: 2 }),
        }
    );
    assert!(parser.next_eof().is_some());
}

#[test]
fn div() {
    let mut parser = Parser::new("  1 / 2 ;  ");
    assert_eq!(
        parser.consume_statement().unwrap(),
        Node::OperatorDiv {
            lhs: Box::new(Node::Integer { value: 1 }),
            rhs: Box::new(Node::Integer { value: 2 }),
        }
    );
    assert!(parser.next_eof().is_some());
}

#[test]
fn mul_and_add() {
    let mut parser = Parser::new("  1 * 2 + 3 / 4 ;  ");
    assert_eq!(
        parser.consume_statement().unwrap(),
        Node::OperatorAdd {
            lhs: Box::new(Node::OperatorMul {
                lhs: Box::new(Node::Integer { value: 1 }),
                rhs: Box::new(Node::Integer { value: 2 }),
            }),
            rhs: Box::new(Node::OperatorDiv {
                lhs: Box::new(Node::Integer { value: 3 }),
                rhs: Box::new(Node::Integer { value: 4 }),
            }),
        }
    );
    assert!(parser.next_eof().is_some());
}

#[test]
fn nested_expression() {
    let mut parser = Parser::new("  (1 + 2 * 3) / (4 - 5) + 6 ;  ");
    assert_eq!(
        parser.consume_statement().unwrap(),
        Node::OperatorAdd {
            lhs: Box::new(Node::OperatorDiv {
                lhs: Box::new(Node::OperatorAdd {
                    lhs: Box::new(Node::Integer { value: 1 }),
                    rhs: Box::new(Node::OperatorMul {
                        lhs: Box::new(Node::Integer { value: 2 }),
                        rhs: Box::new(Node::Integer { value: 3 }),
                    }),
                }),
                rhs: Box::new(Node::OperatorSub {
                    lhs: Box::new(Node::Integer { value: 4 }),
                    rhs: Box::new(Node::Integer { value: 5 }),
                }),
            }),
            rhs: Box::new(Node::Integer { value: 6 }),
        }
    );
    assert!(parser.next_eof().is_some());
}

#[test]
fn unary_plus() {
    let mut parser = Parser::new("  1 * + 2 ;  ");
    assert_eq!(
        parser.consume_statement().unwrap(),
        Node::OperatorMul {
            lhs: Box::new(Node::Integer { value: 1 }),
            rhs: Box::new(Node::Integer { value: 2 }),
        }
    );
    assert!(parser.next_eof().is_some());
}

#[test]
fn unary_minus() {
    let mut parser = Parser::new("  1 * - 2 ;  ");
    assert_eq!(
        parser.consume_statement().unwrap(),
        Node::OperatorMul {
            lhs: Box::new(Node::Integer { value: 1 }),
            rhs: Box::new(Node::OperatorSub {
                lhs: Box::new(Node::Integer { value: 0 }),
                rhs: Box::new(Node::Integer { value: 2 }),
            }),
        }
    );
    assert!(parser.next_eof().is_some());
}

#[test]
fn lt_gt() {
    let mut parser = Parser::new("  1 < 2 > 3 ;  ");
    assert_eq!(
        parser.consume_statement().unwrap(),
        Node::OperatorLt {
            lhs: Box::new(Node::Integer { value: 3 }),
            rhs: Box::new(Node::OperatorLt {
                lhs: Box::new(Node::Integer { value: 1 }),
                rhs: Box::new(Node::Integer { value: 2 }),
            }),
        }
    )
}

#[test]
fn lteq_gteq() {
    let mut parser = Parser::new("  1 <= 2 >= 3 ;  ");
    assert_eq!(
        parser.consume_statement().unwrap(),
        Node::OperatorLtEq {
            lhs: Box::new(Node::Integer { value: 3 }),
            rhs: Box::new(Node::OperatorLtEq {
                lhs: Box::new(Node::Integer { value: 1 }),
                rhs: Box::new(Node::Integer { value: 2 }),
            }),
        }
    )
}

#[test]
fn eq_ne() {
    let mut parser = Parser::new("  1 == 2 != 3 ;  ");
    assert_eq!(
        parser.consume_statement().unwrap(),
        Node::OperatorNe {
            lhs: Box::new(Node::OperatorEq {
                lhs: Box::new(Node::Integer { value: 1 }),
                rhs: Box::new(Node::Integer { value: 2 }),
            }),
            rhs: Box::new(Node::Integer { value: 3 }),
        }
    )
}

#[test]
fn assignment() {
    let mut parser = Parser::new("  foo = bar + 2 ;  ");
    assert_eq!(
        parser.consume_statement().unwrap(),
        Node::OperatorAssign {
            lhs: Box::new(Node::LocalVariable {
                identifier: String::from("foo"),
                offset: 8
            }),
            rhs: Box::new(Node::OperatorAdd {
                lhs: Box::new(Node::LocalVariable {
                    identifier: String::from("bar"),
                    offset: 16
                }),
                rhs: Box::new(Node::Integer { value: 2 }),
            }),
        }
    )
}

#[test]
fn multiple_statements() {
    let mut parser = Parser::new("  1 + 2; a;  ");
    assert_eq!(
        parser.parse().unwrap(),
        Node::Block {
            statements: vec![
                Node::OperatorAdd {
                    lhs: Box::new(Node::Integer { value: 1 }),
                    rhs: Box::new(Node::Integer { value: 2 })
                },
                Node::LocalVariable {
                    identifier: String::from("a"),
                    offset: 8
                }
            ]
        }
    )
}

#[test]
fn return_statement() {
    let mut parser = Parser::new("  return 1 + 2;  ");
    assert_eq!(
        parser.consume_statement().unwrap(),
        Node::Return {
            value: Box::new(Node::OperatorAdd {
                lhs: Box::new(Node::Integer { value: 1 }),
                rhs: Box::new(Node::Integer { value: 2 })
            }),
        }
    )
}

#[test]
fn if_statement() {
    let mut parser = Parser::new("  if ( 1 < 2 ) 1;  ");
    assert_eq!(
        parser.consume_statement().unwrap(),
        Node::If {
            condition: Box::new(Node::OperatorLt {
                lhs: Box::new(Node::Integer { value: 1 }),
                rhs: Box::new(Node::Integer { value: 2 })
            }),
            statement: Box::new(Node::Integer { value: 1 }),
            end_label: String::from(".Lend1"),
        }
    )
}

#[test]
fn if_else_statement() {
    let mut parser = Parser::new("  if ( 1 < 2 ) 1; else 2;  ");
    assert_eq!(
        parser.consume_statement().unwrap(),
        Node::IfElse {
            condition: Box::new(Node::OperatorLt {
                lhs: Box::new(Node::Integer { value: 1 }),
                rhs: Box::new(Node::Integer { value: 2 })
            }),
            statement: Box::new(Node::Integer { value: 1 }),
            end_label: String::from(".Lend1"),
            else_statement: Box::new(Node::Integer { value: 2 }),
            else_label: String::from(".Lelse1"),
        }
    )
}

#[test]
fn while_statement() {
    let mut parser = Parser::new("  while ( 1 < 2 ) 1;  ");
    assert_eq!(
        parser.consume_statement().unwrap(),
        Node::While {
            condition: Box::new(Node::OperatorLt {
                lhs: Box::new(Node::Integer { value: 1 }),
                rhs: Box::new(Node::Integer { value: 2 })
            }),
            statement: Box::new(Node::Integer { value: 1 }),
            begin_label: String::from(".Lbegin1"),
            end_label: String::from(".Lend1"),
        }
    )
}

#[test]
fn for_statement() {
    let mut parser = Parser::new("  for ( i = 0; i < 10; i = i + 1 ) i;  ");
    assert_eq!(
        parser.consume_statement().unwrap(),
        Node::For {
            initializer: Some(Box::new(Node::OperatorAssign {
                lhs: Box::new(Node::LocalVariable {
                    identifier: String::from("i"),
                    offset: 8
                }),
                rhs: Box::new(Node::Integer { value: 0 }),
            })),
            condition: Some(Box::new(Node::OperatorLt {
                lhs: Box::new(Node::LocalVariable {
                    identifier: String::from("i"),
                    offset: 8
                }),
                rhs: Box::new(Node::Integer { value: 10 }),
            })),
            updater: Some(Box::new(Node::OperatorAssign {
                lhs: Box::new(Node::LocalVariable {
                    identifier: String::from("i"),
                    offset: 8
                }),
                rhs: Box::new(Node::OperatorAdd {
                    lhs: Box::new(Node::LocalVariable {
                        identifier: String::from("i"),
                        offset: 8
                    }),
                    rhs: Box::new(Node::Integer { value: 1 })
                })
            })),
            statement: Box::new(Node::LocalVariable {
                identifier: String::from("i"),
                offset: 8
            }),
            begin_label: String::from(".Lbegin1"),
            end_label: String::from(".Lend1")
        }
    )
}

#[test]
fn for_statement_abbr() {
    let mut parser = Parser::new("  for(;;) 1;  ");
    assert_eq!(
        parser.consume_statement().unwrap(),
        Node::For {
            initializer: None,
            condition: None,
            updater: None,
            statement: Box::new(Node::Integer { value: 1 }),
            begin_label: String::from(".Lbegin1"),
            end_label: String::from(".Lend1")
        }
    )
}

#[test]
fn block() {
    let mut parser = Parser::new("  { 1; }  ");
    assert_eq!(
        parser.consume_statement().unwrap(),
        Node::Block {
            statements: vec![Node::Integer { value: 1 }],
        }
    )
}

#[test]
fn if_statement_with_block() {
    let mut parser = Parser::new("  if(a < 0) { a = 0; a = 1; }  ");
    assert_eq!(
        parser.consume_statement().unwrap(),
        Node::If {
            condition: Box::new(Node::OperatorLt {
                lhs: Box::new(Node::LocalVariable {
                    identifier: String::from("a"),
                    offset: 8
                }),
                rhs: Box::new(Node::Integer { value: 0 })
            }),
            statement: Box::new(Node::Block {
                statements: vec![
                    Node::OperatorAssign {
                        lhs: Box::new(Node::LocalVariable {
                            identifier: String::from("a"),
                            offset: 8
                        }),
                        rhs: Box::new(Node::Integer { value: 0 })
                    },
                    Node::OperatorAssign {
                        lhs: Box::new(Node::LocalVariable {
                            identifier: String::from("a"),
                            offset: 8
                        }),
                        rhs: Box::new(Node::Integer { value: 1 })
                    }
                ]
            }),
            end_label: String::from(".Lend1"),
        }
    )
}

#[test]
fn function_call() {
    let mut parser = Parser::new("  func();  ");
    assert_eq!(
        parser.consume_statement().unwrap(),
        Node::FunctionCall {
            identifier: String::from("func"),
            arguments: vec![]
        }
    )
}

#[test]
fn function_call_with_arguments() {
    let mut parser = Parser::new("  func(1, 2);  ");
    assert_eq!(
        parser.consume_statement().unwrap(),
        Node::FunctionCall {
            identifier: String::from("func"),
            arguments: vec![Node::Integer { value: 1 }, Node::Integer { value: 2 },]
        }
    )
}
