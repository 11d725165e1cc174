use lua_front::ast::{
    AnonFunctionExpression, AssignmentStatement, Block, Chunk, ElseIf, Expression,
    FunctionCallStatement, FunctionDefinitionStatement, IfStatement, LastStatement,
    LocalDeclarationStatement, LuaNumber, Statement, TableIndex, TableMember, TableMethod,
    Variable, WhileStatement,
};
use lua_front::parser::{parse, ParseErrorKind};

fn statement(stmt: Statement) -> Chunk {
    Chunk {
        block: Block {
            statements: vec![stmt],
            last_statement: None,
        },
    }
}

fn number(mantissa: u64, exponent: i64) -> Expression {
    Expression::LiteralNumber(LuaNumber {
        negative: false,
        mantissa,
        exponent,
    })
}

fn ident_expr(name: &str) -> Expression {
    Expression::Variable(Variable::Identifier(name.to_string()))
}

fn empty_block() -> Block {
    Block {
        statements: vec![],
        last_statement: None,
    }
}

fn a_eq_1() -> Block {
    Block {
        statements: vec![Statement::Assignment(AssignmentStatement {
            variable_list: vec![Variable::Identifier("a".to_string())],
            expression_list: vec![number(1, 0)],
        })],
        last_statement: None,
    }
}

#[test]
fn precedence() {
    // 1 + 2 * 3 groups the product under the sum
    assert_eq!(
        parse("a = 1 + 2 * 3").unwrap(),
        statement(Statement::Assignment(AssignmentStatement {
            variable_list: vec![Variable::Identifier("a".to_string())],
            expression_list: vec![Expression::Addition(
                Box::new(number(1, 0)),
                Box::new(Expression::Multiplication(
                    Box::new(number(2, 0)),
                    Box::new(number(3, 0))
                ))
            )],
        }))
    );
}

#[test]
fn exponentiation_right_associative() {
    assert_eq!(
        parse("a = 2 ^ 3 ^ 2").unwrap(),
        statement(Statement::Assignment(AssignmentStatement {
            variable_list: vec![Variable::Identifier("a".to_string())],
            expression_list: vec![Expression::Exponentiation(
                Box::new(number(2, 0)),
                Box::new(Expression::Exponentiation(
                    Box::new(number(3, 0)),
                    Box::new(number(2, 0))
                ))
            )],
        }))
    );
}

#[test]
fn concatenation_right_associative() {
    assert_eq!(
        parse("x = a .. b .. c").unwrap(),
        statement(Statement::Assignment(AssignmentStatement {
            variable_list: vec![Variable::Identifier("x".to_string())],
            expression_list: vec![Expression::Concatenation(
                Box::new(ident_expr("a")),
                Box::new(Expression::Concatenation(
                    Box::new(ident_expr("b")),
                    Box::new(ident_expr("c"))
                ))
            )],
        }))
    );
}

#[test]
fn postfix_chaining() {
    // a.b.c[1]:d() is a call on a method bound through members and an index
    let a = ident_expr("a");
    let ab = Expression::Variable(Variable::TableMember(TableMember {
        base: Box::new(a),
        member: "b".to_string(),
    }));
    let abc = Expression::Variable(Variable::TableMember(TableMember {
        base: Box::new(ab),
        member: "c".to_string(),
    }));
    let indexed = Expression::Variable(Variable::TableIndex(TableIndex {
        base: Box::new(abc),
        index: Box::new(number(1, 0)),
    }));
    let method = Expression::Variable(Variable::TableMethod(TableMethod {
        base: Box::new(indexed),
        method: "d".to_string(),
    }));
    assert_eq!(
        parse("a.b.c[1]:d()").unwrap(),
        statement(Statement::FunctionCall(FunctionCallStatement {
            callee: Box::new(method),
            arguments: vec![],
        }))
    );
}

#[test]
fn error_positioning() {
    // an extra trailing `end` fails instead of being ignored
    let err = parse("if true then end end").unwrap_err();
    assert_eq!(err.kind, ParseErrorKind::TrailingInput);
    assert_eq!(err.position, 4);
}

#[test]
fn if_generic() {
    assert_eq!(
        parse("if true then end").unwrap(),
        statement(Statement::If(IfStatement {
            condition: Expression::True,
            block: empty_block(),
            elseif_blocks: vec![],
            else_block: None
        }))
    );

    assert_eq!(
        parse("if false then elseif true then end").unwrap(),
        statement(Statement::If(IfStatement {
            condition: Expression::False,
            block: empty_block(),
            elseif_blocks: vec![ElseIf {
                condition: Expression::True,
                block: empty_block()
            }],
            else_block: None
        }))
    );

    assert_eq!(
        parse("if false then a = 1 elseif true then a = 1 elseif 100 then a = 1 else a = 1 end")
            .unwrap(),
        statement(Statement::If(IfStatement {
            condition: Expression::False,
            block: a_eq_1(),
            elseif_blocks: vec![
                ElseIf {
                    condition: Expression::True,
                    block: a_eq_1()
                },
                ElseIf {
                    condition: number(100, 0),
                    block: a_eq_1()
                }
            ],
            else_block: Some(a_eq_1())
        }))
    );

    assert_eq!(
        parse("if true then else end").unwrap(),
        statement(Statement::If(IfStatement {
            condition: Expression::True,
            block: empty_block(),
            elseif_blocks: vec![],
            else_block: Some(empty_block())
        }))
    );

    // a statement in place of `then` is a parse error
    assert!(parse("if true a = 1 then end").is_err());
}

#[test]
fn if_no_whitespace() {
    assert!(parse("iftruethenend").is_err());
    assert!(parse("iftruea=1thenend").is_err());
    assert!(parse("iffalsethenelseiftruethenend").is_err());
    assert!(parse("iffalsethena=1elseiftruethena=1end").is_err());
    assert!(parse("iffalsethena=1elseiftruethena=1elseif100thena=1end").is_err());
    assert!(parse("iftruethenelseend").is_err());
    assert!(parse("iftruethena=1elsea=1end").is_err());
}

#[test]
fn assignment_generic() {
    assert_eq!(
        parse("B = 1").unwrap(),
        statement(Statement::Assignment(AssignmentStatement {
            variable_list: vec![Variable::Identifier("B".to_string())],
            expression_list: vec![number(1, 0)],
        }))
    );

    assert_eq!(
        parse("b, c = 10, 20").unwrap(),
        statement(Statement::Assignment(AssignmentStatement {
            variable_list: vec![
                Variable::Identifier("b".to_string()),
                Variable::Identifier("c".to_string())
            ],
            expression_list: vec![number(10, 0), number(20, 0)],
        }))
    );
}

#[test]
fn assignment_max_whitespace() {
    assert_eq!(
        parse("    B    =    1    ").unwrap(),
        statement(Statement::Assignment(AssignmentStatement {
            variable_list: vec![Variable::Identifier("B".to_string())],
            expression_list: vec![number(1, 0)],
        }))
    );

    assert_eq!(
        parse("   b   ,    c    =    10   ,    20   ").unwrap(),
        statement(Statement::Assignment(AssignmentStatement {
            variable_list: vec![
                Variable::Identifier("b".to_string()),
                Variable::Identifier("c".to_string())
            ],
            expression_list: vec![number(10, 0), number(20, 0)],
        }))
    );
}

#[test]
fn assignment_no_whitespace() {
    assert_eq!(
        parse("B=1").unwrap(),
        statement(Statement::Assignment(AssignmentStatement {
            variable_list: vec![Variable::Identifier("B".to_string())],
            expression_list: vec![number(1, 0)],
        }))
    );

    assert_eq!(
        parse("b,c=10,20").unwrap(),
        statement(Statement::Assignment(AssignmentStatement {
            variable_list: vec![
                Variable::Identifier("b".to_string()),
                Variable::Identifier("c".to_string())
            ],
            expression_list: vec![number(10, 0), number(20, 0)],
        }))
    );
}

#[test]
fn break_generic() {
    // a bare break ends the block as its terminal statement
    assert_eq!(
        parse("break").unwrap(),
        Chunk {
            block: Block {
                statements: vec![],
                last_statement: Some(LastStatement::Break),
            }
        }
    );
}

#[test]
fn break_max_whitespace() {
    assert_eq!(
        parse("    break    ").unwrap(),
        Chunk {
            block: Block {
                statements: vec![],
                last_statement: Some(LastStatement::Break),
            }
        }
    );
}

#[test]
fn goto() {
    assert_eq!(
        parse("goto label").unwrap(),
        statement(Statement::Goto("label".to_string()))
    );
    assert_eq!(
        parse("    goto     _label2   ").unwrap(),
        statement(Statement::Goto("_label2".to_string()))
    );
}

#[test]
fn label() {
    assert_eq!(
        parse("::label::").unwrap(),
        statement(Statement::Label("label".to_string()))
    );
    assert_eq!(
        parse("    ::_cool_label_777::    ").unwrap(),
        statement(Statement::Label("_cool_label_777".to_string()))
    );
}

#[test]
fn local_declaration() {
    assert_eq!(
        parse("local a = 5").unwrap(),
        statement(Statement::LocalDeclaration(LocalDeclarationStatement {
            identifier_list: vec!["a".to_string()],
            expression_list: vec![number(5, 0)],
        }))
    );

    assert_eq!(
        parse("   local     b    =    \"coolstring\"   ").unwrap(),
        statement(Statement::LocalDeclaration(LocalDeclarationStatement {
            identifier_list: vec!["b".to_string()],
            expression_list: vec![Expression::LiteralString("coolstring".to_string())],
        }))
    );

    assert_eq!(
        parse("   local     aa   ,   bb    =    500, 600   ").unwrap(),
        statement(Statement::LocalDeclaration(LocalDeclarationStatement {
            identifier_list: vec!["aa".to_string(), "bb".to_string()],
            expression_list: vec![number(500, 0), number(600, 0)],
        }))
    );

    assert_eq!(
        parse("local a=2").unwrap(),
        statement(Statement::LocalDeclaration(LocalDeclarationStatement {
            identifier_list: vec!["a".to_string()],
            expression_list: vec![number(2, 0)],
        }))
    );
}

#[test]
fn scope() {
    assert_eq!(
        parse("do end").unwrap(),
        statement(Statement::Scope(empty_block()))
    );
    assert_eq!(
        parse("    do    end    ").unwrap(),
        statement(Statement::Scope(empty_block()))
    );
    assert_eq!(
        parse("    \n do   \n local a = 5\n end    \n").unwrap(),
        statement(Statement::Scope(Block {
            statements: vec![Statement::LocalDeclaration(LocalDeclarationStatement {
                identifier_list: vec!["a".to_string()],
                expression_list: vec![number(5, 0)],
            })],
            last_statement: None,
        }))
    );
}

#[test]
fn semicolon() {
    assert_eq!(parse(";").unwrap(), statement(Statement::Semicolon));
    assert_eq!(parse("   ;   ").unwrap(), statement(Statement::Semicolon));
}

#[test]
fn while_statement() {
    let want = statement(Statement::While(WhileStatement {
        condition: Expression::LessThan(Box::new(ident_expr("a")), Box::new(number(10, 0))),
        block: empty_block(),
    }));
    assert_eq!(parse("while a < 10 do end").unwrap(), want);
    assert_eq!(parse("    while    a   <    10    do   end").unwrap(), want);

    assert!(parse("whilea<10do end").is_err());
    assert!(parse("whilea<10doend").is_err());
    // tokens need no separating space: `10do` reads as `10`, then the keyword
    assert_eq!(parse("while a<10do end").unwrap(), want);
}

#[test]
fn function_call_statement_generic() {
    assert_eq!(
        parse("func()").unwrap(),
        statement(Statement::FunctionCall(FunctionCallStatement {
            callee: Box::new(ident_expr("func")),
            arguments: vec![],
        }))
    );

    assert_eq!(
        parse("a.func()").unwrap(),
        statement(Statement::FunctionCall(FunctionCallStatement {
            callee: Box::new(Expression::Variable(Variable::TableMember(TableMember {
                base: Box::new(ident_expr("a")),
                member: "func".to_string(),
            }))),
            arguments: vec![],
        }))
    );

    assert_eq!(
        parse(r#"a["func"]()"#).unwrap(),
        statement(Statement::FunctionCall(FunctionCallStatement {
            callee: Box::new(Expression::Variable(Variable::TableIndex(TableIndex {
                base: Box::new(ident_expr("a")),
                index: Box::new(Expression::LiteralString("func".to_string())),
            }))),
            arguments: vec![],
        }))
    );

    assert_eq!(
        parse("(function() end)()").unwrap(),
        statement(Statement::FunctionCall(FunctionCallStatement {
            callee: Box::new(Expression::Parenthesized(Box::new(
                Expression::AnonFunctionDefinition(AnonFunctionExpression {
                    parameter_list: vec![],
                    block: empty_block(),
                })
            ))),
            arguments: vec![],
        }))
    );

    assert_eq!(
        parse("func(a, 7, function() end)").unwrap(),
        statement(Statement::FunctionCall(FunctionCallStatement {
            callee: Box::new(ident_expr("func")),
            arguments: vec![
                ident_expr("a"),
                number(7, 0),
                Expression::AnonFunctionDefinition(AnonFunctionExpression {
                    parameter_list: vec![],
                    block: empty_block(),
                })
            ],
        }))
    );

    assert_eq!(
        parse("func(a, b, ...)").unwrap(),
        statement(Statement::FunctionCall(FunctionCallStatement {
            callee: Box::new(ident_expr("func")),
            arguments: vec![
                ident_expr("a"),
                ident_expr("b"),
                Expression::VariableArgument
            ],
        }))
    );
}

#[test]
fn function_definition_generic() {
    assert_eq!(
        parse("function a() end").unwrap(),
        statement(Statement::FunctionDefinition(FunctionDefinitionStatement {
            identifier: Variable::Identifier("a".to_string()),
            parameter_list: vec![],
            block: empty_block(),
        }))
    );
}

#[test]
fn not_a_call_is_an_error() {
    let err = parse("a + 1").unwrap_err();
    assert_eq!(err.kind, ParseErrorKind::NotACall);
}

#[test]
fn not_assignable_is_an_error() {
    let err = parse("f() = 1").unwrap_err();
    assert_eq!(err.kind, ParseErrorKind::NotAssignable);
}

#[test]
fn comments_are_skipped_by_the_parser() {
    assert_eq!(
        parse("-- just a comment\n;").unwrap(),
        statement(Statement::Semicolon)
    );
}

#[test]
fn lex_error_surfaces_through_parse() {
    let err = parse("local a = $").unwrap_err();
    assert_eq!(err.kind, ParseErrorKind::UnrecognizedCharacter('$'));
    assert_eq!(err.position, 10);
}

#[test]
fn if_max_whitespace() {
    assert_eq!(
        parse("   if    true    then    end   ").unwrap(),
        statement(Statement::If(IfStatement {
            condition: Expression::True,
            block: empty_block(),
            elseif_blocks: vec![],
            else_block: None
        }))
    );

    // a statement in place of `then` is a parse error
    assert!(parse("   if    true    a   =    1    then   end   ").is_err());

    assert_eq!(
        parse("   if    false   then    elseif   true    then    end   ").unwrap(),
        statement(Statement::If(IfStatement {
            condition: Expression::False,
            block: empty_block(),
            elseif_blocks: vec![ElseIf {
                condition: Expression::True,
                block: empty_block()
            }],
            else_block: None
        }))
    );

    assert_eq!(
        parse("   if    false    then    a    =    1   elseif   true   then   a   =   1   end  ")
            .unwrap(),
        statement(Statement::If(IfStatement {
            condition: Expression::False,
            block: a_eq_1(),
            elseif_blocks: vec![ElseIf {
                condition: Expression::True,
                block: a_eq_1()
            }],
            else_block: None
        }))
    );

    assert_eq!(
        parse(
            "   if   false   then   a   =   1   elseif   true   then   a   =   1   elseif   100   then   a   =   1   end   "
        )
        .unwrap(),
        statement(Statement::If(IfStatement {
            condition: Expression::False,
            block: a_eq_1(),
            elseif_blocks: vec![
                ElseIf {
                    condition: Expression::True,
                    block: a_eq_1()
                },
                ElseIf {
                    condition: number(100, 0),
                    block: a_eq_1()
                }
            ],
            else_block: None
        }))
    );

    assert_eq!(
        parse(
            "   if   false   then   a   =   1   elseif   true   then   a   =   1   elseif   100   then   a   =   1   else   a   =   1   end   "
        )
        .unwrap(),
        statement(Statement::If(IfStatement {
            condition: Expression::False,
            block: a_eq_1(),
            elseif_blocks: vec![
                ElseIf {
                    condition: Expression::True,
                    block: a_eq_1()
                },
                ElseIf {
                    condition: number(100, 0),
                    block: a_eq_1()
                }
            ],
            else_block: Some(a_eq_1())
        }))
    );

    assert_eq!(
        parse("   if    true    then    else    end   ").unwrap(),
        statement(Statement::If(IfStatement {
            condition: Expression::True,
            block: empty_block(),
            elseif_blocks: vec![],
            else_block: Some(empty_block())
        }))
    );

    assert_eq!(
        parse("   if    true    then    a    =    1    else    a    =    1    end   ").unwrap(),
        statement(Statement::If(IfStatement {
            condition: Expression::True,
            block: a_eq_1(),
            elseif_blocks: vec![],
            else_block: Some(a_eq_1())
        }))
    );
}

#[test]
fn function_call_statement_max_whitespace() {
    assert_eq!(
        parse("   func   (   )   ").unwrap(),
        statement(Statement::FunctionCall(FunctionCallStatement {
            callee: Box::new(ident_expr("func")),
            arguments: vec![],
        }))
    );

    assert_eq!(
        parse("   a   .   func   (   )   ").unwrap(),
        statement(Statement::FunctionCall(FunctionCallStatement {
            callee: Box::new(Expression::Variable(Variable::TableMember(TableMember {
                base: Box::new(ident_expr("a")),
                member: "func".to_string(),
            }))),
            arguments: vec![],
        }))
    );

    assert_eq!(
        parse(r#"   a   ["func"   ]   (   )   "#).unwrap(),
        statement(Statement::FunctionCall(FunctionCallStatement {
            callee: Box::new(Expression::Variable(Variable::TableIndex(TableIndex {
                base: Box::new(ident_expr("a")),
                index: Box::new(Expression::LiteralString("func".to_string())),
            }))),
            arguments: vec![],
        }))
    );

    assert_eq!(
        parse("   (   function   (   )    end   )   (   )   ").unwrap(),
        statement(Statement::FunctionCall(FunctionCallStatement {
            callee: Box::new(Expression::Parenthesized(Box::new(
                Expression::AnonFunctionDefinition(AnonFunctionExpression {
                    parameter_list: vec![],
                    block: empty_block(),
                })
            ))),
            arguments: vec![],
        }))
    );

    assert_eq!(
        parse("   func   (   a   ,    7   ,    function   (   )    end   )   ").unwrap(),
        statement(Statement::FunctionCall(FunctionCallStatement {
            callee: Box::new(ident_expr("func")),
            arguments: vec![
                ident_expr("a"),
                number(7, 0),
                Expression::AnonFunctionDefinition(AnonFunctionExpression {
                    parameter_list: vec![],
                    block: empty_block(),
                })
            ],
        }))
    );

    assert_eq!(
        parse("   func   (   a   ,    b   ,    ...   )   ").unwrap(),
        statement(Statement::FunctionCall(FunctionCallStatement {
            callee: Box::new(ident_expr("func")),
            arguments: vec![
                ident_expr("a"),
                ident_expr("b"),
                Expression::VariableArgument
            ],
        }))
    );
}
