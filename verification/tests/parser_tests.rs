use xeno::ast::{DataDef, Expr, FileContent, Function, Param, Stmt, Type};
use xeno::lexer::Token;
use xeno::parser::{parse, Parser};

fn var(name: &str) -> Expr {
    Expr::Var(name.to_string())
}

fn index(target: Expr, at: Expr) -> Expr {
    Expr::Index { target: Box::new(target), index: Box::new(at) }
}

fn call(name: &str, args: Vec<Expr>) -> Expr {
    Expr::Call { name: name.to_string(), args }
}

fn function(source: &str) -> Function {
    match parse(source) {
        Ok(FileContent::Function(f)) => f,
        other => panic!("no function: {:?}", other),
    }
}

fn data(source: &str) -> DataDef {
    match parse(source) {
        Ok(FileContent::Data(d)) => d,
        other => panic!("no data table: {:?}", other),
    }
}

fn failure(source: &str) -> String {
    match parse(source) {
        Err(message) => message,
        Ok(file) => panic!("parsed: {:?}", file),
    }
}

/// The trailing expression of `fn f() { <source> }`.
fn expr(source: &str) -> Expr {
    let f = function(&format!("fn f() {{ {} }}", source));
    assert!(f.body.is_empty());
    *f.return_expr.unwrap()
}

fn expr_failure(source: &str) -> String {
    failure(&format!("fn f() {{ {} }}", source))
}

#[test]
fn data_entries_in_order() {
    let d = data("let a: int = 5; let b: int = 7;");
    assert_eq!(d.entries, vec![("a".to_string(), 5), ("b".to_string(), 7)]);
}

#[test]
fn data_table_stops_at_another_token() {
    let d = data("let a: int = 5; } let b: int = 7;");
    assert_eq!(d.entries, vec![("a".to_string(), 5)]);
    let d = data("let a: int = 1; fn f() { }");
    assert_eq!(d.entries, vec![("a".to_string(), 1)]);
    let d = data("let a: int = 1; 42 whatever");
    assert_eq!(d.entries, vec![("a".to_string(), 1)]);
}

#[test]
fn data_entry_may_repeat_a_name() {
    let d = data("let a: int = 1; let a: int = 2;");
    assert_eq!(d.entries, vec![("a".to_string(), 1), ("a".to_string(), 2)]);
}

#[test]
fn data_entry_must_be_a_scalar_literal() {
    assert_eq!(failure("let a: int[] = 5;"), "Expected Equals, got LBracket");
    assert_eq!(failure("let a: int = b;"), "Expected integer value");
    assert_eq!(failure("let a: int = [1];"), "Expected integer value");
    assert_eq!(failure("let a: int = ;"), "Expected integer value");
    assert_eq!(failure("let a: x = 5;"), "Expected Int, got Ident(\"x\")");
}

#[test]
fn data_entry_defects() {
    assert_eq!(failure("let"), "Expected variable name");
    assert_eq!(failure("let 5: int = 5;"), "Expected variable name");
    assert_eq!(failure("let a int = 5;"), "Expected Colon, got Int");
    assert_eq!(failure("let a: int 5;"), "Expected Equals, got IntLit(5)");
    assert_eq!(failure("let a: int = 5"), "Expected Semicolon, got Eof");
    assert_eq!(failure("let a: int = 5; let b: int = 6"), "Expected Semicolon, got Eof");
}

#[test]
fn first_token_must_be_fn_or_let() {
    assert_eq!(failure(""), "Expected fn or let, got Eof");
    assert_eq!(failure("   \n"), "Expected fn or let, got Eof");
    assert_eq!(failure("x"), "Expected fn or let, got Ident(\"x\")");
    assert_eq!(failure("return 1;"), "Expected fn or let, got Return");
    assert_eq!(failure("42"), "Expected fn or let, got IntLit(42)");
    assert_eq!(failure("{ let a: int = 5; }"), "Expected fn or let, got LBrace");
}

#[test]
fn smallest_function() {
    let f = function("fn f() {}");
    assert_eq!(
        f,
        Function { name: "f".to_string(), params: vec![], body: vec![], return_expr: None }
    );
}

#[test]
fn parameters_and_types() {
    let f = function("fn sum(a: int, b: int[], a: int) { }");
    assert_eq!(f.name, "sum");
    assert_eq!(
        f.params,
        vec![
            Param { name: "a".to_string(), ty: Type::Int },
            Param { name: "b".to_string(), ty: Type::IntArray },
            Param { name: "a".to_string(), ty: Type::Int },
        ]
    );
}

#[test]
fn parameter_defects() {
    assert_eq!(failure("fn f(a: int,) {}"), "Expected parameter name");
    assert_eq!(failure("fn f(,) {}"), "Expected parameter name");
    assert_eq!(failure("fn f(a int) {}"), "Expected Colon, got Int");
    assert_eq!(failure("fn f(a: bool) {}"), "Expected type, got Ident(\"bool\")");
    assert_eq!(failure("fn f(a: int[) {}"), "Expected RBracket, got RParen");
    assert_eq!(failure("fn f(a: int b: int) {}"), "Expected RParen, got Ident(\"b\")");
    assert_eq!(failure("fn f(a: ) {}"), "Expected type, got RParen");
}

#[test]
fn function_header_defects() {
    assert_eq!(failure("fn"), "Expected function name");
    assert_eq!(failure("fn (a: int) {}"), "Expected function name");
    assert_eq!(failure("fn int() {}"), "Expected function name");
    assert_eq!(failure("fn f {}"), "Expected LParen, got LBrace");
    assert_eq!(failure("fn f()"), "Expected LBrace, got Eof");
    assert_eq!(failure("fn f() 1"), "Expected LBrace, got IntLit(1)");
    assert_eq!(failure("fn f() {"), "Expected RBrace, got Eof");
    assert_eq!(failure("fn f() { 1"), "Expected RBrace, got Eof");
}

#[test]
fn statements_of_each_kind() {
    let f = function("fn f(a: int[]) { let x: int = 1; let y: int[] = [x, 2]; a[0]; return y; }");
    assert_eq!(
        f.body,
        vec![
            Stmt::Let { name: "x".to_string(), ty: Type::Int, value: Expr::Int(1) },
            Stmt::Let {
                name: "y".to_string(),
                ty: Type::IntArray,
                value: Expr::Array(vec![var("x"), Expr::Int(2)]),
            },
            Stmt::ExprStmt(index(var("a"), Expr::Int(0))),
            Stmt::Return(var("y")),
        ]
    );
    assert_eq!(f.return_expr, None);
}

#[test]
fn return_does_not_end_the_block() {
    let f = function("fn f() { return 1; let x: int = 2; return x; 3 }");
    assert_eq!(
        f.body,
        vec![
            Stmt::Return(Expr::Int(1)),
            Stmt::Let { name: "x".to_string(), ty: Type::Int, value: Expr::Int(2) },
            Stmt::Return(var("x")),
        ]
    );
    assert_eq!(f.return_expr, Some(Box::new(Expr::Int(3))));
}

#[test]
fn trailing_expression_ends_the_block() {
    let f = function("fn f(a: int[]) { a[1] }");
    assert!(f.body.is_empty());
    assert_eq!(f.return_expr, Some(Box::new(index(var("a"), Expr::Int(1)))));
    assert_eq!(failure("fn f() { 1 2 }"), "Expected RBrace, got IntLit(2)");
    assert_eq!(failure("fn f() { 1 let x: int = 2; }"), "Expected RBrace, got Let");
    assert_eq!(failure("fn f() { x return 1; }"), "Expected RBrace, got Return");
}

#[test]
fn statement_defects() {
    assert_eq!(failure("fn f() { return 1 }"), "Expected Semicolon, got RBrace");
    assert_eq!(failure("fn f() { return ; }"), "Unexpected token: Semicolon");
    assert_eq!(failure("fn f() { let x = 1; }"), "Expected Colon, got Equals");
    assert_eq!(failure("fn f() { let x: int 1; }"), "Expected Equals, got IntLit(1)");
    assert_eq!(failure("fn f() { let x: int = 1 }"), "Expected Semicolon, got RBrace");
    assert_eq!(failure("fn f() { let : int = 1; }"), "Expected variable name");
    assert_eq!(failure("fn f() { let x: = 1; }"), "Expected type, got Equals");
    assert_eq!(failure("fn f() { ; }"), "Unexpected token: Semicolon");
    assert_eq!(failure("fn f() { fn }"), "Unexpected token: Fn");
}

#[test]
fn tokens_behind_a_function_are_left_unread() {
    let f = function("fn f() { return 1; }\n2");
    assert_eq!(f.body, vec![Stmt::Return(Expr::Int(1))]);
    assert_eq!(f.return_expr, None);
    let f = function("fn f() { } } let x");
    assert_eq!(f.name, "f");
}

#[test]
fn primary_expressions() {
    assert_eq!(expr("42"), Expr::Int(42));
    assert_eq!(expr("x"), var("x"));
    assert_eq!(expr(".field"), Expr::DataRef("field".to_string()));
    assert_eq!(expr("[]"), Expr::Array(vec![]));
    assert_eq!(expr("[1]"), Expr::Array(vec![Expr::Int(1)]));
    assert_eq!(
        expr("[1, [x, .y], []]"),
        Expr::Array(vec![
            Expr::Int(1),
            Expr::Array(vec![var("x"), Expr::DataRef("y".to_string())]),
            Expr::Array(vec![]),
        ])
    );
    assert_eq!(expr("(7)"), Expr::Int(7));
    assert_eq!(expr("((x))"), var("x"));
}

#[test]
fn calls() {
    assert_eq!(expr("f()"), call("f", vec![]));
    assert_eq!(expr("f(1)"), call("f", vec![Expr::Int(1)]));
    assert_eq!(
        expr("f(a, g(b), [1])[0]"),
        index(
            call("f", vec![var("a"), call("g", vec![var("b")]), Expr::Array(vec![Expr::Int(1)])]),
            Expr::Int(0)
        )
    );
    assert_eq!(expr("(f)(1)"), call("f", vec![Expr::Int(1)]));
}

#[test]
fn postfix_chains() {
    assert_eq!(expr("a[0][1]"), index(index(var("a"), Expr::Int(0)), Expr::Int(1)));
    assert_eq!(
        expr("f(a)[0][x]"),
        index(index(call("f", vec![var("a")]), Expr::Int(0)), var("x"))
    );
    assert_eq!(expr("[1, 2][0]"), index(Expr::Array(vec![Expr::Int(1), Expr::Int(2)]), Expr::Int(0)));
    assert_eq!(expr(".d[i]"), index(Expr::DataRef("d".to_string()), var("i")));
    assert_eq!(expr("5[0]"), index(Expr::Int(5), Expr::Int(0)));
    assert_eq!(expr("a[b[c]]"), index(var("a"), index(var("b"), var("c"))));
    assert_eq!(expr("(a[0])[1]"), index(index(var("a"), Expr::Int(0)), Expr::Int(1)));
}

#[test]
fn only_a_bare_name_can_be_called() {
    let message = "Only identifiers can be called";
    assert_eq!(expr_failure("f(1)(2)"), message);
    assert_eq!(expr_failure("a[0](1)"), message);
    assert_eq!(expr_failure("5(1)"), message);
    assert_eq!(expr_failure(".d(1)"), message);
    assert_eq!(expr_failure("[f](1)"), message);
    assert_eq!(expr_failure("(f())()"), message);
}

#[test]
fn expression_defects() {
    assert_eq!(expr_failure("f(a,)"), "Unexpected token: RParen");
    assert_eq!(expr_failure("[1,]"), "Unexpected token: RBracket");
    assert_eq!(expr_failure("[,]"), "Unexpected token: Comma");
    assert_eq!(expr_failure("f(a b)"), "Expected RParen, got Ident(\"b\")");
    assert_eq!(expr_failure("[1 2]"), "Expected RBracket, got IntLit(2)");
    assert_eq!(expr_failure("a[]"), "Unexpected token: RBracket");
    assert_eq!(expr_failure("a[1"), "Expected RBracket, got RBrace");
    assert_eq!(expr_failure("(1"), "Expected RParen, got RBrace");
    assert_eq!(expr_failure("()"), "Unexpected token: RParen");
    assert_eq!(expr_failure(". 5"), "Expected field name after .");
    assert_eq!(expr_failure(".int"), "Expected field name after .");
    assert_eq!(expr_failure("f(return)"), "Unexpected token: Return");
    assert_eq!(expr_failure("a[0]["), "Unexpected token: RBrace");
}

#[test]
fn unknown_characters_fail_in_the_parser_not_the_lexer() {
    assert_eq!(expr("+"), var("+"));
    assert_eq!(failure("fn f() { a + b }"), "Expected RBrace, got Ident(\"+\")");
    assert_eq!(failure("fn f() { -1 }"), "Expected RBrace, got IntLit(1)");
}

#[test]
fn parser_reads_tokens_that_do_not_end_in_eof() {
    let tokens = vec![
        Token::Fn,
        Token::Ident("f".to_string()),
        Token::LParen,
        Token::RParen,
        Token::LBrace,
        Token::IntLit(-4),
        Token::RBrace,
    ];
    let mut parser = Parser::new(tokens);
    assert_eq!(
        parser.parse_file(),
        Ok(FileContent::Function(Function {
            name: "f".to_string(),
            params: vec![],
            body: vec![],
            return_expr: Some(Box::new(Expr::Int(-4))),
        }))
    );
    let mut parser = Parser::new(vec![]);
    assert_eq!(parser.parse_file(), Err("Expected fn or let, got Eof".to_string()));
    let mut parser = Parser::new(vec![Token::Fn, Token::Ident("f".to_string()), Token::IntArray]);
    assert_eq!(parser.parse_file(), Err("Expected LParen, got IntArray".to_string()));
}

#[test]
fn parse_file_goes_on_where_it_stopped() {
    let tokens = vec![
        Token::Let,
        Token::Ident("a".to_string()),
        Token::Colon,
        Token::Int,
        Token::Equals,
        Token::IntLit(1),
        Token::Semicolon,
        Token::Fn,
        Token::Ident("g".to_string()),
        Token::LParen,
        Token::RParen,
        Token::LBrace,
        Token::RBrace,
        Token::Eof,
    ];
    let mut parser = Parser::new(tokens);
    assert_eq!(
        parser.parse_file(),
        Ok(FileContent::Data(DataDef { entries: vec![("a".to_string(), 1)] }))
    );
    match parser.parse_file() {
        Ok(FileContent::Function(g)) => assert_eq!(g.name, "g"),
        other => panic!("no function: {:?}", other),
    }
    assert_eq!(parser.parse_file(), Err("Expected fn or let, got Eof".to_string()));
}

#[test]
fn clone_of_a_tree_is_equal() {
    let source = "fn f(a: int[], b: int) { let x: int[] = [a[b], g(1, [2])[.d]]; x; return x[0]; b }";
    let file = parse(source).unwrap();
    assert_eq!(file.clone(), file);
    let table = parse("let a: int = 5; let b: int = 7;").unwrap();
    assert_eq!(table.clone(), table);
    assert_ne!(file, table);
}
