use meowscript::ast::{Expr, Ident, Infix, Literal, Prefix, Program, Statement};
use meowscript::lexer::Lexer;
use meowscript::parser::Parser;

fn parse(src: &str) -> (Program, Vec<String>) {
    let mut parser = Parser::new(Lexer::new(src.to_string()));
    let program = parser.parse_program();
    (program, parser.errors)
}

fn num(n: &str) -> Expr {
    Expr::Literal(Literal::Number(n.to_string()))
}

fn infix(op: Infix, l: Expr, r: Expr) -> Expr {
    Expr::Infix(op, Box::new(l), Box::new(r))
}

#[test]
fn product_binds_tighter_than_sum() {
    let (program, errors) = parse("1 + 2 * 3");
    assert!(errors.is_empty());
    assert_eq!(
        program.statements,
        vec![Statement::Expression(infix(
            Infix::Plus,
            num("1"),
            infix(Infix::Times, num("2"), num("3"))
        ))]
    );
}

#[test]
fn parentheses_group() {
    let (program, errors) = parse("(1 + 2) * 3;");
    assert!(errors.is_empty());
    assert_eq!(
        program.statements,
        vec![Statement::Expression(infix(
            Infix::Times,
            infix(Infix::Plus, num("1"), num("2")),
            num("3")
        ))]
    );
}

#[test]
fn bitwise_or_binds_tighter_than_shift() {
    let (program, errors) = parse("2 << 1 | 1");
    assert!(errors.is_empty());
    assert_eq!(
        program.statements,
        vec![Statement::Expression(infix(
            Infix::LeftShift,
            num("2"),
            infix(Infix::OR, num("1"), num("1"))
        ))]
    );
}

#[test]
fn sum_is_left_associative() {
    let (program, _) = parse("1 - 2 - 3");
    assert_eq!(
        program.statements,
        vec![Statement::Expression(infix(
            Infix::Minus,
            infix(Infix::Minus, num("1"), num("2")),
            num("3")
        ))]
    );
}

#[test]
fn prefix_binds_tighter_than_binary() {
    let (program, _) = parse("-a * b");
    assert_eq!(
        program.statements,
        vec![Statement::Expression(infix(
            Infix::Times,
            Expr::Prefix(Prefix::Minus, Box::new(Expr::Ident(Ident("a".to_string())))),
            Expr::Ident(Ident("b".to_string()))
        ))]
    );
}

#[test]
fn parses_bindings_and_reassignments() {
    let (program, errors) = parse("scratch x = 1; amew x = 2; tail x;");
    assert!(errors.is_empty());
    assert_eq!(
        program.statements,
        vec![
            Statement::Bind(Ident("x".to_string()), num("1")),
            Statement::Anew(Ident("x".to_string()), num("2")),
            Statement::Return(Expr::Ident(Ident("x".to_string()))),
        ]
    );
}

#[test]
fn missing_semicolon_still_advances() {
    let (program, errors) = parse("scratch x = 1");
    assert!(errors.is_empty());
    assert_eq!(program.statements, vec![Statement::Bind(Ident("x".to_string()), num("1"))]);
}

#[test]
fn parses_function_literal_and_call() {
    let (program, errors) = parse("pawction(a, b) { tail a + b; }(1, 2)");
    assert!(errors.is_empty());
    let fun = Expr::Fun {
        params: vec![Ident("a".to_string()), Ident("b".to_string())],
        body: vec![Statement::Return(infix(
            Infix::Plus,
            Expr::Ident(Ident("a".to_string())),
            Expr::Ident(Ident("b".to_string())),
        ))],
    };
    assert_eq!(
        program.statements,
        vec![Statement::Expression(Expr::Call {
            function: Box::new(fun),
            args: vec![num("1"), num("2")]
        })]
    );
}

#[test]
fn else_if_becomes_nested_conditional() {
    let (program, errors) = parse("purrhaps (a) { 1 } meowtually purrhaps (b) { 2 } meowtually { 3 }");
    assert!(errors.is_empty());
    let inner = Expr::If {
        cond: Box::new(Expr::Ident(Ident("b".to_string()))),
        then_: Box::new(vec![Statement::Expression(num("2"))]),
        else_: Some(vec![Statement::Expression(num("3"))]),
    };
    assert_eq!(
        program.statements,
        vec![Statement::Expression(Expr::If {
            cond: Box::new(Expr::Ident(Ident("a".to_string()))),
            then_: Box::new(vec![Statement::Expression(num("1"))]),
            else_: Some(vec![Statement::Expression(inner)]),
        })]
    );
}

#[test]
fn parses_array_object_and_index() {
    let (program, errors) = parse("[1, 2][0]; { \"a\": 1, b: 2 };");
    assert!(errors.is_empty());
    assert_eq!(
        program.statements,
        vec![
            Statement::Expression(Expr::Index {
                array: Box::new(Expr::Literal(Literal::Array(vec![num("1"), num("2")]))),
                index: Box::new(num("0")),
            }),
            Statement::Expression(Expr::Literal(Literal::Object(vec![
                (Expr::Literal(Literal::String("a".to_string())), num("1")),
                (Expr::Ident(Ident("b".to_string())), num("2")),
            ]))),
        ]
    );
}

#[test]
fn parses_loop_typeof_and_signals() {
    let (program, errors) = parse("furrever { hiss; continue; } furreal x; pawckage \"lib\";");
    assert!(errors.is_empty());
    assert_eq!(
        program.statements,
        vec![
            Statement::Expression(Expr::Loop { body: vec![Statement::Break, Statement::Continue] }),
            Statement::Expression(Expr::Typeof { expr: Box::new(Expr::Ident(Ident("x".to_string()))) }),
            Statement::Include("lib".to_string()),
        ]
    );
}

#[test]
fn errors_accumulate_and_parsing_goes_on() {
    let (program, errors) = parse("scratch = 1; scratch y 2; scratch z = 3;");
    assert_eq!(
        errors,
        vec![
            "expected next token to be Ident(\"\"), got Assign instead".to_string(),
            "expected next token to be Assign, got Number(2) instead".to_string(),
        ]
    );
    assert!(program.statements.contains(&Statement::Bind(Ident("z".to_string()), num("3"))));
}

#[test]
fn malformed_numeral_is_reported() {
    let (program, errors) = parse("1.2.3;");
    assert_eq!(errors, vec!["malformed number: 1.2.3".to_string()]);
    assert!(program.statements.is_empty());
}

#[test]
fn parameter_must_be_identifier() {
    let (_, errors) = parse("pawction(1) { }");
    assert_eq!(errors, vec!["Expected identifier as parameter name. Got: Number(1)".to_string()]);
}

#[test]
fn operator_without_left_operand_gives_nothing() {
    let (program, errors) = parse("; + 3");
    assert!(errors.is_empty());
    assert_eq!(
        program.statements,
        vec![Statement::Expression(Expr::Prefix(Prefix::Plus, Box::new(num("3"))))]
    );
}

#[test]
fn clone_keeps_the_tree() {
    let (program, _) = parse("scratch f = pawction(a) { purrhaps (a) { [a, {a: 1}] } };");
    assert_eq!(program.clone(), program);
}
