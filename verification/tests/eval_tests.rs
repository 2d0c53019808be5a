use meowscript::ast::Infix;
use meowscript::evaluation::{Action, Eval};
use meowscript::number::Number;
use meowscript::object::Object;
use meowscript::parser::parse;
use meowscript::store::Store;

const BUDGET: usize = 1_000_000;

fn number(x: f64) -> Object {
    Object::Number(Number(format!("{}", x)))
}

fn value(n: &Number) -> f64 {
    n.0.parse::<f64>().unwrap()
}

fn arithmetic(op: Infix, a: &Number, b: &Number) -> Object {
    let (l, r) = (value(a), value(b));
    match op {
        Infix::Plus => number(l + r),
        Infix::Minus => number(l - r),
        Infix::Times => number(l * r),
        Infix::Divide => number(l / r),
        Infix::Modulo => number(l % r),
        Infix::LessThan => Object::Bool(l < r),
        Infix::LessThanEqual => Object::Bool(l <= r),
        Infix::GreaterThan => Object::Bool(l > r),
        Infix::GreaterThanEqual => Object::Bool(l >= r),
        Infix::Equals => Object::Bool(l == r),
        Infix::NotEquals => Object::Bool(l != r),
        Infix::LeftShift => number((l as i64).wrapping_shl(r as i64 as u32) as f64),
        Infix::RightShift => number((l as i64).wrapping_shr(r as i64 as u32) as f64),
        Infix::AND => number((l as i64 & r as i64) as f64),
        Infix::OR => number((l as i64 | r as i64) as f64),
        Infix::XOR => number((l as i64 ^ r as i64) as f64),
        Infix::In => unreachable!(),
    }
}

/// Runs a program on `eval`; `library` is the text that is handed out for
/// every library that the program asks for.
fn run_on(eval: &mut Eval, src: &str, library: Option<&str>) -> Option<Object> {
    let (program, errors) = parse(src.to_string());
    assert_eq!(errors, Vec::<String>::new());
    let mut action = eval.eval(program, BUDGET);
    loop {
        action = match action {
            Action::Done(v) => return v,
            Action::Continue => panic!("out of budget"),
            Action::Numeral(t) => eval.resume(number(t.parse::<f64>().unwrap()), BUDGET),
            Action::Arithmetic(op, a, b) => eval.resume(arithmetic(op, &a, &b), BUDGET),
            Action::Native(_, _) => eval.resume(Object::Null, BUDGET),
            Action::Library(_) => match library {
                Some(text) => eval.resume(Object::String(text.to_string()), BUDGET),
                None => eval.resume(Object::Null, BUDGET),
            },
        };
    }
}

fn run(src: &str) -> Option<Object> {
    let mut eval = Eval::new(Store::new());
    run_on(&mut eval, src, None)
}

fn text(s: &str) -> Object {
    Object::String(s.to_string())
}

#[test]
fn precedence_of_product_over_sum() {
    assert_eq!(run("1 + 2 * 3"), Some(number(7.0)));
}

#[test]
fn precedence_of_parentheses() {
    assert_eq!(run("(1 + 2) * 3"), Some(number(9.0)));
}

#[test]
fn precedence_of_bitwise_or_over_shift() {
    assert_eq!(run("2 << 1 | 1"), Some(number(4.0)));
    assert_eq!(run("(2 << 1) | 1"), Some(number(5.0)));
}

#[test]
fn closure_mutation_is_shared() {
    let src = "
        scratch counter = 0;
        scratch inc = pawction() { amew counter = counter + 1; };
        scratch get = pawction() { tail counter; };
        inc(); inc();
        get()";
    assert_eq!(run(src), Some(number(2.0)));
}

#[test]
fn binding_in_a_function_shadows() {
    let src = "
        scratch x = 1;
        scratch f = pawction() { scratch x = 2; tail x; };
        scratch inner = f();
        [inner, x]";
    assert_eq!(run(src), Some(Object::Array(vec![number(2.0), number(1.0)])));
}

#[test]
fn reassignment_in_a_function_reaches_outwards() {
    let src = "
        scratch x = 1;
        scratch f = pawction() { amew x = 3; };
        f();
        x";
    assert_eq!(run(src), Some(number(3.0)));
}

#[test]
fn reassignment_of_unbound_name_is_an_error() {
    assert_eq!(run("amew y = 1;"), Some(Object::Error("identifier not found: y".to_string())));
}

#[test]
fn arity_is_enforced() {
    let define = "scratch f = pawction(a, b) { tail a; };";
    assert_eq!(
        run(&format!("{} f(1)", define)),
        Some(Object::Error("expected arguments: 2\ngiven arguments: 1".to_string()))
    );
    assert_eq!(
        run(&format!("{} f(1, 2, 3)", define)),
        Some(Object::Error("expected arguments: 2\ngiven arguments: 3".to_string()))
    );
    assert_eq!(run(&format!("{} f(1, 2)", define)), Some(number(1.0)));
}

#[test]
fn array_indexing_from_both_ends() {
    assert_eq!(run("[1, 2, 3][-1]"), Some(number(3.0)));
    assert_eq!(run("[1, 2, 3][0]"), Some(number(1.0)));
    assert_eq!(run("[1, 2, 3][3]"), Some(Object::Null));
    assert_eq!(run("[1, 2, 3][1.7]"), Some(number(2.0)));
    assert_eq!(run("[1, 2, 3][-5]"), Some(number(1.0)));
    assert_eq!(run("[][0]"), Some(Object::Null));
}

#[test]
fn map_round_trip() {
    assert_eq!(run("{ \"a\": 1, \"b\": 2 }[\"a\"]"), Some(number(1.0)));
    assert_eq!(run("{ \"a\": 1, \"b\": 2 }[\"b\"]"), Some(number(2.0)));
    assert_eq!(run("{ \"a\": 1, \"b\": 2 }[\"c\"]"), Some(Object::Null));
    assert_eq!(run("{ \"a\": 1, \"a\": 2 }[\"a\"]"), Some(number(2.0)));
    assert_eq!(run("{ 1: \"one\", purrfect: \"yes\" }[purrfect]"), Some(text("yes")));
}

#[test]
fn loop_ends_on_break_with_null() {
    assert_eq!(run("furrever { hiss; }"), Some(Object::Null));
}

#[test]
fn continue_skips_the_rest_of_a_round() {
    let src = "
        scratch i = 0;
        scratch n = 0;
        furrever {
            amew i = i + 1;
            purrhaps (i > 5) { hiss; }
            purrhaps (i < 3) { continue; }
            amew n = n + 1;
        }
        n";
    assert_eq!(run(src), Some(number(3.0)));
}

#[test]
fn return_leaves_a_loop_and_the_function() {
    let src = "
        scratch f = pawction() { furrever { tail 7; } };
        f()";
    assert_eq!(run(src), Some(number(7.0)));
}

#[test]
fn error_on_the_left_skips_the_right_operand() {
    let mut eval = Eval::new(Store::new());
    let first = "
        scratch hit = 0;
        scratch f = pawction() { amew hit = 1; tail 1; };
        missing + f();";
    assert_eq!(
        run_on(&mut eval, first, None),
        Some(Object::Error("identifier not found: missing".to_string()))
    );
    assert_eq!(run_on(&mut eval, "hit", None), Some(number(0.0)));
    assert_eq!(run_on(&mut eval, "f() + missing", None),
        Some(Object::Error("identifier not found: missing".to_string())));
    assert_eq!(run_on(&mut eval, "hit", None), Some(number(1.0)));
}

#[test]
fn library_bindings_lie_on_top_of_the_includer() {
    let src = "
        scratch x = 1;
        scratch before = pawction() { tail x; };
        pawckage \"lib\";
        scratch after = pawction() { tail x; };
        [before(), after(), y]";
    let mut eval = Eval::new(Store::new());
    assert_eq!(
        run_on(&mut eval, src, Some("scratch x = 2; scratch y = 3;")),
        Some(Object::Array(vec![number(1.0), number(2.0), number(3.0)]))
    );
}

#[test]
fn library_that_cannot_be_read_is_an_error() {
    let mut eval = Eval::new(Store::new());
    assert_eq!(
        run_on(&mut eval, "pawckage \"lib\"; 1", Some("scratch = ;")),
        Some(Object::Error("Could not load lib: lib".to_string()))
    );
    assert_eq!(eval.diagnostics.len(), 1);
    assert_eq!(
        run_on(&mut eval, "pawckage \"nya:nothing\"; 1", None),
        Some(Object::Error("Could not load lib: nya:nothing".to_string()))
    );
}

#[test]
fn built_in_array_library() {
    let src = "
        pawckage \"nya:furrball\";
        scratch a = push([1, 2], 3);
        [a, pounce(a), bottom(a), includes(a, 2), includes(a, 9)]";
    assert_eq!(
        run(src),
        Some(Object::Array(vec![
            Object::Array(vec![number(1.0), number(2.0), number(3.0)]),
            Object::Array(vec![number(1.0), number(2.0)]),
            Object::Array(vec![number(2.0), number(3.0)]),
            Object::Bool(true),
            Object::Bool(false),
        ]))
    );
}

#[test]
fn typeof_names_the_kinds() {
    assert_eq!(run("furreal 1"), Some(text("number")));
    assert_eq!(run("furreal \"a\""), Some(text("string")));
    assert_eq!(run("furreal purrfect"), Some(text("boolean")));
    assert_eq!(run("furreal [1]"), Some(text("array")));
    assert_eq!(run("furreal {1: 2}"), Some(text("object")));
    assert_eq!(run("furreal pawction() { }"), Some(text("undefined")));
    assert_eq!(run("furreal missing"), Some(text("undefined")));
    assert_eq!(run("furreal (purrhaps (clawful) { 1 })"), Some(text("undefined")));
    assert_eq!(run("scratch n = purrhaps (purrfect) { }; 1"), Some(number(1.0)));
}

#[test]
fn strings_join_and_other_operators_fail() {
    assert_eq!(run("\"a\" + \"b\""), Some(text("ab")));
    assert_eq!(
        run("\"a\" - \"b\""),
        Some(Object::Error("unknown operator: a - b".to_string()))
    );
    assert_eq!(
        run("1 + \"b\""),
        Some(Object::Error("type mismatch: 1 + b".to_string()))
    );
    assert_eq!(
        run("purrfect + 1"),
        Some(Object::Error("unknown operator: true + 1".to_string()))
    );
}

#[test]
fn membership_has_three_shapes() {
    assert_eq!(run("12 ~ 2"), Some(Object::Bool(true)));
    assert_eq!(run("12 ~ 3"), Some(Object::Bool(false)));
    assert_eq!(run("\"a\" ~ {\"a\": 1}"), Some(Object::Bool(true)));
    assert_eq!(run("\"b\" ~ {\"a\": 1}"), Some(Object::Bool(false)));
    assert_eq!(run("2 ~ [1, 2]"), Some(Object::Bool(true)));
    assert_eq!(run("\"x\" ~ [1, 2]"), Some(Object::Bool(false)));
}

#[test]
fn prefix_operators() {
    assert_eq!(run("-5"), Some(number(-5.0)));
    assert_eq!(run("--5"), Some(number(5.0)));
    assert_eq!(run("+5"), Some(number(5.0)));
    assert_eq!(run("!purrfect"), Some(Object::Bool(false)));
    assert_eq!(run("!5"), Some(Object::Bool(false)));
    assert_eq!(run("-\"a\""), Some(Object::Error("unknown operator: -a".to_string())));
}

#[test]
fn conditionals_choose_a_block() {
    assert_eq!(run("purrhaps (1 < 2) { 10 } meowtually { 20 }"), Some(number(10.0)));
    assert_eq!(run("purrhaps (1 > 2) { 10 } meowtually { 20 }"), Some(number(20.0)));
    assert_eq!(run("purrhaps (1 > 2) { 10 }"), None);
    assert_eq!(
        run("purrhaps (1 > 2) { 10 } meowtually purrhaps (purrfect) { 30 }"),
        Some(number(30.0))
    );
    assert_eq!(
        run("purrhaps (missing) { 10 }"),
        Some(Object::Error("identifier not found: missing".to_string()))
    );
}

#[test]
fn indexing_of_other_values_is_an_error() {
    assert_eq!(run("5[0]"), Some(Object::Error("unknown operator: 5 0".to_string())));
    assert_eq!(
        run("[1][\"a\"]"),
        Some(Object::Error("index operator not supported: [1]".to_string()))
    );
    assert_eq!(
        run("{1: 2}[[1]]"),
        Some(Object::Error("unsable as hash key: [1]".to_string()))
    );
}

#[test]
fn calling_what_is_no_function_is_an_error() {
    assert_eq!(run("5()"), Some(Object::Error("function not found: 5".to_string())));
}

#[test]
fn error_in_an_argument_stops_the_call() {
    let mut eval = Eval::new(Store::new());
    let src = "
        scratch hit = 0;
        scratch f = pawction(a, b) { amew hit = 1; tail 1; };
        f(missing, 2)";
    assert_eq!(
        run_on(&mut eval, src, None),
        Some(Object::Error("identifier not found: missing".to_string()))
    );
    assert_eq!(run_on(&mut eval, "hit", None), Some(number(0.0)));
}

#[test]
fn program_stops_at_the_first_return() {
    assert_eq!(run("tail 1; 2"), Some(number(1.0)));
    assert_eq!(run("scratch x = 1;"), None);
}

#[test]
fn recursion_works() {
    let src = "
        scratch fact = pawction(n) {
            purrhaps (n < 2) { tail 1; }
            tail n * fact(n - 1);
        };
        fact(5)";
    assert_eq!(run(src), Some(number(120.0)));
}

#[test]
fn steps_can_be_taken_one_by_one() {
    let (program, _) = parse("purrfect".to_string());
    let mut eval = Eval::new(Store::new());
    eval.load(program);
    let mut steps = 0;
    loop {
        match eval.step() {
            Action::Continue => steps += 1,
            Action::Done(v) => {
                assert_eq!(v, Some(Object::Bool(true)));
                break;
            }
            other => panic!("unexpected {:?}", other),
        }
    }
    assert_eq!(steps, 4);
    assert_eq!(eval.step(), Action::Done(None));
}

#[test]
fn budget_bounds_an_endless_loop() {
    let (program, _) = parse("furrever { }".to_string());
    let mut eval = Eval::new(Store::new());
    assert_eq!(eval.eval(program, 1000), Action::Continue);
    assert_eq!(eval.run(1000), Action::Continue);
}

#[test]
fn values_are_written_out() {
    assert_eq!(run("[1, \"a\", purrfect]").unwrap().to_text(), "[1, a, true]");
    assert_eq!(run("{\"a\": 1, 2: [3]}").unwrap().to_text(), "{a: 1, 2: [3]}");
    assert_eq!(run("pawction(a, b) { }").unwrap().to_text(), "fn(a, b) { ... }");
    assert_eq!(run("log").unwrap().to_text(), "[inbuilt fn]");
    assert_eq!(Object::Null.to_text(), "null");
    assert_eq!(Object::Break.to_text(), "break");
    assert_eq!(Object::Continue.to_text(), "continue");
    assert_eq!(Object::Return(Box::new(Object::Bool(false))).to_text(), "false");
}

#[test]
fn interpret_rejects_what_cannot_be_read() {
    match meowscript::interpret("scratch = 1;".to_string(), BUDGET) {
        meowscript::Interpreted::Rejected(errors) => assert_eq!(
            errors,
            vec!["expected next token to be Ident(\"\"), got Assign instead".to_string()]
        ),
        meowscript::Interpreted::Started(_, _) => panic!("was run"),
    }
}

#[test]
fn interpret_runs_what_can_be_read() {
    match meowscript::interpret("\"a\" + \"b\"".to_string(), BUDGET) {
        meowscript::Interpreted::Started(_, action) => assert_eq!(action, Action::Done(Some(text("ab")))),
        meowscript::Interpreted::Rejected(_) => panic!("was rejected"),
    }
    match meowscript::interpret("1".to_string(), BUDGET) {
        meowscript::Interpreted::Started(_, action) => assert_eq!(action, Action::Numeral("1".to_string())),
        meowscript::Interpreted::Rejected(_) => panic!("was rejected"),
    }
}
