use meowscript::ast::Infix;
use meowscript::evaluation::{Action, Eval};
use meowscript::number::{decimal_text, text_contains, Number};
use meowscript::object::{map_get, map_insert, Object};
use meowscript::operators::{
    eval_array_index_expr, eval_index_expr, eval_infix_expr, eval_prefix_expr,
    unwrap_return_value, Computed,
};
use meowscript::parser::parse;
use meowscript::ast::Prefix;
use meowscript::std_library::array::{head, includes, pop, push, tail};
use meowscript::std_library::random::SimpleRandom;
use meowscript::std_library::string::{replace, to_string};
use meowscript::std_library::util::length;
use meowscript::std_library::{call_native, get_std_lib};
use meowscript::store::Store;

const BUDGET: usize = 1_000_000;

fn num(text: &str) -> Object {
    Object::Number(Number(text.to_string()))
}

fn text(s: &str) -> Object {
    Object::String(s.to_string())
}

fn number(x: f64) -> Object {
    Object::Number(Number(format!("{}", x)))
}

fn value(n: &Number) -> f64 {
    n.0.parse::<f64>().unwrap()
}

fn run(src: &str) -> Option<Object> {
    let (program, errors) = parse(src.to_string());
    assert_eq!(errors, Vec::<String>::new());
    let mut eval = Eval::new(Store::new());
    let mut action = eval.eval(program, BUDGET);
    loop {
        action = match action {
            Action::Done(v) => return v,
            Action::Continue => panic!("out of budget"),
            Action::Numeral(t) => eval.resume(number(t.parse::<f64>().unwrap()), BUDGET),
            Action::Arithmetic(op, a, b) => {
                let (l, r) = (value(&a), value(&b));
                let v = match op {
                    Infix::Plus => number(l + r),
                    Infix::Times => number(l * r),
                    Infix::Equals => Object::Bool(l == r),
                    _ => panic!("unexpected operator"),
                };
                eval.resume(v, BUDGET)
            }
            Action::Native(name, args) => {
                eval.resume(Object::Array(vec![text(&name), Object::Array(args)]), BUDGET)
            }
            Action::Library(_) => eval.resume(Object::Null, BUDGET),
        };
    }
}

#[test]
fn push_adds_at_the_end() {
    assert_eq!(
        push(vec![Object::Array(vec![num("1")]), num("2")]),
        Object::Array(vec![num("1"), num("2")])
    );
    assert_eq!(
        push(vec![num("1")]),
        Object::Error("Wrong number of arguments. Got 1. Expected 2.".to_string())
    );
    assert_eq!(
        push(vec![num("1"), num("2")]),
        Object::Error("First argument must be an array. Got 1".to_string())
    );
}

#[test]
fn pop_and_head_take_the_last_item() {
    let a = Object::Array(vec![num("1"), num("2")]);
    assert_eq!(pop(vec![a.clone()]), Object::Array(vec![num("1")]));
    assert_eq!(head(vec![a]), Object::Array(vec![num("1")]));
    assert_eq!(pop(vec![Object::Array(vec![])]), Object::Array(vec![]));
    assert_eq!(
        pop(vec![]),
        Object::Error("Wrong number of arguments. Got 0. Expected 1.".to_string())
    );
}

#[test]
fn tail_takes_the_first_item() {
    let a = Object::Array(vec![num("1"), num("2"), num("3")]);
    assert_eq!(tail(vec![a]), Object::Array(vec![num("2"), num("3")]));
    assert_eq!(tail(vec![Object::Array(vec![])]), Object::Array(vec![]));
    assert_eq!(
        tail(vec![text("a")]),
        Object::Error("First argument must be an array. Got a".to_string())
    );
}

#[test]
fn includes_compares_values() {
    let a = Object::Array(vec![num("1"), text("x"), num("0")]);
    assert_eq!(includes(vec![a.clone(), text("x")]), Object::Bool(true));
    assert_eq!(includes(vec![a.clone(), num("-0")]), Object::Bool(true));
    assert_eq!(includes(vec![a.clone(), num("2")]), Object::Bool(false));
    assert_eq!(
        includes(vec![Object::Array(vec![num("NaN")]), num("NaN")]),
        Object::Bool(false)
    );
}

#[test]
fn length_counts_items_and_bytes() {
    assert_eq!(length(vec![Object::Array(vec![num("1"), num("2")])]), num("2"));
    assert_eq!(length(vec![text("abc")]), num("3"));
    assert_eq!(length(vec![text("é")]), num("2"));
    assert_eq!(length(vec![text("")]), num("0"));
    assert_eq!(
        length(vec![num("1")]),
        Object::Error("Argument must be a string or array. Got 1".to_string())
    );
}

#[test]
fn replace_goes_through_the_standard_function() {
    assert_eq!(replace(vec![text("a-b-c"), text("-"), text("+")]), text("a+b+c"));
    assert_eq!(replace(vec![text("a1b1"), num("1"), text("")]), text("ab"));
    assert_eq!(
        replace(vec![num("1"), text("a"), text("b")]),
        Object::Error("First argument must be a string. Got 1".to_string())
    );
    assert_eq!(
        replace(vec![text("a")]),
        Object::Error("Wrong number of arguments. Got 1. Expected 3.".to_string())
    );
}

#[test]
fn to_string_writes_values_out() {
    assert_eq!(to_string(vec![num("1.5")]), text("1.5"));
    assert_eq!(to_string(vec![Object::Bool(true)]), text("true"));
    assert_eq!(to_string(vec![Object::Null]), text("null"));
    assert_eq!(to_string(vec![Object::Array(vec![num("1"), text("a")])]), text("1a"));
    assert_eq!(to_string(vec![Object::Inbuilt("push".to_string())]), text("[Inbuilt Function]"));
    assert_eq!(to_string(vec![Object::Fn(vec![], vec![], 0)]), text("[Function]"));
    assert_eq!(to_string(vec![Object::Error("bad".to_string())]), text("bad"));
}

#[test]
fn natives_are_called_by_name() {
    assert_eq!(call_native("length", vec![text("ab")]), Ok(num("2")));
    assert_eq!(call_native("head", vec![Object::Array(vec![num("1")])]), Ok(Object::Array(vec![])));
    assert_eq!(call_native("sqrt", vec![num("4")]), Err(vec![num("4")]));
}

#[test]
fn built_in_libraries_are_known_by_name() {
    assert_eq!(get_std_lib("nya:clawtility").unwrap().globals.len(), 3);
    assert_eq!(get_std_lib("nya:furrball").unwrap().globals.len(), 5);
    assert!(get_std_lib("nya:furrball").unwrap().raw.is_some());
    assert_eq!(get_std_lib("nya:whiskers").unwrap().globals.len(), 2);
    assert_eq!(get_std_lib("nya:scratchpad").unwrap().globals.len(), 3);
    let math = get_std_lib("nya:catculator").unwrap();
    assert_eq!(math.globals.len(), 17);
    assert!(math.globals.contains(&("MAX_INT".to_string(), number(f64::MAX))));
    assert!(math.globals.contains(&("MIN_INT".to_string(), number(f64::MIN))));
    assert!(math.globals.contains(&("Math.PI".to_string(), number(std::f64::consts::PI))));
    assert!(math.globals.contains(&("Math.E".to_string(), number(std::f64::consts::E))));
    assert!(get_std_lib("nya:meowternet").is_none());
}

#[test]
fn array_library_defines_map_in_the_language() {
    let src = "
        pawckage \"nya:furrball\";
        map([1, 2, 3], pawction(x) { tail x * 2; })";
    assert_eq!(run(src), Some(Object::Array(vec![num("2"), num("4"), num("6")])));
}

#[test]
fn names_of_a_library_shadow_the_includer() {
    let src = "
        scratch push = 1;
        pawckage \"nya:furrball\";
        push([], 2)";
    assert_eq!(run(src), Some(Object::Array(vec![num("2")])));
}

#[test]
fn host_natives_are_asked_for() {
    assert_eq!(
        run("log(1, \"a\")"),
        Some(Object::Array(vec![text("log"), Object::Array(vec![num("1"), text("a")])]))
    );
    assert_eq!(
        run("pawckage \"nya:catculator\"; sqrt(4)"),
        Some(Object::Array(vec![text("sqrt"), Object::Array(vec![num("4")])]))
    );
    assert_eq!(
        run("scratch log = 5; log"),
        Some(Object::Inbuilt("log".to_string()))
    );
}

#[test]
fn numbers_compare_as_numbers() {
    let n = |s: &str| Number(s.to_string());
    assert!(n("1").equals(&n("1")));
    assert!(!n("1").equals(&n("2")));
    assert!(n("0").equals(&n("-0")));
    assert!(!n("NaN").equals(&n("NaN")));
    assert!(n("inf").equals(&n("inf")));
    assert!(!n("inf").equals(&n("-inf")));
    assert!(n("0").is_zero());
    assert!(!n("0.5").is_zero());
    assert!(!n("inf").is_zero());
}

#[test]
fn numbers_change_sign() {
    let n = |s: &str| Number(s.to_string());
    assert_eq!(n("5").negate(), n("-5"));
    assert_eq!(n("-5").negate(), n("5"));
    assert_eq!(n("0").negate(), n("-0"));
    assert_eq!(n("NaN").negate(), n("NaN"));
    assert_eq!(n("inf").negate(), n("-inf"));
    for x in [1.5f64, -2.0, 0.0, f64::INFINITY, 1e300] {
        assert_eq!(n(&format!("{}", x)).negate(), n(&format!("{}", -x)));
    }
}

#[test]
fn numbers_select_positions() {
    let n = |s: &str| Number(s.to_string());
    assert_eq!(n("0").select(3), Some(0));
    assert_eq!(n("2").select(3), Some(2));
    assert_eq!(n("3").select(3), None);
    assert_eq!(n("2.9").select(3), Some(2));
    assert_eq!(n("3.5").select(3), None);
    assert_eq!(n("-1").select(3), Some(2));
    assert_eq!(n("-3").select(3), Some(0));
    assert_eq!(n("-4").select(3), Some(0));
    assert_eq!(n("-0.5").select(3), Some(2));
    assert_eq!(n("-0").select(3), Some(0));
    assert_eq!(n("NaN").select(3), Some(0));
    assert_eq!(n("inf").select(3), None);
    assert_eq!(n("-inf").select(3), Some(0));
    assert_eq!(n("99999999999999999999999999").select(3), None);
    assert_eq!(n("0").select(0), None);
    assert_eq!(n("-1").select(0), None);
    for len in 0..4usize {
        for x in [-5.0f64, -3.5, -1.0, -0.25, 0.0, 0.75, 1.0, 2.5, 3.0, 4.0] {
            let items: Vec<usize> = (0..len).collect();
            let expected = if x > len as f64 {
                None
            } else if x < 0.0 {
                items.get((len as f64 + x) as usize).copied()
            } else {
                items.get(x as usize).copied()
            };
            assert_eq!(n(&format!("{}", x)).select(len), expected, "{} in {}", x, len);
        }
    }
}

#[test]
fn decimal_numerals_of_lengths() {
    assert_eq!(decimal_text(0), "0");
    assert_eq!(decimal_text(7), "7");
    assert_eq!(decimal_text(10), "10");
    assert_eq!(decimal_text(12345), "12345");
    assert_eq!(decimal_text(usize::MAX), usize::MAX.to_string());
    assert_eq!(Number::from_usize(42), Number("42".to_string()));
}

#[test]
fn text_search() {
    assert!(text_contains("hello", "ell"));
    assert!(text_contains("hello", ""));
    assert!(text_contains("", ""));
    assert!(!text_contains("hello", "elx"));
    assert!(!text_contains("he", "hello"));
    assert!(text_contains("hello", "hello"));
}

#[test]
fn maps_replace_and_append() {
    let m = map_insert(vec![], text("a"), num("1"));
    let m = map_insert(m, text("b"), num("2"));
    let m = map_insert(m, text("a"), num("3"));
    assert_eq!(m, vec![(text("a"), num("3")), (text("b"), num("2"))]);
    assert_eq!(map_get(&m, &text("a")), Some(num("3")));
    assert_eq!(map_get(&m, &text("c")), None);
    let nan = map_insert(map_insert(vec![], num("NaN"), num("1")), num("NaN"), num("2"));
    assert_eq!(nan.len(), 2);
}

#[test]
fn values_compare_by_structure() {
    assert!(Object::Array(vec![num("0")]).equals(&Object::Array(vec![num("-0")])));
    assert!(!Object::Array(vec![num("0")]).equals(&Object::Array(vec![])));
    assert!(Object::Null.equals(&Object::Null));
    assert!(!Object::Null.equals(&Object::Bool(false)));
    assert!(!Object::Break.equals(&Object::Break));
    assert!(Object::Inbuilt("a".to_string()).equals(&Object::Inbuilt("a".to_string())));
    assert!(Object::Object(vec![(text("a"), num("1"))])
        .equals(&Object::Object(vec![(text("a"), num("1"))])));
    assert!(Object::Return(Box::new(num("1"))).equals(&Object::Return(Box::new(num("1")))));
    assert!(!Object::Error("a".to_string()).equals(&Object::Error("b".to_string())));
}

#[test]
fn maps_compare_without_order() {
    let ab = Object::Object(vec![(text("a"), num("1")), (text("b"), num("2"))]);
    let ba = Object::Object(vec![(text("b"), num("2")), (text("a"), num("1"))]);
    let ac = Object::Object(vec![(text("a"), num("1")), (text("c"), num("2"))]);
    let a = Object::Object(vec![(text("a"), num("1"))]);
    assert!(ab.equals(&ba));
    assert!(ba.equals(&ab));
    assert!(!ab.equals(&ac));
    assert!(!ab.equals(&a));
    assert!(!a.equals(&ab));
}

#[test]
fn functions_compare_by_parameters_body_and_scope() {
    let (program, _) = parse("pawction(a) { tail a; }; pawction(a) { tail a; }; pawction(b) { tail b; }".to_string());
    let mut funs = Vec::new();
    for statement in program.statements {
        if let meowscript::ast::Statement::Expression(meowscript::ast::Expr::Fun { params, body }) = statement {
            funs.push((params, body));
        }
    }
    assert_eq!(funs.len(), 3);
    let f0 = Object::Fn(funs[0].0.clone(), funs[0].1.clone(), 0);
    let f1 = Object::Fn(funs[1].0.clone(), funs[1].1.clone(), 0);
    let f1_elsewhere = Object::Fn(funs[1].0.clone(), funs[1].1.clone(), 1);
    let f2 = Object::Fn(funs[2].0.clone(), funs[2].1.clone(), 0);
    assert!(f0.equals(&f1));
    assert!(!f0.equals(&f1_elsewhere));
    assert!(!f0.equals(&f2));
}

#[test]
fn operators_on_values() {
    assert_eq!(
        eval_infix_expr(Infix::Plus, &num("1"), &num("2")),
        Computed::Arithmetic(Infix::Plus, Number("1".to_string()), Number("2".to_string()))
    );
    assert_eq!(
        eval_infix_expr(Infix::In, &num("12"), &num("2")),
        Computed::Value(Object::Bool(true))
    );
    assert_eq!(
        eval_infix_expr(Infix::Plus, &text("a"), &text("b")),
        Computed::Value(text("ab"))
    );
    assert_eq!(
        eval_infix_expr(Infix::Plus, &num("1"), &Object::Null),
        Computed::Value(Object::Error("type mismatch: 1 + null".to_string()))
    );
    assert_eq!(eval_prefix_expr(Prefix::Exclamation, Object::Null), Object::Bool(true));
    assert_eq!(
        eval_prefix_expr(Prefix::Minus, Object::Error("e".to_string())),
        Object::Error("e".to_string())
    );
    assert_eq!(
        eval_prefix_expr(Prefix::Plus, text("a")),
        Object::Error("unknown operator: a".to_string())
    );
    assert_eq!(eval_array_index_expr(&vec![num("7")], &Number("-1".to_string())), num("7"));
    assert_eq!(
        eval_index_expr(&Object::Object(vec![(num("1"), text("x"))]), num("1")),
        text("x")
    );
    assert_eq!(unwrap_return_value(Some(Object::Return(Box::new(num("1"))))), num("1"));
    assert_eq!(unwrap_return_value(Some(Object::Break)), Object::Break);
    assert_eq!(unwrap_return_value(None), Object::Null);
}

#[test]
fn scopes_chain() {
    let mut store = Store::from(vec![("x".to_string(), num("1"))]);
    let first = store.new_enclosed(0);
    let second = store.new_enclosed(0);
    assert_eq!(store.get(first, "x"), Some(num("1")));
    store.set(first, "y".to_string(), num("2"));
    assert_eq!(store.get(second, "y"), None);
    assert!(store.anew(first, "x".to_string(), num("3")));
    assert_eq!(store.get(second, "x"), Some(num("3")));
    assert_eq!(store.get(0, "x"), Some(num("3")));
    store.set(first, "x".to_string(), num("4"));
    assert_eq!(store.get(first, "x"), Some(num("4")));
    assert_eq!(store.get(0, "x"), Some(num("3")));
    assert!(!store.anew(second, "z".to_string(), num("5")));
    assert_eq!(store.get(second, "z"), None);
    assert_eq!(store.iter(first), vec![("y".to_string(), num("2")), ("x".to_string(), num("4"))]);
    assert_eq!(store.iter(99), vec![]);
    assert_eq!(store.get(99, "x"), None);
    assert_eq!(store.len(), 3);
    assert_eq!(Store::new().len(), 1);
    let root = store.new_root(vec![("w".to_string(), num("6"))]);
    assert_eq!(store.get(root, "w"), Some(num("6")));
    assert_eq!(store.get(root, "x"), None);
}

#[test]
fn random_integer_lies_in_its_range() {
    let mut random = SimpleRandom::new();
    let mut drawn = Vec::new();
    for _ in 0..200 {
        let r = random.randint(-3, 4);
        assert!((-3..=4).contains(&r));
        drawn.push(r);
    }
    assert!(drawn.iter().any(|r| *r != -3));
    assert!(drawn.iter().any(|r| *r != 4));
    assert_eq!(random.randint(5, 5), 5);
}

#[test]
fn random_choice_is_an_item() {
    let mut random = SimpleRandom::new();
    let items = vec![10, 20, 30];
    let mut seen = [false; 3];
    for _ in 0..200 {
        let c = random.choice(&items);
        seen[items.iter().position(|x| *x == c).unwrap()] = true;
    }
    assert!(seen.iter().all(|s| *s));
}

#[test]
fn shuffle_keeps_the_items() {
    let mut random = SimpleRandom::new();
    let mut items: Vec<u32> = (0..50).collect();
    random.shuffle(&mut items);
    let mut sorted = items.clone();
    sorted.sort();
    assert_eq!(sorted, (0..50).collect::<Vec<u32>>());
    assert_ne!(items, sorted);
}
