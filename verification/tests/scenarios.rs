use flarelang::error::FlareLangErr;
use flarelang::expr::{Builtin, FlareLangExp};
use flarelang::interpreter::{default_env, eval, RispEnv};
use flarelang::lexer::tokenize;
use flarelang::number::Arith;
use flarelang::parser::parse;
use flarelang::session::parse_eval;

fn arith(op: Arith, a: u64, b: u64) -> u64 {
    let x = f64::from_bits(a);
    let y = f64::from_bits(b);
    let z = match op {
        Arith::Add => x + y,
        Arith::Sub => x - y,
        Arith::Mul => x * y,
        Arith::Div => x / y,
    };
    z.to_bits()
}

fn read(token: &str) -> Option<u64> {
    token.parse::<f64>().ok().map(f64::to_bits)
}

fn num(x: f64) -> FlareLangExp {
    FlareLangExp::Number(x.to_bits())
}

fn sym(name: &str) -> FlareLangExp {
    FlareLangExp::Symbol(name.to_string())
}

fn number_in(r: Result<FlareLangExp, FlareLangErr>) -> f64 {
    match r {
        Ok(FlareLangExp::Number(bits)) => f64::from_bits(bits),
        other => panic!("expected a number, got {:?}", other),
    }
}

fn line(text: &str, env: &mut RispEnv) -> Result<FlareLangExp, FlareLangErr> {
    let mut out = Vec::new();
    parse_eval(text.to_string(), env, &read, &arith, &mut out)
}

fn call(env: &mut RispEnv, items: Vec<FlareLangExp>) -> Result<FlareLangExp, FlareLangErr> {
    let mut out = Vec::new();
    eval(&FlareLangExp::List(items), env, &arith, &mut out)
}

#[test]
fn tokenize_let_statement() {
    assert_eq!(tokenize("let x = 5".to_string()), vec!["let", "x", "=", "5"]);
}

#[test]
fn tokenize_keeps_space_inside_quotes() {
    assert_eq!(tokenize("display \"a b\"".to_string()), vec!["display", "a b"]);
}

#[test]
fn prefix_plus_adds() {
    let mut env = default_env();
    assert_eq!(number_in(line("+ 1 2", &mut env)), 3.0);
}

#[test]
fn prefix_minus_takes_two_operands_and_leaves_the_rest() {
    let tokens = tokenize("- 10 3 2".to_string());
    let (exp, rest) = parse(&tokens, &read).unwrap();
    assert_eq!(rest.to_vec(), vec!["2"]);
    let mut env = default_env();
    let mut out = Vec::new();
    assert_eq!(number_in(eval(&exp, &mut env, &arith, &mut out)), 7.0);
}

#[test]
fn difference_is_first_minus_sum_of_rest() {
    let mut env = default_env();
    let r = call(&mut env, vec![sym("-"), num(10.0), num(3.0), num(2.0)]);
    assert_eq!(number_in(r), 5.0);
}

#[test]
fn difference_of_one_argument_is_the_argument() {
    let mut env = default_env();
    let r = call(&mut env, vec![sym("-"), num(7.0)]);
    assert_eq!(number_in(r), 7.0);
}

#[test]
fn sum_adds_all_arguments() {
    let mut env = default_env();
    let r = call(&mut env, vec![sym("+"), num(1.0), num(2.0)]);
    assert_eq!(number_in(r), 3.0);
    let r = call(&mut env, vec![sym("+"), num(1.5), num(2.25), num(4.0)]);
    assert_eq!(number_in(r), 7.75);
}

#[test]
fn sum_of_nothing_is_zero() {
    let mut env = default_env();
    let r = call(&mut env, vec![sym("+")]);
    assert_eq!(number_in(r), 0.0);
}

#[test]
fn difference_of_nothing_is_an_error() {
    let mut env = default_env();
    let r = call(&mut env, vec![sym("-")]);
    match r {
        Err(FlareLangErr::TypeMismatch(reason)) => assert_eq!(reason, "expected at least one number"),
        other => panic!("{:?}", other),
    }
}

#[test]
fn let_then_lookup() {
    let mut env = default_env();
    assert_eq!(number_in(line("let x = 5", &mut env)), 0.0);
    assert_eq!(number_in(line("x", &mut env)), 5.0);
}

#[test]
fn unbound_symbol_fails() {
    let mut env = default_env();
    match line("y", &mut env) {
        Err(FlareLangErr::UnboundSymbol(reason)) => assert_eq!(reason, "unexpected symbol k='y'"),
        other => panic!("{:?}", other),
    }
}

#[test]
fn assignment_needs_a_declaration() {
    let mut env = default_env();
    match line("= z 1", &mut env) {
        Err(FlareLangErr::UndefinedVariable(reason)) => {
            assert_eq!(reason, "undefined variable for assignment: z")
        },
        other => panic!("{:?}", other),
    }
    assert!(!env.contains("z"));
    assert_eq!(number_in(line("let z = 0", &mut env)), 0.0);
    assert_eq!(number_in(line("= z 9", &mut env)), 9.0);
    assert_eq!(number_in(line("z", &mut env)), 9.0);
}

#[test]
fn division_by_zero_fails() {
    let mut env = default_env();
    match line("/ 4 0", &mut env) {
        Err(FlareLangErr::DivisionByZero(reason)) => assert_eq!(reason, "division by zero"),
        other => panic!("{:?}", other),
    }
    assert_eq!(number_in(line("/ 4 2", &mut env)), 2.0);
}

#[test]
fn division_by_negative_zero_fails() {
    let mut env = default_env();
    assert!(matches!(line("/ 4 -0", &mut env), Err(FlareLangErr::DivisionByZero(_))));
    assert!(matches!(line("/ 4 -0.0", &mut env), Err(FlareLangErr::DivisionByZero(_))));
}

#[test]
fn if_takes_the_branch_of_the_condition() {
    let mut env = default_env();
    assert_eq!(number_in(line("if 0 1 2", &mut env)), 2.0);
    assert_eq!(number_in(line("if 1 1 2", &mut env)), 1.0);
    assert_eq!(number_in(line("if -0 1 2", &mut env)), 2.0);
    assert_eq!(number_in(line("if NaN 1 2", &mut env)), 1.0);
    assert_eq!(number_in(line("if 0.5 1 2", &mut env)), 1.0);
}

#[test]
fn if_with_a_text_condition_takes_the_else_branch() {
    let mut env = default_env();
    let mut out = Vec::new();
    let form = FlareLangExp::If(
        Box::new(FlareLangExp::String("yes".to_string())),
        Box::new(num(1.0)),
        Box::new(num(2.0)),
    );
    assert_eq!(number_in(eval(&form, &mut env, &arith, &mut out)), 2.0);
}

#[test]
fn if_evaluates_only_the_taken_branch() {
    let mut env = default_env();
    assert_eq!(number_in(line("if 1 let a = 1 let b = 2", &mut env)), 0.0);
    assert!(env.contains("a"));
    assert!(!env.contains("b"));
}

#[test]
fn same_line_same_result() {
    let mut first = default_env();
    let mut second = default_env();
    for text in ["let x = 5", "+ x 2", "= x * x x", "x", "y", "/ x 0", "if x x 0"] {
        let a = line(text, &mut first);
        let b = line(text, &mut second);
        assert_eq!(format!("{:?}", a), format!("{:?}", b));
        assert_eq!(first.len(), second.len());
        assert_eq!(format!("{:?}", first.get("x")), format!("{:?}", second.get("x")));
    }
}

#[test]
fn let_twice_leaves_one_binding() {
    let mut env = default_env();
    assert_eq!(env.len(), 2);
    assert_eq!(number_in(line("let x = 5", &mut env)), 0.0);
    assert_eq!(env.len(), 3);
    assert_eq!(number_in(line("let x = 5", &mut env)), 0.0);
    assert_eq!(env.len(), 3);
    assert_eq!(number_in(Ok(env.get("x").unwrap())), 5.0);
}

#[test]
fn default_env_holds_the_two_procedures() {
    let env = default_env();
    assert_eq!(env.len(), 2);
    assert!(matches!(env.get("+"), Some(FlareLangExp::Func(Builtin::Sum))));
    assert!(matches!(env.get("-"), Some(FlareLangExp::Func(Builtin::Difference))));
    assert!(env.get("*").is_none());
}
