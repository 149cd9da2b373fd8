use flarelang::expr::{Builtin, FlareLangExp};
use flarelang::lexer::tokenize;
use flarelang::parser::parse;

fn digits(bits: u64) -> String {
    f64::from_bits(bits).to_string()
}

fn literal(token: &str) -> Option<u64> {
    token.parse::<f64>().ok().map(f64::to_bits)
}

fn nr(x: f64) -> FlareLangExp {
    FlareLangExp::Number(x.to_bits())
}

fn name(s: &str) -> FlareLangExp {
    FlareLangExp::Symbol(s.to_string())
}

fn show(e: &FlareLangExp) -> String {
    e.render(&digits)
}

#[test]
fn render_atoms() {
    assert_eq!(show(&name("x")), "x");
    assert_eq!(show(&nr(5.0)), "5");
    assert_eq!(show(&nr(2.5)), "2.5");
    assert_eq!(show(&nr(-0.0)), "-0");
    assert_eq!(show(&FlareLangExp::String("a b".to_string())), "a b");
    assert_eq!(show(&FlareLangExp::String(String::new())), "");
}

#[test]
fn render_numbers_as_the_writer_writes_them() {
    let stars = |_bits: u64| "*".to_string();
    let form = FlareLangExp::List(vec![nr(1.0), name("n"), nr(2.0)]);
    assert_eq!(form.render(&stars), "(*,n,*)");
}

#[test]
fn render_procedure_as_a_placeholder() {
    assert_eq!(show(&FlareLangExp::Func(Builtin::Sum)), "Function {}");
    assert_eq!(show(&FlareLangExp::Func(Builtin::Difference)), "Function {}");
}

#[test]
fn render_call_form() {
    assert_eq!(show(&FlareLangExp::List(vec![])), "()");
    assert_eq!(show(&FlareLangExp::List(vec![name("f")])), "(f)");
    assert_eq!(show(&FlareLangExp::List(vec![name("+"), nr(1.0), nr(2.0)])), "(+,1,2)");
    let nested = FlareLangExp::List(vec![
        name("f"),
        FlareLangExp::List(vec![name("g"), nr(1.0)]),
        FlareLangExp::List(vec![]),
    ]);
    assert_eq!(show(&nested), "(f,(g,1),())");
}

#[test]
fn render_let_and_assign() {
    let l = FlareLangExp::Let("x".to_string(), Box::new(nr(5.0)));
    assert_eq!(show(&l), "let x = 5");
    let a = FlareLangExp::Assign("x".to_string(), Box::new(name("y")));
    assert_eq!(show(&a), "x = y");
}

#[test]
fn render_op_if_and_display() {
    let sum = FlareLangExp::Op("+".to_string(), Box::new(nr(1.0)), Box::new(name("x")));
    assert_eq!(show(&sum), "1 + x");
    let cond = FlareLangExp::If(
        Box::new(name("c")),
        Box::new(sum),
        Box::new(FlareLangExp::Print(Box::new(nr(0.0)))),
    );
    assert_eq!(show(&cond), "if c { 1 + x } else { display 0 }");
}

#[test]
fn rendering_then_parsing_need_not_give_the_expression_back() {
    let sum = FlareLangExp::Op("+".to_string(), Box::new(nr(1.0)), Box::new(nr(2.0)));
    let tokens = tokenize(show(&sum));
    assert_eq!(tokens, vec!["1", "+", "2"]);
    let (again, rest) = parse(&tokens, &literal).unwrap();
    assert!(matches!(again, FlareLangExp::Number(b) if f64::from_bits(b) == 1.0));
    assert_eq!(rest.len(), 2);
    let tokens = tokenize(show(&FlareLangExp::Func(Builtin::Sum)));
    let (again, _) = parse(&tokens, &literal).unwrap();
    assert!(matches!(again, FlareLangExp::Symbol(s) if s == "Function"));
}

#[test]
fn rendering_then_parsing_gives_prefix_forms_of_let_back() {
    let l = FlareLangExp::Let("x".to_string(), Box::new(nr(5.0)));
    let tokens = tokenize(show(&l));
    let (again, rest) = parse(&tokens, &literal).unwrap();
    assert!(rest.is_empty());
    assert_eq!(show(&again), "let x = 5");
}
