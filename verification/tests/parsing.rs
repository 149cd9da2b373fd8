use flarelang::error::FlareLangErr;
use flarelang::expr::FlareLangExp;
use flarelang::lexer::tokenize;
use flarelang::parser::{
    is_operator, is_quoted_token, parse, parse_assign, parse_atom, parse_if, parse_let,
    parse_list_of_floats, parse_op, parse_print, parse_single_float, read_seq,
};

fn reader(token: &str) -> Option<u64> {
    token.parse::<f64>().ok().map(f64::to_bits)
}

fn owned(tokens: &[&str]) -> Vec<String> {
    tokens.iter().map(|t| t.to_string()).collect()
}

fn number(x: f64) -> FlareLangExp {
    FlareLangExp::Number(x.to_bits())
}

fn shape(e: &FlareLangExp) -> String {
    match e {
        FlareLangExp::Symbol(s) => format!("sym:{}", s),
        FlareLangExp::Number(n) => format!("num:{}", f64::from_bits(*n)),
        FlareLangExp::String(s) => format!("text:{}", s),
        FlareLangExp::List(items) => {
            let inner: Vec<String> = items.iter().map(shape).collect();
            format!("[{}]", inner.join(" "))
        },
        FlareLangExp::Print(e) => format!("print({})", shape(e)),
        FlareLangExp::Func(b) => format!("func:{:?}", b),
        FlareLangExp::Let(n, e) => format!("let({},{})", n, shape(e)),
        FlareLangExp::Assign(n, e) => format!("assign({},{})", n, shape(e)),
        FlareLangExp::If(c, t, e) => format!("if({},{},{})", shape(c), shape(t), shape(e)),
        FlareLangExp::Op(o, l, r) => format!("op({},{},{})", o, shape(l), shape(r)),
    }
}

fn parsed_shape(tokens: &[&str]) -> (String, Vec<String>) {
    let tokens = owned(tokens);
    let (e, rest) = parse(&tokens, &reader).unwrap();
    (shape(&e), rest.to_vec())
}

fn syntax_reason(r: Result<(FlareLangExp, &[String]), FlareLangErr>) -> String {
    match r {
        Err(FlareLangErr::SyntaxError(reason)) => reason,
        other => panic!("expected a syntax error, got {:?}", other),
    }
}

#[test]
fn parse_of_nothing_fails() {
    let tokens: Vec<String> = Vec::new();
    assert_eq!(syntax_reason(parse(&tokens, &reader)), "could not get token");
}

#[test]
fn parse_number_atom() {
    assert_eq!(parsed_shape(&["5"]), ("num:5".to_string(), owned(&[])));
    assert_eq!(parsed_shape(&["-2.5", "x"]), ("num:-2.5".to_string(), owned(&["x"])));
    assert_eq!(parsed_shape(&["1e3"]), ("num:1000".to_string(), owned(&[])));
}

#[test]
fn parse_symbol_atom() {
    assert_eq!(parsed_shape(&["x"]), ("sym:x".to_string(), owned(&[])));
    assert_eq!(parsed_shape(&["a b", "c"]), ("sym:a b".to_string(), owned(&["c"])));
    assert_eq!(parsed_shape(&[")"]), ("sym:)".to_string(), owned(&[])));
}

#[test]
fn parse_atom_reads_numbers_before_symbols() {
    assert_eq!(shape(&parse_atom("12", &reader)), "num:12");
    assert_eq!(shape(&parse_atom("twelve", &reader)), "sym:twelve");
    assert_eq!(shape(&parse_atom("inf", &reader)), "num:inf");
    assert_eq!(shape(&parse_atom("", &reader)), "sym:");
}

#[test]
fn parse_quoted_token_is_a_text() {
    assert_eq!(parsed_shape(&["\"a b\"", "c"]), ("text:a b".to_string(), owned(&["c"])));
    assert_eq!(parsed_shape(&["\"\""]), ("text:".to_string(), owned(&[])));
    assert_eq!(parsed_shape(&["\"é\""]), ("text:é".to_string(), owned(&[])));
}

#[test]
fn a_lone_quote_is_an_atom() {
    assert_eq!(parsed_shape(&["\""]), ("sym:\"".to_string(), owned(&[])));
    assert!(!is_quoted_token("\""));
    assert!(is_quoted_token("\"\""));
    assert!(!is_quoted_token("\"a"));
    assert!(!is_quoted_token("a\""));
    assert!(!is_quoted_token(""));
}

#[test]
fn parse_let_form() {
    assert_eq!(
        parsed_shape(&["let", "x", "=", "5", "y"]),
        ("let(x,num:5)".to_string(), owned(&["y"]))
    );
    assert_eq!(
        parsed_shape(&["let", "x", "=", "+", "1", "2"]),
        ("let(x,op(+,num:1,num:2))".to_string(), owned(&[]))
    );
}

#[test]
fn parse_let_errors() {
    assert_eq!(syntax_reason(parse_let(&owned(&[]), &reader)), "expected variable name after let");
    assert_eq!(
        syntax_reason(parse_let(&owned(&["x"]), &reader)),
        "expected '=' after variable name"
    );
    assert_eq!(syntax_reason(parse_let(&owned(&["x", "5"]), &reader)), "expected '='");
    assert_eq!(syntax_reason(parse_let(&owned(&["x", "="]), &reader)), "could not get token");
    assert_eq!(syntax_reason(parse(&owned(&["let"]), &reader)), "expected variable name after let");
}

#[test]
fn parse_assign_form() {
    assert_eq!(
        parsed_shape(&["=", "z", "9", "rest"]),
        ("assign(z,num:9)".to_string(), owned(&["rest"]))
    );
    assert_eq!(
        syntax_reason(parse_assign(&owned(&[]), &reader)),
        "expected variable name for assignment"
    );
    assert_eq!(syntax_reason(parse_assign(&owned(&["z"]), &reader)), "could not get token");
}

#[test]
fn parse_if_form() {
    assert_eq!(
        parsed_shape(&["if", "x", "1", "2", "3"]),
        ("if(sym:x,num:1,num:2)".to_string(), owned(&["3"]))
    );
    assert_eq!(
        parsed_shape(&["if", "if", "a", "b", "c", "+", "1", "2", "display", "d"]),
        ("if(if(sym:a,sym:b,sym:c),op(+,num:1,num:2),print(sym:d))".to_string(), owned(&[]))
    );
    assert_eq!(syntax_reason(parse_if(&owned(&["x", "1"]), &reader)), "could not get token");
    assert_eq!(syntax_reason(parse_if(&owned(&[]), &reader)), "could not get token");
}

#[test]
fn parse_op_form() {
    for op in ["+", "-", "*", "/"] {
        assert_eq!(
            parsed_shape(&[op, "1", "2", "3"]),
            (format!("op({},num:1,num:2)", op), owned(&["3"]))
        );
        assert!(is_operator(op));
    }
    assert!(!is_operator("%"));
    assert!(!is_operator("++"));
    assert!(!is_operator(""));
    assert_eq!(syntax_reason(parse(&owned(&["-", "7"]), &reader)), "could not get token");
    let tokens = owned(&["a", "b"]);
    let (e, rest) = parse_op("%", &tokens, &reader).unwrap();
    assert_eq!(shape(&e), "op(%,sym:a,sym:b)");
    assert!(rest.is_empty());
}

#[test]
fn parse_print_form() {
    assert_eq!(
        parsed_shape(&["display", "x", "y"]),
        ("print(sym:x)".to_string(), owned(&["y"]))
    );
    assert_eq!(syntax_reason(parse_print(&owned(&[]), &reader)), "could not get token");
}

#[test]
fn keywords_are_never_symbols() {
    assert_eq!(syntax_reason(parse(&owned(&["if"]), &reader)), "could not get token");
    assert_eq!(syntax_reason(parse(&owned(&["display"]), &reader)), "could not get token");
    assert_eq!(
        syntax_reason(parse(&owned(&["="]), &reader)),
        "expected variable name for assignment"
    );
    assert_eq!(
        parsed_shape(&["let", "let", "=", "1"]),
        ("let(let,num:1)".to_string(), owned(&[]))
    );
}

#[test]
fn read_seq_collects_until_the_closing_parenthesis() {
    let tokens = owned(&["f", "1", "+", "2", "3", ")", "after"]);
    let (e, rest) = read_seq(&tokens, &reader).unwrap();
    assert_eq!(shape(&e), "[sym:f num:1 op(+,num:2,num:3)]");
    assert_eq!(rest.to_vec(), owned(&["after"]));
}

#[test]
fn read_seq_of_an_empty_form() {
    let tokens = owned(&[")"]);
    let (e, rest) = read_seq(&tokens, &reader).unwrap();
    assert_eq!(shape(&e), "[]");
    assert!(rest.is_empty());
}

#[test]
fn read_seq_without_closing_parenthesis_fails() {
    assert_eq!(syntax_reason(read_seq(&owned(&[]), &reader)), "could not find closing `)`");
    assert_eq!(
        syntax_reason(read_seq(&owned(&["f", "1"]), &reader)),
        "could not find closing `)`"
    );
    assert_eq!(syntax_reason(read_seq(&owned(&["f", "+", "1"]), &reader)), "could not get token");
}

#[test]
fn parse_leaves_the_last_tokens_of_its_input() {
    let tokens = tokenize("if x + 1 2 let y = 3 tail \"more tail\"".to_string());
    let (_, rest) = parse(&tokens, &reader).unwrap();
    assert_eq!(rest.len(), 2);
    assert_eq!(rest, &tokens[tokens.len() - 2..]);
    assert!(std::ptr::eq(rest.as_ptr(), tokens[tokens.len() - 2..].as_ptr()));
}

#[test]
fn single_float_of_a_number() {
    assert_eq!(parse_single_float(&number(2.5)).unwrap(), 2.5f64.to_bits());
    match parse_single_float(&FlareLangExp::String("2.5".to_string())) {
        Err(FlareLangErr::TypeMismatch(reason)) => assert_eq!(reason, "expected a number"),
        other => panic!("{:?}", other),
    }
}

#[test]
fn list_of_floats_keeps_order() {
    let values = vec![number(1.0), number(-2.0), number(0.5)];
    let bits = parse_list_of_floats(&values).unwrap();
    let floats: Vec<f64> = bits.iter().map(|b| f64::from_bits(*b)).collect();
    assert_eq!(floats, vec![1.0, -2.0, 0.5]);
    assert!(parse_list_of_floats(&[]).unwrap().is_empty());
}

#[test]
fn list_of_floats_fails_on_anything_else() {
    let values = vec![number(1.0), FlareLangExp::Symbol("x".to_string()), number(0.5)];
    match parse_list_of_floats(&values) {
        Err(FlareLangErr::TypeMismatch(reason)) => assert_eq!(reason, "expected a number"),
        other => panic!("{:?}", other),
    }
}
