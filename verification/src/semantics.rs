//! What evaluation means: a function from a term, an environment and the
//! output so far to a result, the environment after, and the output after.

use vstd::prelude::*;
use crate::error::Fault;
use crate::expr::{Builtin, Term};
use crate::number::{is_zero, Arith, Numeric, ZERO};

verus! {

/// The bindings of an environment.
pub type Bindings = Map<Seq<char>, Term>;

/// How an evaluation ended.
pub struct Outcome {
    /// The value, or the first fault.
    pub result: Result<Term, Fault>,
    /// The bindings when it ended.
    pub env: Bindings,
    /// Every value emitted by `display` up to then, oldest first.
    pub out: Seq<Term>,
}

/// How the evaluation of a run of arguments ended.
pub struct ArgsOutcome {
    /// The values of the arguments in order, or the first fault.
    pub values: Result<Seq<Term>, Fault>,
    /// The bindings when it ended.
    pub env: Bindings,
    /// Every value emitted up to then.
    pub out: Seq<Term>,
}

/// The value that `let` and `display` return.
pub open spec fn placeholder() -> Term {
    Term::Number(ZERO)
}

/// The arithmetic operation that an operator's text names.
pub open spec fn operation(op: Seq<char>) -> Option<Arith> {
    if op == "+"@ {
        Some(Arith::Add)
    } else if op == "-"@ {
        Some(Arith::Sub)
    } else if op == "*"@ {
        Some(Arith::Mul)
    } else if op == "/"@ {
        Some(Arith::Div)
    } else {
        None
    }
}

/// The result of the binary form `op` on two evaluated operands.
pub open spec fn binary(
    num: Numeric,
    op: Seq<char>,
    left: Term,
    right: Term,
) -> Result<Term, Fault> {
    match (left, right) {
        (Term::Number(l), Term::Number(r)) => match operation(op) {
            None => Err(Fault::UnknownOperator("unknown operator"@)),
            Some(Arith::Div) => if is_zero(r) {
                Err(Fault::DivisionByZero("division by zero"@))
            } else {
                Ok(Term::Number(num(Arith::Div, l, r)))
            },
            Some(a) => Ok(Term::Number(num(a, l, r))),
        },
        _ => Err(Fault::TypeMismatch("operands must be numbers"@)),
    }
}

/// The number that a value holds; a fault where it is no number.
pub open spec fn number_of(value: Term) -> Result<u64, Fault> {
    match value {
        Term::Number(n) => Ok(n),
        _ => Err(Fault::TypeMismatch("expected a number"@)),
    }
}

/// The numbers that the values hold, in order; a fault where one is no number.
pub open spec fn numbers_of(values: Seq<Term>) -> Result<Seq<u64>, Fault> {
    if forall|i: int| 0 <= i < values.len() ==> values[i] is Number {
        Ok(Seq::new(values.len(), |i: int| values[i]->Number_0))
    } else {
        Err(Fault::TypeMismatch("expected a number"@))
    }
}

/// The first `n` of `numbers` added up from the left, starting at zero.
pub open spec fn total(num: Numeric, numbers: Seq<u64>, n: nat) -> u64
    decreases n,
{
    if n == 0 {
        ZERO
    } else {
        num(Arith::Add, total(num, numbers, (n - 1) as nat), numbers[n - 1])
    }
}

/// The result of the procedure `b` on evaluated arguments.
pub open spec fn apply(num: Numeric, b: Builtin, args: Seq<Term>) -> Result<
    Term,
    Fault,
> {
    match numbers_of(args) {
        Err(e) => Err(e),
        Ok(numbers) => match b {
            Builtin::Sum => Ok(Term::Number(total(num, numbers, numbers.len()))),
            Builtin::Difference => if numbers.len() == 0 {
                Err(Fault::TypeMismatch("expected at least one number"@))
            } else {
                let rest = numbers.skip(1);
                Ok(Term::Number(num(Arith::Sub, numbers[0], total(num, rest, rest.len()))))
            },
        },
    }
}

/// Whether a condition's value selects the then-branch: a number other than zero.
pub open spec fn truthy(value: Term) -> bool {
    value matches Term::Number(n) && !is_zero(n)
}

/// The output after `display` has seen `value`: numbers and texts are emitted,
/// anything else is passed over.
pub open spec fn emitted(out: Seq<Term>, value: Term) -> Seq<Term> {
    if value is Number || value is Text {
        out.push(value)
    } else {
        out
    }
}

/// The evaluation of `t`, with the arithmetic `num`, from the bindings `env`
/// and the output `out`.
pub open spec fn run(num: Numeric, t: Term, env: Bindings, out: Seq<Term>) -> Outcome
    decreases t, 0nat,
{
    match t {
        Term::Symbol(k) => Outcome {
            result: if env.contains_key(k) {
                Ok(env[k])
            } else {
                Err(Fault::unbound(k))
            },
            env,
            out,
        },
        Term::Number(_) => Outcome { result: Ok(t), env, out },
        Term::Text(_) => Outcome { result: Ok(t), env, out },
        Term::Func(_) => Outcome {
            result: Err(Fault::UnexpectedCallable("unexpected form"@)),
            env,
            out,
        },
        Term::Print(inner) => {
            let o = run(num, *inner, env, out);
            match o.result {
                Err(_) => o,
                Ok(v) => Outcome { result: Ok(placeholder()), env: o.env, out: emitted(o.out, v) },
            }
        },
        Term::List(items) => if items.len() == 0 {
            Outcome { result: Err(Fault::EmptyForm("expected a non-empty list"@)), env, out }
        } else {
            let head = run(num, items[0], env, out);
            match head.result {
                Err(_) => head,
                Ok(Term::Func(b)) => {
                    let a = run_args(num, items, items.len(), head.env, head.out);
                    match a.values {
                        Err(e) => Outcome { result: Err(e), env: a.env, out: a.out },
                        Ok(args) => Outcome { result: apply(num, b, args), env: a.env, out: a.out },
                    }
                },
                Ok(_) => Outcome {
                    result: Err(Fault::NotCallable("first form must be a function"@)),
                    env: head.env,
                    out: head.out,
                },
            }
        },
        Term::Let(name, inner) => {
            let o = run(num, *inner, env, out);
            match o.result {
                Err(_) => o,
                Ok(v) => Outcome { result: Ok(placeholder()), env: o.env.insert(name, v), out: o.out },
            }
        },
        Term::Assign(name, inner) => {
            let o = run(num, *inner, env, out);
            match o.result {
                Err(_) => o,
                Ok(v) => if o.env.contains_key(name) {
                    Outcome { result: Ok(v), env: o.env.insert(name, v), out: o.out }
                } else {
                    Outcome { result: Err(Fault::undefined(name)), env: o.env, out: o.out }
                },
            }
        },
        Term::Op(op, left, right) => {
            let l = run(num, *left, env, out);
            match l.result {
                Err(_) => l,
                Ok(lv) => {
                    let r = run(num, *right, l.env, l.out);
                    match r.result {
                        Err(_) => r,
                        Ok(rv) => Outcome { result: binary(num, op, lv, rv), env: r.env, out: r.out },
                    }
                },
            }
        },
        Term::If(cond, then_branch, else_branch) => {
            let c = run(num, *cond, env, out);
            match c.result {
                Err(_) => c,
                Ok(v) => if truthy(v) {
                    run(num, *then_branch, c.env, c.out)
                } else {
                    run(num, *else_branch, c.env, c.out)
                },
            }
        },
    }
}

/// The evaluation of the arguments `items[1]` up to `items[n - 1]`, left to
/// right, stopping at the first fault.
pub open spec fn run_args(
    num: Numeric,
    items: Seq<Term>,
    n: nat,
    env: Bindings,
    out: Seq<Term>,
) -> ArgsOutcome
    decreases items, n,
{
    if n <= 1 || n > items.len() {
        ArgsOutcome { values: Ok(Seq::empty()), env, out }
    } else {
        let before = run_args(num, items, (n - 1) as nat, env, out);
        match before.values {
            Err(_) => before,
            Ok(values) => {
                let o = run(num, items[n - 1], before.env, before.out);
                match o.result {
                    Err(e) => ArgsOutcome { values: Err(e), env: o.env, out: o.out },
                    Ok(v) => ArgsOutcome { values: Ok(values.push(v)), env: o.env, out: o.out },
                }
            },
        }
    }
}

} // verus!
