//! The evaluator: reduces an expression to a value against an environment.

use vstd::prelude::*;
use vstd::hash_map::StringHashMap;
use vstd::string::StringExecFns;
use crate::error::{Fault, FlareLangErr};
use crate::expr::{terms, Builtin, FlareLangExp, Term};
use crate::number::{computes_all, follows, zero_valued, Arith, Numeric, ZERO};
use crate::parser::parse_list_of_floats;
use crate::semantics::{
    apply, binary, emitted, operation, run, run_args, total, truthy, Bindings, Outcome,
};
use crate::text::same_text;

verus! {

/// The table of variables: one value for each name that is bound.
pub struct RispEnv {
    data: StringHashMap<FlareLangExp>,
}

impl View for RispEnv {
    type V = Bindings;

    closed spec fn view(&self) -> Bindings {
        Map::new(|k: Seq<char>| self.data@.contains_key(k), |k: Seq<char>| self.data@[k]@)
    }
}

/// The bindings that every session starts with: the two procedures.
pub open spec fn initial_bindings() -> Bindings {
    Map::<Seq<char>, Term>::empty().insert("+"@, Term::Func(Builtin::Sum)).insert(
        "-"@,
        Term::Func(Builtin::Difference),
    )
}

/// What a result stands for: the term of the value, or the fault of the error.
pub open spec fn shown(r: Result<FlareLangExp, FlareLangErr>) -> Result<Term, Fault> {
    match r {
        Ok(v) => Ok(v@),
        Err(e) => Err(e@),
    }
}

/// Whether an evaluation that returned `r` and left the bindings `env` and
/// the output `out` ended as `o` says.
pub open spec fn ends_as(
    r: Result<FlareLangExp, FlareLangErr>,
    env: Bindings,
    out: Seq<Term>,
    o: Outcome,
) -> bool {
    shown(r) == o.result && env == o.env && out == o.out
}

impl RispEnv {
    /// An environment without any binding.
    pub fn new() -> (env: RispEnv)
        ensures
            env@ == Map::<Seq<char>, Term>::empty(),
    {
        let env = RispEnv { data: StringHashMap::new() };
        assert(env@ =~= Map::<Seq<char>, Term>::empty());
        env
    }

    /// Whether `name` is bound.
    pub fn contains(&self, name: &str) -> (r: bool)
        ensures
            r == self@.contains_key(name@),
    {
        self.data.contains_key(name)
    }

    /// A copy of the value that `name` is bound to.
    pub fn get(&self, name: &str) -> (r: Option<FlareLangExp>)
        ensures
            match r {
                Some(v) => self@.contains_key(name@) && v@ == self@[name@],
                None => !self@.contains_key(name@),
            },
    {
        match self.data.get(name) {
            Some(v) => Some(v.duplicate()),
            None => None,
        }
    }

    /// Binds `name` to `value`, in place of what it was bound to, if anything.
    pub fn set(&mut self, name: String, value: FlareLangExp)
        ensures
            final(self)@ == old(self)@.insert(name@, value@),
    {
        self.data.insert(name, value);
        assert(self@ =~= old(self)@.insert(name@, value@));
    }

    /// The number of names that are bound.
    pub fn len(&self) -> (r: usize)
        ensures
            r == self@.dom().len(),
    {
        broadcast use vstd::hash_map::group_hash_map_axioms;

        assert(self@.dom() =~= self.data@.dom());
        self.data.len()
    }
}

/// A fresh environment, holding the procedures `+` and `-`.
pub fn default_env() -> (env: RispEnv)
    ensures
        env@ == initial_bindings(),
{
    let mut env = RispEnv::new();
    env.set(String::from_str("+"), FlareLangExp::Func(Builtin::Sum));
    env.set(String::from_str("-"), FlareLangExp::Func(Builtin::Difference));
    env
}

/// The arithmetic operation that an operator's text names, if any.
pub fn operation_of(op: &str) -> (r: Option<Arith>)
    ensures
        r == operation(op@),
{
    if same_text(op, "+") {
        Some(Arith::Add)
    } else if same_text(op, "-") {
        Some(Arith::Sub)
    } else if same_text(op, "*") {
        Some(Arith::Mul)
    } else if same_text(op, "/") {
        Some(Arith::Div)
    } else {
        None
    }
}

/// Applies the binary form `op` to two evaluated operands.
pub fn apply_op<F: Fn(Arith, u64, u64) -> u64>(
    op: &str,
    left: &FlareLangExp,
    right: &FlareLangExp,
    arith: &F,
) -> (r: Result<FlareLangExp, FlareLangErr>)
    requires
        computes_all(arith),
    ensures
        forall|num: Numeric| #[trigger]
            follows(arith, num) ==> shown(r) == binary(num, op@, left@, right@),
{
    match (left, right) {
        (FlareLangExp::Number(l), FlareLangExp::Number(r)) => match operation_of(op) {
            None => Err(FlareLangErr::UnknownOperator(String::from_str("unknown operator"))),
            Some(Arith::Div) => if zero_valued(*r) {
                Err(FlareLangErr::DivisionByZero(String::from_str("division by zero")))
            } else {
                Ok(FlareLangExp::Number(arith(Arith::Div, *l, *r)))
            },
            Some(a) => Ok(FlareLangExp::Number(arith(a, *l, *r))),
        },
        _ => Err(FlareLangErr::TypeMismatch(String::from_str("operands must be numbers"))),
    }
}

/// Adds up `numbers` from the left, starting at zero.
pub fn sum_of<F: Fn(Arith, u64, u64) -> u64>(numbers: &[u64], arith: &F) -> (r: u64)
    requires
        computes_all(arith),
    ensures
        forall|num: Numeric| #[trigger]
            follows(arith, num) ==> r == total(num, numbers@, numbers@.len()),
{
    let mut sum: u64 = ZERO;
    let mut i: usize = 0;
    while i < numbers.len()
        invariant
            computes_all(arith),
            i <= numbers@.len(),
            forall|num: Numeric| #[trigger]
                follows(arith, num) ==> sum == total(num, numbers@, i as nat),
        decreases numbers@.len() - i,
    {
        sum = arith(Arith::Add, sum, numbers[i]);
        i += 1;
    }
    sum
}

/// Applies the procedure `b` to evaluated arguments.
pub fn apply_builtin<F: Fn(Arith, u64, u64) -> u64>(
    b: Builtin,
    args: &[FlareLangExp],
    arith: &F,
) -> (r: Result<FlareLangExp, FlareLangErr>)
    requires
        computes_all(arith),
    ensures
        forall|num: Numeric| #[trigger]
            follows(arith, num) ==> shown(r) == apply(num, b, terms(args@)),
{
    let numbers = match parse_list_of_floats(args) {
        Err(e) => {
            return Err(e);
        },
        Ok(numbers) => numbers,
    };
    match b {
        Builtin::Sum => Ok(FlareLangExp::Number(sum_of(numbers.as_slice(), arith))),
        Builtin::Difference => {
            if numbers.len() == 0 {
                return Err(
                    FlareLangErr::TypeMismatch(String::from_str("expected at least one number")),
                );
            }
            let rest = vstd::slice::slice_subrange(numbers.as_slice(), 1, numbers.len());
            assert(rest@ =~= numbers@.skip(1));
            let sum = sum_of(rest, arith);
            Ok(FlareLangExp::Number(arith(Arith::Sub, numbers[0], sum)))
        },
    }
}

/// Once an argument has failed, the arguments after it are not evaluated.
pub proof fn run_args_stops_at_fault(
    num: Numeric,
    items: Seq<Term>,
    m: nat,
    n: nat,
    env: Bindings,
    out: Seq<Term>,
)
    requires
        1 <= m <= n <= items.len(),
        run_args(num, items, m, env, out).values is Err,
    ensures
        run_args(num, items, n, env, out) == run_args(num, items, m, env, out),
    decreases n,
{
    if m < n {
        run_args_stops_at_fault(num, items, m, (n - 1) as nat, env, out);
    }
}

/// Evaluates `exp` against `env`, with the arithmetic of `arith`. Each value
/// that a `display` emits is appended to `out`.
///
/// The result, the bindings afterwards and the output afterwards are those
/// that [`run`] gives; after an error, `env` and `out` hold what had been
/// done when it occurred.
pub fn eval<F: Fn(Arith, u64, u64) -> u64>(
    exp: &FlareLangExp,
    env: &mut RispEnv,
    arith: &F,
    out: &mut Vec<FlareLangExp>,
) -> (r: Result<FlareLangExp, FlareLangErr>)
    requires
        computes_all(arith),
    ensures
        forall|num: Numeric| #[trigger]
            follows(arith, num) ==> ends_as(
                r,
                final(env)@,
                terms(final(out)@),
                run(num, exp@, old(env)@, terms(old(out)@)),
            ),
    decreases exp,
{
    match exp {
        FlareLangExp::Symbol(k) => match env.get(k.as_str()) {
            Some(v) => Ok(v),
            None => Err(FlareLangErr::unbound(k.as_str())),
        },
        FlareLangExp::Number(n) => Ok(FlareLangExp::Number(*n)),
        FlareLangExp::String(s) => Ok(FlareLangExp::String(s.clone())),
        FlareLangExp::Func(_) => Err(
            FlareLangErr::UnexpectedCallable(String::from_str("unexpected form")),
        ),
        FlareLangExp::Print(inner) => {
            let value = match eval(inner, env, arith, out) {
                Err(e) => {
                    return Err(e);
                },
                Ok(value) => value,
            };
            let ghost before = terms(out@);
            match value {
                FlareLangExp::Number(_) => {
                    out.push(value);
                },
                FlareLangExp::String(_) => {
                    out.push(value);
                },
                _ => {},
            }
            assert(terms(out@) =~= emitted(before, value@));
            Ok(FlareLangExp::Number(ZERO))
        },
        FlareLangExp::List(list) => {
            proof {
                FlareLangExp::list_term(*list);
            }
            if list.len() == 0 {
                return Err(FlareLangErr::EmptyForm(String::from_str("expected a non-empty list")));
            }
            let ghost items = terms(list@);
            let head = match eval(&list[0], env, arith, out) {
                Err(e) => {
                    return Err(e);
                },
                Ok(head) => head,
            };
            let b = match head {
                FlareLangExp::Func(b) => b,
                _ => {
                    return Err(
                        FlareLangErr::NotCallable(String::from_str("first form must be a function")),
                    );
                },
            };
            let mut args: Vec<FlareLangExp> = Vec::new();
            let mut i: usize = 1;
            assert(terms(args@) =~= Seq::<Term>::empty());
            while i < list.len()
                invariant
                    computes_all(arith),
                    exp is List && exp->List_0 == list,
                    items == terms(list@),
                    exp@ == Term::List(items),
                    1 <= i <= list.len(),
                    forall|num: Numeric| #[trigger]
                        follows(arith, num) ==> {
                            let head = run(num, items[0], old(env)@, terms(old(out)@));
                            let a = run_args(num, items, i as nat, head.env, head.out);
                            &&& head.result == Ok::<Term, Fault>(Term::Func(b))
                            &&& a.values == Ok::<Seq<Term>, Fault>(terms(args@))
                            &&& a.env == env@
                            &&& a.out == terms(out@)
                        },
                decreases list.len() - i,
            {
                let ghost values = terms(args@);
                match eval(&list[i], env, arith, out) {
                    Err(e) => {
                        proof {
                            assert forall|num: Numeric| #[trigger] follows(arith, num) implies ends_as(
                                Err(e),
                                env@,
                                terms(out@),
                                run(num, exp@, old(env)@, terms(old(out)@)),
                            ) by {
                                let head = run(num, items[0], old(env)@, terms(old(out)@));
                                run_args_stops_at_fault(
                                    num,
                                    items,
                                    (i + 1) as nat,
                                    items.len(),
                                    head.env,
                                    head.out,
                                );
                            }
                        }
                        return Err(e);
                    },
                    Ok(v) => {
                        args.push(v);
                        assert(terms(args@) =~= values.push(v@));
                    },
                }
                i += 1;
            }
            apply_builtin(b, args.as_slice(), arith)
        },
        FlareLangExp::Let(name, inner) => {
            let value = match eval(inner, env, arith, out) {
                Err(e) => {
                    return Err(e);
                },
                Ok(value) => value,
            };
            env.set(name.clone(), value);
            Ok(FlareLangExp::Number(ZERO))
        },
        FlareLangExp::Assign(name, inner) => {
            let value = match eval(inner, env, arith, out) {
                Err(e) => {
                    return Err(e);
                },
                Ok(value) => value,
            };
            if env.contains(name.as_str()) {
                env.set(name.clone(), value.duplicate());
                Ok(value)
            } else {
                Err(FlareLangErr::undefined(name.as_str()))
            }
        },
        FlareLangExp::Op(op, left, right) => {
            let l = match eval(left, env, arith, out) {
                Err(e) => {
                    return Err(e);
                },
                Ok(l) => l,
            };
            let r = match eval(right, env, arith, out) {
                Err(e) => {
                    return Err(e);
                },
                Ok(r) => r,
            };
            apply_op(op.as_str(), &l, &r, arith)
        },
        FlareLangExp::If(cond, then_branch, else_branch) => {
            let c = match eval(cond, env, arith, out) {
                Err(e) => {
                    return Err(e);
                },
                Ok(c) => c,
            };
            let taken = match c {
                FlareLangExp::Number(n) => !zero_valued(n),
                _ => false,
            };
            assert(taken == truthy(c@));
            if taken {
                eval(then_branch, env, arith, out)
            } else {
                eval(else_branch, env, arith, out)
            }
        },
    }
}

} // verus!
