//! What holds of the tokenizer, the parser and the evaluator as a whole.

use vstd::prelude::*;
use crate::error::{Fault, FlareLangErr};
use crate::expr::{FlareLangExp, Term};
use crate::interpreter::{ends_as, shown};
use crate::lexer::{scan, tokens_of, Scan};
use crate::number::{Literals, Numeric};
use crate::semantics::{placeholder, run, run_args, Bindings};
use crate::session::session;

verus! {

/// A line has one outcome. Two evaluations of the same line, from the same
/// bindings and the same output, with the same reading of literals and the
/// same arithmetic, return the same result and leave the same bindings and
/// the same output.
pub proof fn same_line_same_outcome(
    lit: Literals,
    num: Numeric,
    text: Seq<char>,
    env: Bindings,
    out: Seq<Term>,
    first: Result<FlareLangExp, FlareLangErr>,
    first_env: Bindings,
    first_out: Seq<Term>,
    second: Result<FlareLangExp, FlareLangErr>,
    second_env: Bindings,
    second_out: Seq<Term>,
)
    requires
        ends_as(first, first_env, first_out, session(lit, num, text, env, out)),
        ends_as(second, second_env, second_out, session(lit, num, text, env, out)),
    ensures
        shown(first) == shown(second),
        first_env == second_env,
        first_out == second_out,
{
}

/// An expression has one outcome: two evaluations of the same expression,
/// from the same bindings and the same output, with the same arithmetic,
/// return the same result and leave the same bindings and the same output.
pub proof fn same_expression_same_outcome(
    num: Numeric,
    t: Term,
    env: Bindings,
    out: Seq<Term>,
    first: Result<FlareLangExp, FlareLangErr>,
    first_env: Bindings,
    first_out: Seq<Term>,
    second: Result<FlareLangExp, FlareLangErr>,
    second_env: Bindings,
    second_out: Seq<Term>,
)
    requires
        ends_as(first, first_env, first_out, run(num, t, env, out)),
        ends_as(second, second_env, second_out, run(num, t, env, out)),
    ensures
        shown(first) == shown(second),
        first_env == second_env,
        first_out == second_out,
{
}

/// Declaring a variable twice with the same literal is the same as
/// declaring it once: the second `let` overwrites the binding of the first
/// with an equal one. Afterwards the name is bound to the literal, every
/// other name is bound as before, and nothing was emitted.
pub proof fn let_twice_binds_once(
    num: Numeric,
    name: Seq<char>,
    value: Term,
    env: Bindings,
    out: Seq<Term>,
)
    requires
        value is Number || value is Text,
    ensures
        ({
            let form = Term::Let(name, Box::new(value));
            let once = run(num, form, env, out);
            let twice = run(num, form, once.env, once.out);
            &&& once.result == Ok::<Term, Fault>(placeholder())
            &&& twice.result == Ok::<Term, Fault>(placeholder())
            &&& once.env == env.insert(name, value)
            &&& twice.env == once.env
            &&& twice.env.dom() == env.dom().insert(name)
            &&& twice.env[name] == value
            &&& forall|other: Seq<char>|
                other != name && env.contains_key(other) ==> twice.env[other] == env[other]
            &&& twice.out == out
        }),
{
    let form = Term::Let(name, Box::new(value));
    let once = run(num, form, env, out);
    let twice = run(num, form, once.env, once.out);
    assert(run(num, value, env, out).result == Ok::<Term, Fault>(value));
    assert(run(num, value, once.env, once.out).result == Ok::<Term, Fault>(value));
    assert(twice.env =~= once.env);
    assert(twice.env.dom() =~= env.dom().insert(name));
}

/// Whether a term is a value: a number, a text or a procedure.
pub open spec fn is_value(t: Term) -> bool {
    t is Number || t is Text || t is Func
}

/// Whether every name is bound to a value.
pub open spec fn holds_values(env: Bindings) -> bool {
    forall|k: Seq<char>| env.contains_key(k) ==> is_value(#[trigger] env[k])
}

/// Whether the output `after` is the output `before` with numbers and
/// texts added at its end, if anything.
pub open spec fn extends(after: Seq<Term>, before: Seq<Term>) -> bool {
    &&& before.len() <= after.len()
    &&& forall|i: int| 0 <= i < before.len() ==> #[trigger] after[i] == before[i]
    &&& forall|i: int|
        before.len() <= i < after.len() ==> (#[trigger] after[i]) is Number || after[i] is Text
}

/// Evaluation ends in a value and keeps the bindings bound to values. It
/// leaves the output that was there as it is, and what it adds at its end
/// are numbers and texts.
pub proof fn evaluation_yields_values(num: Numeric, t: Term, env: Bindings, out: Seq<Term>)
    requires
        holds_values(env),
    ensures
        run(num, t, env, out).result matches Ok(v) ==> is_value(v),
        holds_values(run(num, t, env, out).env),
        extends(run(num, t, env, out).out, out),
    decreases t, 0nat,
{
    match t {
        Term::Print(inner) => {
            evaluation_yields_values(num, *inner, env, out);
        },
        Term::List(items) => {
            if items.len() > 0 {
                evaluation_yields_values(num, items[0], env, out);
                let head = run(num, items[0], env, out);
                if head.result is Ok {
                    arguments_yield_values(num, items, items.len(), head.env, head.out);
                }
            }
        },
        Term::Let(_, inner) => {
            evaluation_yields_values(num, *inner, env, out);
        },
        Term::Assign(_, inner) => {
            evaluation_yields_values(num, *inner, env, out);
        },
        Term::Op(_, left, right) => {
            evaluation_yields_values(num, *left, env, out);
            let l = run(num, *left, env, out);
            if l.result is Ok {
                evaluation_yields_values(num, *right, l.env, l.out);
            }
        },
        Term::If(cond, then_branch, else_branch) => {
            evaluation_yields_values(num, *cond, env, out);
            let c = run(num, *cond, env, out);
            if c.result is Ok {
                evaluation_yields_values(num, *then_branch, c.env, c.out);
                evaluation_yields_values(num, *else_branch, c.env, c.out);
            }
        },
        _ => {},
    }
}

/// The arguments of a call evaluate to values, keep the bindings bound to
/// values, and add only numbers and texts to the output.
pub proof fn arguments_yield_values(
    num: Numeric,
    items: Seq<Term>,
    n: nat,
    env: Bindings,
    out: Seq<Term>,
)
    requires
        holds_values(env),
    ensures
        run_args(num, items, n, env, out).values matches Ok(values) ==> forall|i: int|
            0 <= i < values.len() ==> is_value(#[trigger] values[i]),
        holds_values(run_args(num, items, n, env, out).env),
        extends(run_args(num, items, n, env, out).out, out),
    decreases items, n,
{
    if !(n <= 1 || n > items.len()) {
        arguments_yield_values(num, items, (n - 1) as nat, env, out);
        let before = run_args(num, items, (n - 1) as nat, env, out);
        if before.values is Ok {
            evaluation_yields_values(num, items[n - 1], before.env, before.out);
        }
    }
}

/// Whether a state of the scan holds no quote, in the tokens that are
/// complete and in the one being read.
pub open spec fn quote_free(s: Scan) -> bool {
    &&& forall|i: int, j: int|
        0 <= i < s.tokens.len() && 0 <= j < s.tokens[i].len() ==> s.tokens[i][j] != '"'
    &&& forall|j: int| 0 <= j < s.word.len() ==> s.word[j] != '"'
}

/// No state of the scan holds a quote.
pub proof fn scan_drops_quotes(text: Seq<char>, n: nat)
    requires
        n <= text.len(),
    ensures
        quote_free(scan(text, n)),
    decreases n,
{
    if n > 0 {
        scan_drops_quotes(text, (n - 1) as nat);
    }
}

/// No token holds a quote: quotes delimit and are dropped.
pub proof fn tokens_hold_no_quote(text: Seq<char>, i: int, j: int)
    requires
        0 <= i < tokens_of(text).len(),
        0 <= j < tokens_of(text)[i].len(),
    ensures
        tokens_of(text)[i][j] != '"',
{
    scan_drops_quotes(text, text.len());
}

/// Whether a state of the scan, outside quotes, holds only tokens that have
/// a character and no space.
pub open spec fn plain(s: Scan) -> bool {
    &&& !s.quoted
    &&& forall|i: int| 0 <= i < s.tokens.len() ==> (#[trigger] s.tokens[i]).len() > 0
    &&& forall|i: int, j: int|
        0 <= i < s.tokens.len() && 0 <= j < s.tokens[i].len() ==> s.tokens[i][j] != ' '
    &&& forall|j: int| 0 <= j < s.word.len() ==> s.word[j] != ' '
}

/// While the text holds no quote, the scan stays outside quotes and its
/// tokens have a character each and no space.
pub proof fn scan_of_plain_text(text: Seq<char>, n: nat)
    requires
        n <= text.len(),
        forall|k: int| 0 <= k < text.len() ==> text[k] != '"',
    ensures
        plain(scan(text, n)),
    decreases n,
{
    if n > 0 {
        scan_of_plain_text(text, (n - 1) as nat);
    }
}

/// In a text without quotes, every token has a character and none holds a
/// space: tokens are cut at spaces, and runs of spaces yield no empty token.
pub proof fn plain_tokens_are_words(text: Seq<char>, i: int)
    requires
        forall|k: int| 0 <= k < text.len() ==> text[k] != '"',
        0 <= i < tokens_of(text).len(),
    ensures
        tokens_of(text)[i].len() > 0,
        forall|j: int| 0 <= j < tokens_of(text)[i].len() ==> tokens_of(text)[i][j] != ' ',
{
    scan_of_plain_text(text, text.len());
}

/// A text without characters has no tokens.
pub proof fn empty_text_has_no_tokens()
    ensures
        tokens_of(Seq::<char>::empty()) == Seq::<Seq<char>>::empty(),
{
}

} // verus!
