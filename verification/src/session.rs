//! One step of a session: a line of text is cut into tokens, parsed, and
//! evaluated against the session's environment.

use vstd::prelude::*;
use crate::error::FlareLangErr;
use crate::expr::{terms, FlareLangExp, Term};
use crate::interpreter::{ends_as, eval, RispEnv};
use crate::lexer::{tokenize, tokens_of};
use crate::number::{computes_all, follows, reads_all, reads_as, Arith, Literals, Numeric};
use crate::parser::{parse, parsed};
use crate::semantics::{run, Bindings, Outcome};

verus! {

/// How the line `text` ends, from the bindings `env` and the output `out`:
/// the first expression of the line is evaluated, and what follows it on the
/// line is passed over. A line that does not parse changes nothing.
pub open spec fn session(
    lit: Literals,
    num: Numeric,
    text: Seq<char>,
    env: Bindings,
    out: Seq<Term>,
) -> Outcome {
    match parsed(lit, tokens_of(text)) {
        Err(e) => Outcome { result: Err(e), env, out },
        Ok((t, _)) => run(num, t, env, out),
    }
}

/// Parses the line `expr` and evaluates it against `env`.
pub fn parse_eval<R: Fn(&str) -> Option<u64>, F: Fn(Arith, u64, u64) -> u64>(
    expr: String,
    env: &mut RispEnv,
    read: &R,
    arith: &F,
    out: &mut Vec<FlareLangExp>,
) -> (r: Result<FlareLangExp, FlareLangErr>)
    requires
        reads_all(read),
        computes_all(arith),
    ensures
        forall|lit: Literals, num: Numeric|
            #![trigger reads_as(read, lit), follows(arith, num)]
            reads_as(read, lit) && follows(arith, num) ==> ends_as(
                r,
                final(env)@,
                terms(final(out)@),
                session(lit, num, expr@, old(env)@, terms(old(out)@)),
            ),
{
    let tokens = tokenize(expr);
    match parse(tokens.as_slice(), read) {
        Err(e) => Err(e),
        Ok((exp, _)) => eval(&exp, env, arith, out),
    }
}

} // verus!
