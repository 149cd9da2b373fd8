//! The parser: from tokens to one expression and the tokens left over.
//!
//! The grammar is in prefix form and the first token selects the production.
//! A token that opens and closes with a quote is a text. `let` takes a name,
//! the token `=` and one expression; `=` takes a name and one expression;
//! `if` takes three expressions; each of `+ - * /` takes two; `display` takes
//! one. Any other token is an atom: a number where the reader of numeric
//! literals accepts it, a symbol otherwise. A keyword is therefore never
//! read as a symbol.

use vstd::prelude::*;
use vstd::slice::slice_subrange;
use vstd::string::StringExecFns;
use crate::error::{Fault, FlareLangErr};
use crate::expr::{terms, FlareLangExp, Term};
use crate::lexer::words;
use crate::number::{reads_all, reads_as, Literals};
use crate::semantics::{number_of, numbers_of, operation};
use crate::text::same_text;

verus! {

/// The spellings of a run of tokens.
pub type Words = Seq<Seq<char>>;

/// What a parse yields: a term and the tokens after it, or a fault.
pub type Parsed = Result<(Term, Words), Fault>;

/// Whether a token is a quoted text: it opens and closes with a quote.
pub open spec fn is_quoted(token: Seq<char>) -> bool {
    token.len() >= 2 && token[0] == '"' && token[token.len() - 1] == '"'
}

/// The term of an atom: a number where the reader accepts the token, else a
/// symbol.
pub open spec fn atom(lit: Literals, token: Seq<char>) -> Term {
    match lit(token) {
        Some(bits) => Term::Number(bits),
        None => Term::Symbol(token),
    }
}

/// The parse of one expression at the start of `w`.
pub open spec fn parsed(lit: Literals, w: Words) -> Parsed
    decreases w.len(), 0nat,
{
    if w.len() == 0 {
        Err(Fault::SyntaxError("could not get token"@))
    } else {
        let token = w[0];
        let rest = w.skip(1);
        if is_quoted(token) {
            Ok((Term::Text(token.subrange(1, token.len() - 1)), rest))
        } else if token == "let"@ {
            parsed_let(lit, rest)
        } else if token == "="@ {
            parsed_assign(lit, rest)
        } else if token == "if"@ {
            parsed_if(lit, rest)
        } else if operation(token) is Some {
            parsed_op(lit, token, rest)
        } else if token == "display"@ {
            parsed_print(lit, rest)
        } else {
            Ok((atom(lit, token), rest))
        }
    }
}

/// The parse of what follows `display`: one expression.
pub open spec fn parsed_print(lit: Literals, w: Words) -> Parsed
    decreases w.len(), 1nat,
{
    match parsed(lit, w) {
        Err(e) => Err(e),
        Ok((inner, rest)) => Ok((Term::Print(Box::new(inner)), rest)),
    }
}

/// The parse of what follows `let`: a name, the token `=`, one expression.
pub open spec fn parsed_let(lit: Literals, w: Words) -> Parsed
    decreases w.len(), 1nat,
{
    if w.len() == 0 {
        Err(Fault::SyntaxError("expected variable name after let"@))
    } else if w.len() == 1 {
        Err(Fault::SyntaxError("expected '=' after variable name"@))
    } else if w[1] != "="@ {
        Err(Fault::SyntaxError("expected '='"@))
    } else {
        match parsed(lit, w.skip(2)) {
            Err(e) => Err(e),
            Ok((value, rest)) => Ok((Term::Let(w[0], Box::new(value)), rest)),
        }
    }
}

/// The parse of what follows `=`: a name, one expression.
pub open spec fn parsed_assign(lit: Literals, w: Words) -> Parsed
    decreases w.len(), 1nat,
{
    if w.len() == 0 {
        Err(Fault::SyntaxError("expected variable name for assignment"@))
    } else {
        match parsed(lit, w.skip(1)) {
            Err(e) => Err(e),
            Ok((value, rest)) => Ok((Term::Assign(w[0], Box::new(value)), rest)),
        }
    }
}

/// The parse of what follows `if`: condition, then-branch, else-branch.
///
/// Each expression starts where the one before it ended. The tests on the
/// lengths only make the definition well-founded: a parse never leaves more
/// tokens than it was given, so they never fail, and [`if_is_three_parses`]
/// states the production without them.
pub open spec fn parsed_if(lit: Literals, w: Words) -> Parsed
    decreases w.len(), 1nat,
{
    match parsed(lit, w) {
        Err(e) => Err(e),
        Ok((cond, after_cond)) => if after_cond.len() > w.len() {
            Err(Fault::SyntaxError(Seq::empty()))
        } else {
            match parsed(lit, after_cond) {
                Err(e) => Err(e),
                Ok((then_branch, after_then)) => if after_then.len() > w.len() {
                    Err(Fault::SyntaxError(Seq::empty()))
                } else {
                    match parsed(lit, after_then) {
                        Err(e) => Err(e),
                        Ok((else_branch, rest)) => Ok(
                            (
                                Term::If(
                                    Box::new(cond),
                                    Box::new(then_branch),
                                    Box::new(else_branch),
                                ),
                                rest,
                            ),
                        ),
                    }
                },
            }
        },
    }
}

/// The parse of what follows the operator `op`: left operand, right operand.
///
/// The test on the length never fails and only makes the definition
/// well-founded; [`op_is_two_parses`] states the production without it.
pub open spec fn parsed_op(lit: Literals, op: Seq<char>, w: Words) -> Parsed
    decreases w.len(), 1nat,
{
    match parsed(lit, w) {
        Err(e) => Err(e),
        Ok((left, after_left)) => if after_left.len() > w.len() {
            Err(Fault::SyntaxError(Seq::empty()))
        } else {
            match parsed(lit, after_left) {
                Err(e) => Err(e),
                Ok((right, rest)) => Ok((Term::Op(op, Box::new(left), Box::new(right)), rest)),
            }
        },
    }
}

/// The parse of the items of a call form up to its closing `)`, after the
/// items `done` have been read.
///
/// The test on the length never fails and only makes the definition
/// well-founded; [`items_are_parsed_in_a_row`] states the step without it.
pub open spec fn parsed_items(lit: Literals, w: Words, done: Seq<Term>) -> Parsed
    decreases w.len(),
{
    if w.len() == 0 {
        Err(Fault::SyntaxError("could not find closing `)`"@))
    } else if w[0] == ")"@ {
        Ok((Term::List(done), w.skip(1)))
    } else {
        match parsed(lit, w) {
            Err(e) => Err(e),
            Ok((item, rest)) => if rest.len() >= w.len() {
                Err(Fault::SyntaxError(Seq::empty()))
            } else {
                parsed_items(lit, rest, done.push(item))
            },
        }
    }
}

/// The parse of a call form after its opening `(`.
pub open spec fn parsed_seq(lit: Literals, w: Words) -> Parsed {
    parsed_items(lit, w, Seq::empty())
}

/// Whether `rest` is what is left of `w` after at least `least` tokens.
pub open spec fn is_rest_of(rest: Words, w: Words, least: nat) -> bool {
    rest.len() + least <= w.len() && rest == w.skip(w.len() - rest.len())
}

/// What is left of a part is left of the whole.
pub proof fn rest_of_rest(rest: Words, part: Words, w: Words, n: nat, m: nat)
    requires
        is_rest_of(rest, part, n),
        is_rest_of(part, w, m),
    ensures
        is_rest_of(rest, w, n + m),
{
    assert(part.skip(part.len() - rest.len()) =~= w.skip(w.len() - rest.len()));
}

/// Every parse that succeeds leaves a proper suffix of its tokens: it takes
/// at least one token, and those that it leaves are the last of its input,
/// unchanged.
pub proof fn parse_consumes(lit: Literals, w: Words)
    ensures
        parsed(lit, w) matches Ok((_, rest)) ==> is_rest_of(rest, w, 1),
    decreases w.len(), 0nat,
{
    if w.len() > 0 {
        let tail = w.skip(1);
        assert(is_rest_of(tail, w, 1)) by {
            assert(tail =~= w.skip(w.len() - tail.len()));
        }
        let token = w[0];
        if is_quoted(token) {
        } else if token == "let"@ {
            let_consumes(lit, tail);
            if let Ok((_, rest)) = parsed_let(lit, tail) {
                rest_of_rest(rest, tail, w, 3, 1);
            }
        } else if token == "="@ {
            assign_consumes(lit, tail);
            if let Ok((_, rest)) = parsed_assign(lit, tail) {
                rest_of_rest(rest, tail, w, 2, 1);
            }
        } else if token == "if"@ {
            if_consumes(lit, tail);
            if let Ok((_, rest)) = parsed_if(lit, tail) {
                rest_of_rest(rest, tail, w, 3, 1);
            }
        } else if operation(token) is Some {
            op_consumes(lit, token, tail);
            if let Ok((_, rest)) = parsed_op(lit, token, tail) {
                rest_of_rest(rest, tail, w, 2, 1);
            }
        } else if token == "display"@ {
            print_consumes(lit, tail);
            if let Ok((_, rest)) = parsed_print(lit, tail) {
                rest_of_rest(rest, tail, w, 1, 1);
            }
        }
    }
}

/// What follows `display` takes at least one token and leaves a suffix.
pub proof fn print_consumes(lit: Literals, w: Words)
    ensures
        parsed_print(lit, w) matches Ok((_, rest)) ==> is_rest_of(rest, w, 1),
    decreases w.len(), 1nat,
{
    parse_consumes(lit, w);
}

/// What follows `let` takes at least three tokens and leaves a suffix.
pub proof fn let_consumes(lit: Literals, w: Words)
    ensures
        parsed_let(lit, w) matches Ok((_, rest)) ==> is_rest_of(rest, w, 3),
    decreases w.len(), 1nat,
{
    if w.len() >= 2 {
        let tail = w.skip(2);
        assert(is_rest_of(tail, w, 2)) by {
            assert(tail =~= w.skip(w.len() - tail.len()));
        }
        parse_consumes(lit, tail);
        if let Ok((_, rest)) = parsed(lit, tail) {
            rest_of_rest(rest, tail, w, 1, 2);
        }
    }
}

/// What follows `=` takes at least two tokens and leaves a suffix.
pub proof fn assign_consumes(lit: Literals, w: Words)
    ensures
        parsed_assign(lit, w) matches Ok((_, rest)) ==> is_rest_of(rest, w, 2),
    decreases w.len(), 1nat,
{
    if w.len() >= 1 {
        let tail = w.skip(1);
        assert(is_rest_of(tail, w, 1)) by {
            assert(tail =~= w.skip(w.len() - tail.len()));
        }
        parse_consumes(lit, tail);
        if let Ok((_, rest)) = parsed(lit, tail) {
            rest_of_rest(rest, tail, w, 1, 1);
        }
    }
}

/// What follows `if` takes at least three tokens and leaves a suffix.
pub proof fn if_consumes(lit: Literals, w: Words)
    ensures
        parsed_if(lit, w) matches Ok((_, rest)) ==> is_rest_of(rest, w, 3),
    decreases w.len(), 1nat,
{
    parse_consumes(lit, w);
    if let Ok((_, a)) = parsed(lit, w) {
        parse_consumes(lit, a);
        if let Ok((_, b)) = parsed(lit, a) {
            rest_of_rest(b, a, w, 1, 1);
            parse_consumes(lit, b);
            if let Ok((_, c)) = parsed(lit, b) {
                rest_of_rest(c, b, w, 1, 2);
            }
        }
    }
}

/// What follows an operator takes at least two tokens and leaves a suffix.
pub proof fn op_consumes(lit: Literals, op: Seq<char>, w: Words)
    ensures
        parsed_op(lit, op, w) matches Ok((_, rest)) ==> is_rest_of(rest, w, 2),
    decreases w.len(), 1nat,
{
    parse_consumes(lit, w);
    if let Ok((_, a)) = parsed(lit, w) {
        parse_consumes(lit, a);
        if let Ok((_, b)) = parsed(lit, a) {
            rest_of_rest(b, a, w, 1, 1);
        }
    }
}

/// A call form takes at least its closing `)` and leaves a suffix.
pub proof fn items_consume(lit: Literals, w: Words, done: Seq<Term>)
    ensures
        parsed_items(lit, w, done) matches Ok((_, rest)) ==> is_rest_of(rest, w, 1),
    decreases w.len(),
{
    if w.len() > 0 {
        if w[0] == ")"@ {
            let tail = w.skip(1);
            assert(tail =~= w.skip(w.len() - tail.len()));
        } else {
            parse_consumes(lit, w);
            if let Ok((item, a)) = parsed(lit, w) {
                items_consume(lit, a, done.push(item));
                if let Ok((_, rest)) = parsed_items(lit, a, done.push(item)) {
                    rest_of_rest(rest, a, w, 1, 1);
                }
            }
        }
    }
}

/// What follows `if` is three parses in a row, each from where the one
/// before it ended.
pub proof fn if_is_three_parses(lit: Literals, w: Words)
    ensures
        parsed_if(lit, w) == (match parsed(lit, w) {
            Err(e) => Err(e),
            Ok((cond, after_cond)) => match parsed(lit, after_cond) {
                Err(e) => Err(e),
                Ok((then_branch, after_then)) => match parsed(lit, after_then) {
                    Err(e) => Err(e),
                    Ok((else_branch, rest)) => Ok(
                        (
                            Term::If(Box::new(cond), Box::new(then_branch), Box::new(else_branch)),
                            rest,
                        ),
                    ),
                },
            },
        }),
{
    parse_consumes(lit, w);
    if let Ok((_, after_cond)) = parsed(lit, w) {
        parse_consumes(lit, after_cond);
        if let Ok((_, after_then)) = parsed(lit, after_cond) {
            rest_of_rest(after_then, after_cond, w, 1, 1);
        }
    }
}

/// What follows an operator is two parses in a row, the second from where
/// the first ended.
pub proof fn op_is_two_parses(lit: Literals, op: Seq<char>, w: Words)
    ensures
        parsed_op(lit, op, w) == (match parsed(lit, w) {
            Err(e) => Err(e),
            Ok((left, after_left)) => match parsed(lit, after_left) {
                Err(e) => Err(e),
                Ok((right, rest)) => Ok((Term::Op(op, Box::new(left), Box::new(right)), rest)),
            },
        }),
{
    parse_consumes(lit, w);
}

/// The items of a call form are parsed one after the other, each from where
/// the one before it ended, until the closing `)`.
pub proof fn items_are_parsed_in_a_row(lit: Literals, w: Words, done: Seq<Term>)
    requires
        w.len() > 0,
        w[0] != ")"@,
    ensures
        parsed_items(lit, w, done) == (match parsed(lit, w) {
            Err(e) => Err(e),
            Ok((item, rest)) => parsed_items(lit, rest, done.push(item)),
        }),
{
    parse_consumes(lit, w);
}

/// What the result of a parse stands for.
pub open spec fn parse_shown(r: Result<(FlareLangExp, &[String]), FlareLangErr>) -> Parsed {
    match r {
        Ok((e, rest)) => Ok((e@, words(rest@))),
        Err(e) => Err(e@),
    }
}

/// Whether the result of a parse of `tokens`, where it succeeds, hands back
/// the last of them, after at least `least` tokens.
pub open spec fn hands_back(
    r: Result<(FlareLangExp, &[String]), FlareLangErr>,
    tokens: &[String],
    least: nat,
) -> bool {
    r matches Ok((_, rest)) ==> rest@.len() + least <= tokens@.len() && rest@ == tokens@.skip(
        tokens@.len() - rest@.len(),
    )
}

/// The tokens of `tokens` from the `n`-th on.
fn tokens_from<'a>(tokens: &'a [String], n: usize) -> (rest: &'a [String])
    requires
        n <= tokens@.len(),
    ensures
        rest@ == tokens@.skip(n as int),
        words(rest@) == words(tokens@).skip(n as int),
{
    let rest = slice_subrange(tokens, n, tokens.len());
    assert(rest@ =~= tokens@.skip(n as int));
    assert(words(rest@) =~= words(tokens@).skip(n as int));
    rest
}

/// Whether a token opens and closes with a quote.
pub fn is_quoted_token(token: &str) -> (r: bool)
    ensures
        r == is_quoted(token@),
{
    let n = token.unicode_len();
    n >= 2 && token.get_char(0) == '"' && token.get_char(n - 1) == '"'
}

/// Reads one atom: a number where `read` accepts the token, else a symbol.
pub fn parse_atom<R: Fn(&str) -> Option<u64>>(token: &str, read: &R) -> (e: FlareLangExp)
    requires
        reads_all(read),
    ensures
        forall|lit: Literals| #[trigger] reads_as(read, lit) ==> e@ == atom(lit, token@),
{
    match read(token) {
        Some(bits) => FlareLangExp::Number(bits),
        None => FlareLangExp::Symbol(String::from_str(token)),
    }
}

/// Parses one expression at the start of `tokens` and hands back the tokens
/// after it.
pub fn parse<'a, R: Fn(&str) -> Option<u64>>(tokens: &'a [String], read: &R) -> (r: Result<
    (FlareLangExp, &'a [String]),
    FlareLangErr,
>)
    requires
        reads_all(read),
    ensures
        forall|lit: Literals| #[trigger]
            reads_as(read, lit) ==> parse_shown(r) == parsed(lit, words(tokens@)),
        hands_back(r, tokens, 1),
    decreases tokens@.len(), 0nat,
{
    if tokens.len() == 0 {
        return Err(FlareLangErr::syntax("could not get token"));
    }
    let token = tokens[0].as_str();
    let rest = tokens_from(tokens, 1);
    if is_quoted_token(token) {
        let inner = token.substring_char(1, token.unicode_len() - 1);
        Ok((FlareLangExp::String(String::from_str(inner)), rest))
    } else if same_text(token, "let") {
        let r = parse_let(rest, read);
        proof {
            suffix_of_suffix(r, rest, tokens, 3);
        }
        r
    } else if same_text(token, "=") {
        let r = parse_assign(rest, read);
        proof {
            suffix_of_suffix(r, rest, tokens, 2);
        }
        r
    } else if same_text(token, "if") {
        let r = parse_if(rest, read);
        proof {
            suffix_of_suffix(r, rest, tokens, 3);
        }
        r
    } else if is_operator(token) {
        let r = parse_op(token, rest, read);
        proof {
            suffix_of_suffix(r, rest, tokens, 2);
        }
        r
    } else if same_text(token, "display") {
        let r = parse_print(rest, read);
        proof {
            suffix_of_suffix(r, rest, tokens, 1);
        }
        r
    } else {
        Ok((parse_atom(token, read), rest))
    }
}

/// Whether a token is one of the four operators.
pub fn is_operator(token: &str) -> (r: bool)
    ensures
        r == (operation(token@) is Some),
{
    same_text(token, "+") || same_text(token, "-") || same_text(token, "*") || same_text(
        token,
        "/",
    )
}

/// The tokens handed back from a part of `tokens` are the last of `tokens`.
proof fn suffix_of_suffix(
    r: Result<(FlareLangExp, &[String]), FlareLangErr>,
    part: &[String],
    tokens: &[String],
    least: nat,
)
    requires
        hands_back(r, part, least),
        part@.len() <= tokens@.len(),
        part@ == tokens@.skip(tokens@.len() - part@.len()),
    ensures
        hands_back(r, tokens, (least + tokens@.len() - part@.len()) as nat),
{
    if let Ok((_, rest)) = r {
        assert(part@.skip(part@.len() - rest@.len()) =~= tokens@.skip(
            tokens@.len() - rest@.len(),
        ));
    }
}

/// Parses what follows `display`: one expression.
pub fn parse_print<'a, R: Fn(&str) -> Option<u64>>(tokens: &'a [String], read: &R) -> (r: Result<
    (FlareLangExp, &'a [String]),
    FlareLangErr,
>)
    requires
        reads_all(read),
    ensures
        forall|lit: Literals| #[trigger]
            reads_as(read, lit) ==> parse_shown(r) == parsed_print(lit, words(tokens@)),
        hands_back(r, tokens, 1),
    decreases tokens@.len(), 1nat,
{
    match parse(tokens, read) {
        Err(e) => Err(e),
        Ok((inner, rest)) => Ok((FlareLangExp::Print(Box::new(inner)), rest)),
    }
}

/// Parses what follows `let`: a name, the token `=`, one expression.
pub fn parse_let<'a, R: Fn(&str) -> Option<u64>>(tokens: &'a [String], read: &R) -> (r: Result<
    (FlareLangExp, &'a [String]),
    FlareLangErr,
>)
    requires
        reads_all(read),
    ensures
        forall|lit: Literals| #[trigger]
            reads_as(read, lit) ==> parse_shown(r) == parsed_let(lit, words(tokens@)),
        hands_back(r, tokens, 3),
    decreases tokens@.len(), 1nat,
{
    if tokens.len() == 0 {
        return Err(FlareLangErr::syntax("expected variable name after let"));
    }
    if tokens.len() == 1 {
        return Err(FlareLangErr::syntax("expected '=' after variable name"));
    }
    if !same_text(tokens[1].as_str(), "=") {
        return Err(FlareLangErr::syntax("expected '='"));
    }
    let after = tokens_from(tokens, 2);
    match parse(after, read) {
        Err(e) => Err(e),
        Ok((value, rest)) => {
            let r = Ok((FlareLangExp::Let(tokens[0].clone(), Box::new(value)), rest));
            proof {
                suffix_of_suffix(r, after, tokens, 1);
            }
            r
        },
    }
}

/// Parses what follows `=`: a name, one expression.
pub fn parse_assign<'a, R: Fn(&str) -> Option<u64>>(tokens: &'a [String], read: &R) -> (r:
    Result<(FlareLangExp, &'a [String]), FlareLangErr>)
    requires
        reads_all(read),
    ensures
        forall|lit: Literals| #[trigger]
            reads_as(read, lit) ==> parse_shown(r) == parsed_assign(lit, words(tokens@)),
        hands_back(r, tokens, 2),
    decreases tokens@.len(), 1nat,
{
    if tokens.len() == 0 {
        return Err(FlareLangErr::syntax("expected variable name for assignment"));
    }
    let after = tokens_from(tokens, 1);
    match parse(after, read) {
        Err(e) => Err(e),
        Ok((value, rest)) => {
            let r = Ok((FlareLangExp::Assign(tokens[0].clone(), Box::new(value)), rest));
            proof {
                suffix_of_suffix(r, after, tokens, 1);
            }
            r
        },
    }
}

/// Parses what follows `if`: condition, then-branch, else-branch.
pub fn parse_if<'a, R: Fn(&str) -> Option<u64>>(tokens: &'a [String], read: &R) -> (r: Result<
    (FlareLangExp, &'a [String]),
    FlareLangErr,
>)
    requires
        reads_all(read),
    ensures
        forall|lit: Literals| #[trigger]
            reads_as(read, lit) ==> parse_shown(r) == parsed_if(lit, words(tokens@)),
        hands_back(r, tokens, 3),
    decreases tokens@.len(), 1nat,
{
    let (cond, after_cond) = match parse(tokens, read) {
        Err(e) => {
            return Err(e);
        },
        Ok(found) => found,
    };
    let (then_branch, after_then) = match parse(after_cond, read) {
        Err(e) => {
            return Err(e);
        },
        Ok(found) => found,
    };
    proof {
        suffix_of_suffix(Ok((then_branch, after_then)), after_cond, tokens, 1);
    }
    let (else_branch, rest) = match parse(after_then, read) {
        Err(e) => {
            return Err(e);
        },
        Ok(found) => found,
    };
    let r = Ok(
        (FlareLangExp::If(Box::new(cond), Box::new(then_branch), Box::new(else_branch)), rest),
    );
    proof {
        suffix_of_suffix(r, after_then, tokens, 1);
    }
    r
}

/// Parses what follows the operator `op`: left operand, right operand.
pub fn parse_op<'a, R: Fn(&str) -> Option<u64>>(op: &str, tokens: &'a [String], read: &R) -> (r:
    Result<(FlareLangExp, &'a [String]), FlareLangErr>)
    requires
        reads_all(read),
    ensures
        forall|lit: Literals| #[trigger]
            reads_as(read, lit) ==> parse_shown(r) == parsed_op(lit, op@, words(tokens@)),
        hands_back(r, tokens, 2),
    decreases tokens@.len(), 1nat,
{
    let (left, after_left) = match parse(tokens, read) {
        Err(e) => {
            return Err(e);
        },
        Ok(found) => found,
    };
    let (right, rest) = match parse(after_left, read) {
        Err(e) => {
            return Err(e);
        },
        Ok(found) => found,
    };
    let r = Ok((FlareLangExp::Op(String::from_str(op), Box::new(left), Box::new(right)), rest));
    proof {
        suffix_of_suffix(r, after_left, tokens, 1);
    }
    r
}

/// Parses the items of a call form after its opening `(`, up to and with
/// the closing `)`.
pub fn read_seq<'a, R: Fn(&str) -> Option<u64>>(tokens: &'a [String], read: &R) -> (r: Result<
    (FlareLangExp, &'a [String]),
    FlareLangErr,
>)
    requires
        reads_all(read),
    ensures
        forall|lit: Literals| #[trigger]
            reads_as(read, lit) ==> parse_shown(r) == parsed_seq(lit, words(tokens@)),
        hands_back(r, tokens, 1),
{
    let mut items: Vec<FlareLangExp> = Vec::new();
    let mut xs = tokens;
    assert(terms(items@) =~= Seq::<Term>::empty());
    loop
        invariant
            reads_all(read),
            xs@.len() <= tokens@.len(),
            xs@ == tokens@.skip(tokens@.len() - xs@.len()),
            forall|lit: Literals| #[trigger]
                reads_as(read, lit) ==> parsed_seq(lit, words(tokens@)) == parsed_items(
                    lit,
                    words(xs@),
                    terms(items@),
                ),
        decreases xs@.len(),
    {
        if xs.len() == 0 {
            return Err(FlareLangErr::syntax("could not find closing `)`"));
        }
        if same_text(xs[0].as_str(), ")") {
            let rest = tokens_from(xs, 1);
            proof {
                FlareLangExp::list_term(items);
                assert(rest@ =~= tokens@.skip(tokens@.len() - rest@.len()));
            }
            return Ok((FlareLangExp::List(items), rest));
        }
        let ghost done = terms(items@);
        match parse(xs, read) {
            Err(e) => {
                return Err(e);
            },
            Ok((item, after)) => {
                proof {
                    assert forall|lit: Literals| #[trigger] reads_as(read, lit) implies parsed_seq(
                        lit,
                        words(tokens@),
                    ) == parsed_items(lit, words(after@), done.push(item@)) by {
                        parse_consumes(lit, words(xs@));
                    }
                    suffix_of_suffix(Ok((item, after)), xs, tokens, 1);
                    assert(terms(items@.push(item)) =~= done.push(item@));
                }
                items.push(item);
                xs = after;
            },
        }
    }
}

/// The number that a value holds; an error where it is no number.
pub fn parse_single_float(exp: &FlareLangExp) -> (r: Result<u64, FlareLangErr>)
    ensures
        match r {
            Ok(n) => number_of(exp@) == Ok::<u64, Fault>(n),
            Err(e) => number_of(exp@) == Err::<u64, Fault>(e@),
        },
{
    match exp {
        FlareLangExp::Number(n) => Ok(*n),
        _ => Err(FlareLangErr::TypeMismatch(String::from_str("expected a number"))),
    }
}

/// The numbers that the values hold, in order; an error where one is no number.
pub fn parse_list_of_floats(args: &[FlareLangExp]) -> (r: Result<Vec<u64>, FlareLangErr>)
    ensures
        match r {
            Ok(v) => numbers_of(terms(args@)) == Ok::<Seq<u64>, Fault>(v@),
            Err(e) => numbers_of(terms(args@)) == Err::<Seq<u64>, Fault>(e@),
        },
{
    let mut numbers: Vec<u64> = Vec::new();
    let mut i: usize = 0;
    while i < args.len()
        invariant
            i <= args@.len(),
            numbers@.len() == i,
            forall|j: int| 0 <= j < i ==> terms(args@)[j] == Term::Number(#[trigger] numbers@[j]),
        decreases args@.len() - i,
    {
        match parse_single_float(&args[i]) {
            Ok(n) => {
                numbers.push(n);
            },
            Err(e) => {
                assert(!(terms(args@)[i as int] is Number));
                return Err(e);
            },
        }
        i += 1;
    }
    proof {
        let values = terms(args@);
        assert forall|j: int| 0 <= j < values.len() implies values[j] is Number by {
            assert(values[j] == Term::Number(numbers@[j]));
        }
        assert(numbers_of(values)->Ok_0 =~= numbers@) by {
            assert forall|j: int| 0 <= j < values.len() implies values[j]->Number_0
                == numbers@[j] by {
                assert(values[j] == Term::Number(numbers@[j]));
            }
        }
    }
    Ok(numbers)
}

} // verus!
