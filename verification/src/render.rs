//! The text that an expression is shown as.

use vstd::prelude::*;
use vstd::string::StringExecFns;
use crate::expr::{terms, FlareLangExp, Term};

verus! {

/// A model of how numbers are written: the decimal text for each number.
pub type Digits = spec_fn(u64) -> Seq<char>;

/// Whether the writer `show` can be called on every number.
pub open spec fn shows_all<S: Fn(u64) -> String>(show: &S) -> bool {
    forall|n: u64| call_requires(show, (n,))
}

/// Whether every text of the writer `show` is the one that `digits` gives.
pub open spec fn shows_as<S: Fn(u64) -> String>(show: &S, digits: Digits) -> bool {
    forall|n: u64, r: String| #[trigger] call_ensures(show, (n,), r) ==> r@ == digits(n)
}

/// The text of a term.
///
/// A symbol is its name, a number its decimal text, a text itself. A call
/// form is its items between parentheses, with commas between them. A
/// procedure shows nothing of itself.
pub open spec fn rendered(digits: Digits, t: Term) -> Seq<char>
    decreases t, 0nat,
{
    match t {
        Term::Symbol(name) => name,
        Term::Number(n) => digits(n),
        Term::Text(text) => text,
        Term::List(items) => "("@ + joined(digits, items, items.len()) + ")"@,
        Term::Print(inner) => "display "@ + rendered(digits, *inner),
        Term::Func(_) => "Function {}"@,
        Term::Let(name, value) => "let "@ + name + " = "@ + rendered(digits, *value),
        Term::Assign(name, value) => name + " = "@ + rendered(digits, *value),
        Term::If(cond, then_branch, else_branch) => "if "@ + rendered(digits, *cond) + " { "@
            + rendered(digits, *then_branch) + " } else { "@ + rendered(digits, *else_branch)
            + " }"@,
        Term::Op(op, left, right) => rendered(digits, *left) + " "@ + op + " "@ + rendered(
            digits,
            *right,
        ),
    }
}

/// The texts of the first `n` of `items`, with a comma between each two.
pub open spec fn joined(digits: Digits, items: Seq<Term>, n: nat) -> Seq<char>
    decreases items, n,
{
    if n == 0 || n > items.len() {
        Seq::empty()
    } else if n == 1 {
        rendered(digits, items[0])
    } else {
        joined(digits, items, (n - 1) as nat) + ","@ + rendered(digits, items[n - 1])
    }
}

impl FlareLangExp {
    /// The text of the expression, with numbers written by `show`.
    pub fn render<S: Fn(u64) -> String>(&self, show: &S) -> (r: String)
        requires
            shows_all(show),
        ensures
            forall|digits: Digits| #[trigger] shows_as(show, digits) ==> r@ == rendered(digits, self@),
        decreases self,
    {
        match self {
            FlareLangExp::Symbol(name) => name.clone(),
            FlareLangExp::Number(n) => show(*n),
            FlareLangExp::String(text) => text.clone(),
            FlareLangExp::List(list) => {
                proof {
                    FlareLangExp::list_term(*list);
                }
                let ghost items = terms(list@);
                let mut inner = String::new();
                let mut i: usize = 0;
                while i < list.len()
                    invariant
                        shows_all(show),
                        self is List && self->List_0 == list,
                        items == terms(list@),
                        i <= list.len(),
                        forall|digits: Digits| #[trigger]
                            shows_as(show, digits) ==> inner@ == joined(digits, items, i as nat),
                    decreases list.len() - i,
                {
                    let ghost before = inner@;
                    if i > 0 {
                        inner.append(",");
                    }
                    let item = list[i].render(show);
                    inner.append(item.as_str());
                    proof {
                        assert forall|digits: Digits| #[trigger] shows_as(show, digits) implies inner@
                            == joined(digits, items, (i + 1) as nat) by {
                            if i == 0 {
                                assert(inner@ =~= rendered(digits, items[0]));
                            }
                        }
                    }
                    i += 1;
                }
                let mut text = String::from_str("(");
                text.append(inner.as_str());
                text.append(")");
                text
            },
            FlareLangExp::Print(inner) => {
                let mut text = String::from_str("display ");
                text.append(inner.render(show).as_str());
                text
            },
            FlareLangExp::Func(_) => String::from_str("Function {}"),
            FlareLangExp::Let(name, value) => {
                let mut text = String::from_str("let ");
                text.append(name.as_str());
                text.append(" = ");
                text.append(value.render(show).as_str());
                text
            },
            FlareLangExp::Assign(name, value) => {
                let mut text = name.clone();
                text.append(" = ");
                text.append(value.render(show).as_str());
                text
            },
            FlareLangExp::If(cond, then_branch, else_branch) => {
                let mut text = String::from_str("if ");
                text.append(cond.render(show).as_str());
                text.append(" { ");
                text.append(then_branch.render(show).as_str());
                text.append(" } else { ");
                text.append(else_branch.render(show).as_str());
                text.append(" }");
                text
            },
            FlareLangExp::Op(op, left, right) => {
                let mut text = left.render(show);
                text.append(" ");
                text.append(op.as_str());
                text.append(" ");
                text.append(right.render(show).as_str());
                text
            },
        }
    }
}

} // verus!
