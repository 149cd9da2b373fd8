//! Expressions, which are also the values that evaluation yields.

use vstd::prelude::*;

verus! {

/// The procedures that an environment is seeded with.
#[derive(Clone, Copy, Debug, PartialEq, Eq, Structural)]
pub enum Builtin {
    /// The sum of all arguments; zero for none.
    Sum,
    /// The first argument less the sum of the others.
    Difference,
}

/// A node of the syntax tree. `Number`, `String` and `Func` are values:
/// evaluation ends in one of them.
#[derive(Debug)]
pub enum FlareLangExp {
    /// A name, looked up when evaluated.
    Symbol(String),
    /// A number, as the bits of a double.
    Number(u64),
    /// A text.
    String(String),
    /// A call form: a head that evaluates to a procedure, then its arguments.
    List(Vec<FlareLangExp>),
    /// `display`: evaluates the inner expression and emits it.
    Print(Box<FlareLangExp>),
    /// A built-in procedure.
    Func(Builtin),
    /// Declares or overwrites a binding.
    Let(String, Box<FlareLangExp>),
    /// Updates a binding that exists.
    Assign(String, Box<FlareLangExp>),
    /// Condition, then-branch, else-branch.
    If(Box<FlareLangExp>, Box<FlareLangExp>, Box<FlareLangExp>),
    /// Operator, left operand, right operand.
    Op(String, Box<FlareLangExp>, Box<FlareLangExp>),
}

/// The mathematical value of a [`FlareLangExp`].
pub enum Term {
    Symbol(Seq<char>),
    Number(u64),
    Text(Seq<char>),
    List(Seq<Term>),
    Print(Box<Term>),
    Func(Builtin),
    Let(Seq<char>, Box<Term>),
    Assign(Seq<char>, Box<Term>),
    If(Box<Term>, Box<Term>, Box<Term>),
    Op(Seq<char>, Box<Term>, Box<Term>),
}

impl View for FlareLangExp {
    type V = Term;

    open spec fn view(&self) -> Term {
        self.term()
    }
}

/// The terms of a sequence of expressions, one for one.
pub open spec fn terms(s: Seq<FlareLangExp>) -> Seq<Term> {
    Seq::new(s.len(), |i: int| s[i]@)
}

impl FlareLangExp {
    /// The term that this expression stands for.
    pub open spec fn term(&self) -> Term
        decreases self,
    {
        match self {
            FlareLangExp::Symbol(s) => Term::Symbol(s@),
            FlareLangExp::Number(n) => Term::Number(*n),
            FlareLangExp::String(s) => Term::Text(s@),
            FlareLangExp::List(v) => Term::List(
                Seq::new(
                    v@.len(),
                    |i: int|
                        if 0 <= i < v@.len() {
                            v@[i].term()
                        } else {
                            Term::Number(0)
                        },
                ),
            ),
            FlareLangExp::Print(e) => Term::Print(Box::new(e.term())),
            FlareLangExp::Func(b) => Term::Func(*b),
            FlareLangExp::Let(n, e) => Term::Let(n@, Box::new(e.term())),
            FlareLangExp::Assign(n, e) => Term::Assign(n@, Box::new(e.term())),
            FlareLangExp::If(c, t, e) => Term::If(
                Box::new(c.term()),
                Box::new(t.term()),
                Box::new(e.term()),
            ),
            FlareLangExp::Op(o, l, r) => Term::Op(o@, Box::new(l.term()), Box::new(r.term())),
        }
    }

    /// A call form stands for the list of its items' terms.
    pub proof fn list_term(v: Vec<FlareLangExp>)
        ensures
            FlareLangExp::List(v)@ == Term::List(terms(v@)),
    {
        assert(FlareLangExp::List(v).term()->List_0 =~= terms(v@));
    }

    /// A copy of the expression: it stands for the same term.
    pub fn duplicate(&self) -> (r: FlareLangExp)
        ensures
            r@ == self@,
        decreases self,
    {
        match self {
            FlareLangExp::Symbol(s) => FlareLangExp::Symbol(s.clone()),
            FlareLangExp::Number(n) => FlareLangExp::Number(*n),
            FlareLangExp::String(s) => FlareLangExp::String(s.clone()),
            FlareLangExp::List(v) => {
                let mut items: Vec<FlareLangExp> = Vec::new();
                let mut i: usize = 0;
                while i < v.len()
                    invariant
                        i <= v.len(),
                        self is List && self->List_0 == v,
                        items.len() == i,
                        forall|j: int| 0 <= j < i ==> items@[j]@ == v@[j]@,
                    decreases v.len() - i,
                {
                    items.push(v[i].duplicate());
                    i += 1;
                }
                proof {
                    assert(terms(items@) =~= terms(v@));
                    Self::list_term(items);
                    Self::list_term(*v);
                }
                FlareLangExp::List(items)
            },
            FlareLangExp::Print(e) => FlareLangExp::Print(Box::new(e.duplicate())),
            FlareLangExp::Func(b) => FlareLangExp::Func(*b),
            FlareLangExp::Let(n, e) => FlareLangExp::Let(n.clone(), Box::new(e.duplicate())),
            FlareLangExp::Assign(n, e) => FlareLangExp::Assign(n.clone(), Box::new(e.duplicate())),
            FlareLangExp::If(c, t, e) => FlareLangExp::If(
                Box::new(c.duplicate()),
                Box::new(t.duplicate()),
                Box::new(e.duplicate()),
            ),
            FlareLangExp::Op(o, l, r) => FlareLangExp::Op(
                o.clone(),
                Box::new(l.duplicate()),
                Box::new(r.duplicate()),
            ),
        }
    }
}

impl Clone for FlareLangExp {
    fn clone(&self) -> (r: Self)
        ensures
            r@ == self@,
    {
        self.duplicate()
    }
}

} // verus!
