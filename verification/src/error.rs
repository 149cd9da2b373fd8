//! The errors of the parser and of the evaluator.

use vstd::prelude::*;
use vstd::string::StringExecFns;

verus! {

/// Why a parse or an evaluation failed. Each kind carries its reason as text.
#[derive(Debug)]
pub enum FlareLangErr {
    /// The token sequence ended where a token was required, or a token that
    /// the grammar demands was not there.
    SyntaxError(String),
    /// A symbol was looked up that has no binding.
    UnboundSymbol(String),
    /// An assignment named a variable that was never declared.
    UndefinedVariable(String),
    /// A call form without any item.
    EmptyForm(String),
    /// The head of a call form did not evaluate to a procedure.
    NotCallable(String),
    /// A procedure stood where an expression to evaluate was expected.
    UnexpectedCallable(String),
    /// A number was required and something else was found, or nothing.
    TypeMismatch(String),
    /// The right operand of a division was zero.
    DivisionByZero(String),
    /// An operator other than `+`, `-`, `*`, `/`.
    UnknownOperator(String),
}

/// The mathematical value of a [`FlareLangErr`].
pub enum Fault {
    SyntaxError(Seq<char>),
    UnboundSymbol(Seq<char>),
    UndefinedVariable(Seq<char>),
    EmptyForm(Seq<char>),
    NotCallable(Seq<char>),
    UnexpectedCallable(Seq<char>),
    TypeMismatch(Seq<char>),
    DivisionByZero(Seq<char>),
    UnknownOperator(Seq<char>),
}

impl View for FlareLangErr {
    type V = Fault;

    open spec fn view(&self) -> Fault {
        match self {
            FlareLangErr::SyntaxError(s) => Fault::SyntaxError(s@),
            FlareLangErr::UnboundSymbol(s) => Fault::UnboundSymbol(s@),
            FlareLangErr::UndefinedVariable(s) => Fault::UndefinedVariable(s@),
            FlareLangErr::EmptyForm(s) => Fault::EmptyForm(s@),
            FlareLangErr::NotCallable(s) => Fault::NotCallable(s@),
            FlareLangErr::UnexpectedCallable(s) => Fault::UnexpectedCallable(s@),
            FlareLangErr::TypeMismatch(s) => Fault::TypeMismatch(s@),
            FlareLangErr::DivisionByZero(s) => Fault::DivisionByZero(s@),
            FlareLangErr::UnknownOperator(s) => Fault::UnknownOperator(s@),
        }
    }
}

impl Clone for FlareLangErr {
    fn clone(&self) -> (r: Self)
        ensures
            r@ == self@,
    {
        match self {
            FlareLangErr::SyntaxError(s) => FlareLangErr::SyntaxError(s.clone()),
            FlareLangErr::UnboundSymbol(s) => FlareLangErr::UnboundSymbol(s.clone()),
            FlareLangErr::UndefinedVariable(s) => FlareLangErr::UndefinedVariable(s.clone()),
            FlareLangErr::EmptyForm(s) => FlareLangErr::EmptyForm(s.clone()),
            FlareLangErr::NotCallable(s) => FlareLangErr::NotCallable(s.clone()),
            FlareLangErr::UnexpectedCallable(s) => FlareLangErr::UnexpectedCallable(s.clone()),
            FlareLangErr::TypeMismatch(s) => FlareLangErr::TypeMismatch(s.clone()),
            FlareLangErr::DivisionByZero(s) => FlareLangErr::DivisionByZero(s.clone()),
            FlareLangErr::UnknownOperator(s) => FlareLangErr::UnknownOperator(s.clone()),
        }
    }
}

impl Fault {
    /// The reason that the fault carries.
    pub open spec fn reason(self) -> Seq<char> {
        match self {
            Fault::SyntaxError(s) => s,
            Fault::UnboundSymbol(s) => s,
            Fault::UndefinedVariable(s) => s,
            Fault::EmptyForm(s) => s,
            Fault::NotCallable(s) => s,
            Fault::UnexpectedCallable(s) => s,
            Fault::TypeMismatch(s) => s,
            Fault::DivisionByZero(s) => s,
            Fault::UnknownOperator(s) => s,
        }
    }

    /// The fault of looking up the unbound symbol `name`.
    pub open spec fn unbound(name: Seq<char>) -> Fault {
        Fault::UnboundSymbol("unexpected symbol k='"@ + name + "'"@)
    }

    /// The fault of assigning to the undeclared variable `name`.
    pub open spec fn undefined(name: Seq<char>) -> Fault {
        Fault::UndefinedVariable("undefined variable for assignment: "@ + name)
    }
}

impl FlareLangErr {
    /// The reason of the error, as text for a reader.
    pub fn reason(&self) -> (r: String)
        ensures
            r@ == self@.reason(),
    {
        match self {
            FlareLangErr::SyntaxError(s) => s.clone(),
            FlareLangErr::UnboundSymbol(s) => s.clone(),
            FlareLangErr::UndefinedVariable(s) => s.clone(),
            FlareLangErr::EmptyForm(s) => s.clone(),
            FlareLangErr::NotCallable(s) => s.clone(),
            FlareLangErr::UnexpectedCallable(s) => s.clone(),
            FlareLangErr::TypeMismatch(s) => s.clone(),
            FlareLangErr::DivisionByZero(s) => s.clone(),
            FlareLangErr::UnknownOperator(s) => s.clone(),
        }
    }

    /// The error of looking up the unbound symbol `name`.
    pub fn unbound(name: &str) -> (e: FlareLangErr)
        ensures
            e@ == Fault::unbound(name@),
    {
        let mut text = String::from_str("unexpected symbol k='");
        text.append(name);
        text.append("'");
        FlareLangErr::UnboundSymbol(text)
    }

    /// The error of assigning to the undeclared variable `name`.
    pub fn undefined(name: &str) -> (e: FlareLangErr)
        ensures
            e@ == Fault::undefined(name@),
    {
        let mut text = String::from_str("undefined variable for assignment: ");
        text.append(name);
        FlareLangErr::UndefinedVariable(text)
    }

    /// A syntax error with the given reason.
    pub fn syntax(reason: &str) -> (e: FlareLangErr)
        ensures
            e@ == Fault::SyntaxError(reason@),
    {
        FlareLangErr::SyntaxError(String::from_str(reason))
    }
}

} // verus!
