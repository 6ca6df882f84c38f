//! What evaluation means, over the model.
//!
//! `elaborate` does the part of evaluating one expression that needs no
//! sub-expression evaluated, and says what is still to be evaluated. `eval`
//! is the meaning of the recursive strategy, with a bound on how deep calls
//! may nest.

use crate::model::{scope_bind, scope_child, scope_lookup};
use crate::model::{ErrorView, ExprView, Scope, ValView};
use vstd::prelude::*;

verus! {

/// What to do with a value once it is known: the view of a
/// [`crate::hmm_eval::Callback`].
pub enum CallbackView {
    /// Hand the value on as it is.
    Return,
    /// The value is the function of a call: evaluate the argument next.
    Argument { arg: Box<ExprView>, ns: Scope },
    /// The value is the argument of a call: apply `fun` to it.
    Apply { fun: ValView },
}

/// The outcome of one elaboration: the view of a [`crate::hmm_eval::Thunk`].
pub enum ThunkView {
    Done(Result<ValView, ErrorView>),
    NeedElaboration(ExprView, Scope, CallbackView),
}

/// One level of evaluation: literals, names and lambdas are finished at
/// once; a call asks for its function first.
pub open spec fn elaborate(expr: ExprView, ns: Scope) -> ThunkView {
    match expr {
        ExprView::Put(v) => ThunkView::Done(Ok(v)),
        ExprView::Name(name) => ThunkView::Done(
            match scope_lookup(ns, name) {
                Some(v) => Ok(v),
                None => Err(ErrorView::UndefinedName(name)),
            },
        ),
        ExprView::Lam { argname, body } => ThunkView::Done(
            Ok(ValView::UserFn { argname, body, ns: scope_child(ns) }),
        ),
        ExprView::Call { func, arg } => ThunkView::NeedElaboration(
            *func,
            ns,
            CallbackView::Argument { arg, ns },
        ),
    }
}

/// The scope in which the body of a closure runs: a child of the captured
/// scope, with the parameter bound to the argument.
pub open spec fn call_scope(captured: Scope, argname: Seq<char>, arg: ValView) -> Scope {
    scope_bind(scope_child(captured), argname, arg)
}

/// The error of calling `fun`, where `fun` is no function.
pub open spec fn not_callable(fun: ValView) -> Option<ErrorView> {
    match fun {
        ValView::Int(_) => Some(ErrorView::TypeMismatch("Cannot call integer"@)),
        ValView::Str(_) => Some(ErrorView::TypeMismatch("Cannot call string"@)),
        ValView::Vec(_) => Some(ErrorView::TypeMismatch("Cannot call vec"@)),
        ValView::Builtin(_, _) => None,
        ValView::UserFn { .. } => None,
    }
}

/// Application, one level deep: a closure elaborates its body in its call
/// scope, and a value that is no function is an error. What a native
/// function answers is up to that function: the model says `None`.
pub open spec fn apply(fun: ValView, arg: ValView) -> Option<ThunkView> {
    match fun {
        ValView::UserFn { argname, body, ns } => Some(
            elaborate(*body, call_scope(ns, argname, arg)),
        ),
        ValView::Builtin(_, _) => None,
        _ => Some(ThunkView::Done(Err(not_callable(fun).unwrap()))),
    }
}

/// What a callback answers when it is given the value it waited for; `None`
/// where a native function decides.
pub open spec fn resume(callback: CallbackView, value: ValView) -> Option<ThunkView> {
    match callback {
        CallbackView::Return => Some(ThunkView::Done(Ok(value))),
        CallbackView::Argument { arg, ns } => Some(
            ThunkView::NeedElaboration(*arg, ns, CallbackView::Apply { fun: value }),
        ),
        CallbackView::Apply { fun } => apply(fun, value),
    }
}

/// How a recursive evaluation ends.
pub enum Outcome {
    /// With a value or an error.
    Done(Result<ValView, ErrorView>),
    /// Calls nested deeper than the bound allowed.
    OutOfFuel,
    /// A native function was called: the model does not say what follows.
    Native,
}

/// The recursive strategy: function first, then argument, then the body of
/// the closure. `fuel` bounds how deep calls may nest.
pub open spec fn eval(fuel: nat, expr: ExprView, ns: Scope) -> Outcome
    decreases fuel, 0nat,
{
    match expr {
        ExprView::Call { func, arg } => if fuel == 0 {
            Outcome::OutOfFuel
        } else {
            match eval((fuel - 1) as nat, *func, ns) {
                Outcome::Done(Ok(fun)) => match eval((fuel - 1) as nat, *arg, ns) {
                    Outcome::Done(Ok(argval)) => eval_call((fuel - 1) as nat, fun, argval),
                    other => other,
                },
                other => other,
            }
        },
        ExprView::Put(v) => Outcome::Done(Ok(v)),
        ExprView::Name(name) => Outcome::Done(
            match scope_lookup(ns, name) {
                Some(v) => Ok(v),
                None => Err(ErrorView::UndefinedName(name)),
            },
        ),
        ExprView::Lam { argname, body } => Outcome::Done(
            Ok(ValView::UserFn { argname, body, ns: scope_child(ns) }),
        ),
    }
}

/// The recursive strategy applied to a function value and its argument.
pub open spec fn eval_call(fuel: nat, fun: ValView, arg: ValView) -> Outcome
    decreases fuel, 1nat,
{
    match fun {
        ValView::UserFn { argname, body, ns } => eval(fuel, *body, call_scope(ns, argname, arg)),
        ValView::Builtin(_, _) => Outcome::Native,
        _ => Outcome::Done(Err(not_callable(fun).unwrap())),
    }
}

/// The recursive strategy carrying out a thunk: a finished thunk is its
/// result; a request is met by evaluating its expression and resuming its
/// callback with the value, and what the callback answers is carried out in
/// turn. An error, or the bound reached, while the expression is evaluated
/// ends it there. `fuel` bounds how many requests may follow one another.
pub open spec fn force(fuel: nat, thunk: ThunkView) -> Outcome
    decreases fuel,
{
    match thunk {
        ThunkView::Done(result) => Outcome::Done(result),
        ThunkView::NeedElaboration(need, ns, callback) => if fuel == 0 {
            Outcome::OutOfFuel
        } else {
            match eval((fuel - 1) as nat, need, ns) {
                Outcome::Done(Ok(value)) => match resume(callback, value) {
                    Some(next) => force((fuel - 1) as nat, next),
                    None => Outcome::Native,
                },
                other => other,
            }
        },
    }
}

/// An expression that is no call is finished by one elaboration, and the
/// recursive strategy gives the same answer at any depth.
pub proof fn lemma_eval_leaf(fuel: nat, expr: ExprView, ns: Scope)
    requires
        !(expr is Call),
    ensures
        elaborate(expr, ns) is Done,
        eval(fuel, expr, ns) == Outcome::Done(elaborate(expr, ns)->Done_0),
{
}

/// More fuel changes no answer that was reached: an evaluation that ended
/// with a value, an error or a native call ends the same way under any
/// larger bound.
pub proof fn lemma_eval_monotonic(fuel: nat, more: nat, expr: ExprView, ns: Scope)
    requires
        fuel <= more,
        !(eval(fuel, expr, ns) is OutOfFuel),
    ensures
        eval(more, expr, ns) == eval(fuel, expr, ns),
    decreases fuel, 0nat,
{
    match expr {
        ExprView::Call { func, arg } => {
            let f1 = (fuel - 1) as nat;
            let m1 = (more - 1) as nat;
            lemma_eval_monotonic(f1, m1, *func, ns);
            match eval(f1, *func, ns) {
                Outcome::Done(Ok(fun)) => {
                    lemma_eval_monotonic(f1, m1, *arg, ns);
                    match eval(f1, *arg, ns) {
                        Outcome::Done(Ok(argval)) => {
                            lemma_eval_call_monotonic(f1, m1, fun, argval);
                        },
                        _ => {},
                    }
                },
                _ => {},
            }
        },
        _ => {},
    }
}

/// More fuel changes no answer that an application reached.
pub proof fn lemma_eval_call_monotonic(fuel: nat, more: nat, fun: ValView, arg: ValView)
    requires
        fuel <= more,
        !(eval_call(fuel, fun, arg) is OutOfFuel),
    ensures
        eval_call(more, fun, arg) == eval_call(fuel, fun, arg),
    decreases fuel, 1nat,
{
    match fun {
        ValView::UserFn { argname, body, ns } => {
            lemma_eval_monotonic(fuel, more, *body, call_scope(ns, argname, arg));
        },
        _ => {},
    }
}

} // verus!
