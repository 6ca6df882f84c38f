//! Direct evaluation strategy. A dead simple recursive tree walker.
//!
//! Just call [`direct_eval`] with an expression, the built-in namespace and a
//! bound on how deep calls may nest, and before you know it you get the
//! result.

use crate::base::{result_view, share, EvalError, EvalResult};
use crate::hmm_eval::Thunk;
use crate::semantics::{eval, eval_call, force, Outcome};
use std::rc::Rc;
use vstd::prelude::*;

verus! {

pub type Val = crate::base::Val;

pub type Expr = crate::base::Expr;

pub type Ns = crate::base::Ns;

pub type Builtin = crate::hmm_eval::Builtin;

/// How a bounded evaluation ended: with a result, or out of fuel.
pub open spec fn outcome_of(r: Option<EvalResult>) -> Outcome {
    match r {
        Some(result) => Outcome::Done(result_view(result)),
        None => Outcome::OutOfFuel,
    }
}

/// Evaluates `expr` in `ns` by recursion: the function of a call first, then
/// its argument, then the body of the closure.
///
/// `fuel` bounds how deep calls may nest; `None` says that the bound was
/// reached. Unless a native function is called, the answer is that of
/// [`eval`].
pub fn direct_eval(expr: Rc<Expr>, ns: Rc<Ns>, fuel: u64) -> (r: Option<EvalResult>)
    ensures
        !(eval(fuel as nat, expr@, ns@) is Native) ==> outcome_of(r) == eval(
            fuel as nat,
            expr@,
            ns@,
        ),
    decreases fuel, 0nat,
{
    match &*expr {
        Expr::Put(val) => Some(Ok(share(val))),
        Expr::Name(name) => Some(
            match ns.lookup(share(name)) {
                Some(v) => Ok(v),
                None => Err(EvalError::UndefinedName((**name).clone())),
            },
        ),
        Expr::Call { func, arg } => {
            if fuel == 0 {
                return None;
            }
            let func = match direct_eval(share(func), share(&ns), fuel - 1) {
                Some(Ok(v)) => v,
                other => {
                    return other;
                },
            };
            let arg = match direct_eval(share(arg), ns, fuel - 1) {
                Some(Ok(v)) => v,
                other => {
                    return other;
                },
            };
            direct_call(func, arg, fuel - 1)
        },
        Expr::Lam { argname, body } => Some(
            Ok(
                Rc::new(
                    Val::UserFn { argname: share(argname), body: share(body), ns: Rc::new(ns.child()) },
                ),
            ),
        ),
    }
}

/// Applies a function value to an argument, to the end.
fn direct_call(fun: Rc<Val>, arg: Rc<Val>, fuel: u64) -> (r: Option<EvalResult>)
    ensures
        !(eval_call(fuel as nat, fun@, arg@) is Native) ==> outcome_of(r) == eval_call(
            fuel as nat,
            fun@,
            arg@,
        ),
    decreases fuel, 2nat,
{
    match &*fun {
        Val::Builtin(_, f) => direct_force(f.invoke(arg), fuel),
        Val::UserFn { argname, body, ns: closure } => {
            let local_scope = share(closure).child().update(share(argname), arg);
            direct_eval(share(body), Rc::new(local_scope), fuel)
        },
        Val::Int(_) => Some(Err(EvalError::TypeMismatch("Cannot call integer"))),
        Val::Str(_) => Some(Err(EvalError::TypeMismatch("Cannot call string"))),
        Val::Vec(_) => Some(Err(EvalError::TypeMismatch("Cannot call vec"))),
    }
}

/// Carries out what a native function asked for: evaluates the expression
/// of the thunk and resumes its callback, until a result is there.
fn direct_force(thunk: Thunk, fuel: u64) -> (r: Option<EvalResult>)
    ensures
        !(force(fuel as nat, thunk@) is Native) ==> outcome_of(r) == force(fuel as nat, thunk@),
    decreases fuel, 1nat,
{
    match thunk {
        Thunk::Done(result) => Some(result),
        Thunk::NeedElaboration(need, ns, callback) => {
            if fuel == 0 {
                return None;
            }
            match direct_eval(need, ns, fuel - 1) {
                Some(Ok(v)) => direct_force(callback.resume(v), fuel - 1),
                other => other,
            }
        },
    }
}

} // verus!
