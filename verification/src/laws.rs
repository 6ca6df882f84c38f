//! The two strategies agree.
//!
//! The stepping machine reports a value or an error exactly when the
//! recursive strategy ends with it at some depth: it then reports nothing
//! for finitely many steps and that result once. Where the recursive
//! strategy runs out of fuel, the machine is still silently at work after as
//! many steps; where it calls a native function, so does the machine.

use crate::machine::{lemma_run_add, lemma_run_one, lemma_run_prefix_silent};
use crate::machine::{machine_start, popped, run, settle, step_spec, taken};
use crate::machine::{Config, EntryView, Machine, StepView};
use crate::model::{ErrorView, ExprView, Scope, ValView};
use crate::semantics::{apply, call_scope, elaborate, eval, eval_call, not_callable, resume};
use crate::semantics::{CallbackView, Outcome, ThunkView};
use vstd::prelude::*;

verus! {

/// A machine between two steps: no work item is pending, and no marker on
/// the blackboard is beyond the last one given out.
pub open spec fn at_rest(m: Machine) -> bool {
    &&& m.steps.len() == 0
    &&& forall|marker: nat| m.blackboard.contains_key(marker) ==> marker <= m.last_marker
}

/// `c` is a configuration in which the machine has reported nothing and has
/// work left.
pub open spec fn at_work(c: Option<Config>) -> bool {
    c matches Some((next, None)) && next.steps.len() > 0
}

/// `c` is where a machine stands once a computation on top of `m`, whose
/// value is owed to `target`, has gone the way of `outcome`.
///
/// After a value: the blackboard is that of `m`, and the one work item
/// delivers the value to `target`. After an error: the error is reported and
/// no work is left. Out of fuel: the machine is at work, `n >= fuel` steps
/// on. At a native call: the machine is at work, and its next step is the
/// call.
pub open spec fn follows(
    c: Option<Config>,
    n: nat,
    m: Machine,
    target: Option<nat>,
    fuel: nat,
    outcome: Outcome,
) -> bool {
    match outcome {
        Outcome::Done(Ok(v)) => {
            &&& c matches Some((next, None))
            &&& next.steps == seq![StepView::Deliver(target, v)]
            &&& next.blackboard == m.blackboard
            &&& next.last_marker >= m.last_marker
        },
        Outcome::Done(Err(e)) => {
            &&& c matches Some((next, Some(Err(err))))
            &&& err == e
            &&& next.steps.len() == 0
        },
        Outcome::OutOfFuel => n >= fuel && at_work(c),
        Outcome::Native => at_work(c) && step_spec(c.unwrap().0) is None,
    }
}

/// The step that elaborates a fresh entry for `expr`, requested on top of a
/// machine at rest.
proof fn lemma_enter(
    m: Machine,
    expr: ExprView,
    ns: Scope,
    callback: CallbackView,
    target: Option<nat>,
)
    requires
        at_rest(m),
    ensures
        ({
            let asked = settle(m, ThunkView::NeedElaboration(expr, ns, callback), target);
            let marker = m.last_marker + 1;
            &&& at_work(Some(asked))
            &&& at_rest(popped(asked.0))
            &&& popped(asked.0).last_marker == marker
            &&& popped(asked.0).blackboard == m.blackboard.insert(
                marker,
                EntryView { need: expr, ns, callback, parent: target },
            )
            &&& run(asked, 1) == Some(settle(popped(asked.0), elaborate(expr, ns), Some(marker)))
        }),
{
    let asked = settle(m, ThunkView::NeedElaboration(expr, ns, callback), target);
    assert(m.steps =~= Seq::empty());
    assert(popped(asked.0).steps =~= Seq::empty());
    lemma_run_one(asked.0);
}

/// The step that delivers `value` to the entry under `marker`, the newest on
/// the blackboard: the entry leaves, and what its callback answers is
/// settled for the parent of the entry. Where a native function decides what
/// the callback answers, the step is not determined.
proof fn lemma_deliver(
    m: Machine,
    board: Map<nat, EntryView>,
    marker: nat,
    entry: EntryView,
    value: ValView,
)
    requires
        m.steps == seq![StepView::Deliver(Some(marker), value)],
        m.blackboard == board.insert(marker, entry),
        !board.contains_key(marker),
        marker <= m.last_marker,
        forall|k: nat| board.contains_key(k) ==> k <= m.last_marker,
    ensures
        at_rest(taken(m)),
        taken(m).blackboard == board,
        taken(m).last_marker == m.last_marker,
        resume(entry.callback, value) matches Some(thunk) ==> run((m, None), 1) == Some(
            settle(taken(m), thunk, entry.parent),
        ),
        resume(entry.callback, value) is None ==> step_spec(m) is None,
{
    assert(taken(m).blackboard =~= board);
    assert(taken(m).steps =~= Seq::empty());
    lemma_run_one(m);
}

/// The heart of the agreement. Let a machine at rest settle the elaboration
/// of `expr`, with the value owed to `target`. Then `n` steps later the
/// machine stands where the recursive strategy on `expr` says: about to
/// deliver the value to `target`, with its blackboard as it was; or having
/// reported the error; or still at work, `n >= fuel` steps on; or at the
/// native call.
pub proof fn lemma_elaboration_runs(
    fuel: nat,
    expr: ExprView,
    ns: Scope,
    m: Machine,
    target: Option<nat>,
) -> (n: nat)
    requires
        at_rest(m),
    ensures
        follows(
            run(settle(m, elaborate(expr, ns), target), n),
            n,
            m,
            target,
            fuel,
            eval(fuel, expr, ns),
        ),
    decreases fuel, 0nat,
{
    let start = settle(m, elaborate(expr, ns), target);
    assert(m.steps =~= Seq::empty());
    match expr {
        ExprView::Call { func, arg } => {
            // The function of the call gets an entry of its own.
            let wait_fun = CallbackView::Argument { arg, ns };
            lemma_enter(m, *func, ns, wait_fun, target);
            if fuel == 0 {
                return 0;
            }
            let f1 = (fuel - 1) as nat;
            let m1 = popped(start.0);
            let k1 = m.last_marker + 1;
            let e1 = EntryView { need: *func, ns, callback: wait_fun, parent: target };
            let c1 = settle(m1, elaborate(*func, ns), Some(k1));
            let n1 = lemma_elaboration_runs(f1, *func, ns, m1, Some(k1));
            lemma_run_add(start, 1, n1);
            match eval(f1, *func, ns) {
                Outcome::Done(Ok(fun)) => {
                    // Its value is delivered; the argument gets an entry.
                    let c2 = run(c1, n1).unwrap();
                    lemma_deliver(c2.0, m.blackboard, k1, e1, fun);
                    let m2 = taken(c2.0);
                    let wait_arg = CallbackView::Apply { fun };
                    lemma_enter(m2, *arg, ns, wait_arg, target);
                    let c3 = settle(m2, ThunkView::NeedElaboration(*arg, ns, wait_arg), target);
                    lemma_run_add(start, 1 + n1, 1);
                    let m3 = popped(c3.0);
                    let k2 = m2.last_marker + 1;
                    let e2 = EntryView { need: *arg, ns, callback: wait_arg, parent: target };
                    let c4 = settle(m3, elaborate(*arg, ns), Some(k2));
                    lemma_run_add(start, 2 + n1, 1);
                    let n2 = lemma_elaboration_runs(f1, *arg, ns, m3, Some(k2));
                    lemma_run_add(start, 3 + n1, n2);
                    match eval(f1, *arg, ns) {
                        Outcome::Done(Ok(argval)) => {
                            // The argument is delivered: the call is made.
                            let c5 = run(c4, n2).unwrap();
                            lemma_deliver(c5.0, m.blackboard, k2, e2, argval);
                            assert(eval(fuel, expr, ns) == eval_call(f1, fun, argval));
                            match apply(fun, argval) {
                                Some(thunk) => {
                                    let m4 = taken(c5.0);
                                    lemma_run_add(start, 3 + n1 + n2, 1);
                                    let n3 = lemma_application_runs(f1, fun, argval, m4, target);
                                    lemma_run_add(start, 4 + n1 + n2, n3);
                                    4 + n1 + n2 + n3
                                },
                                None => 3 + n1 + n2,
                            }
                        },
                        _ => 3 + n1 + n2,
                    }
                },
                _ => 1 + n1,
            }
        },
        _ => 0,
    }
}

/// The same for an application that the model determines: a machine at rest
/// settles what applying `fun` to `arg` answers.
pub proof fn lemma_application_runs(
    fuel: nat,
    fun: ValView,
    arg: ValView,
    m: Machine,
    target: Option<nat>,
) -> (n: nat)
    requires
        at_rest(m),
        apply(fun, arg) is Some,
    ensures
        follows(
            run(settle(m, apply(fun, arg).unwrap(), target), n),
            n,
            m,
            target,
            fuel,
            eval_call(fuel, fun, arg),
        ),
    decreases fuel, 1nat,
{
    assert(m.steps =~= Seq::empty());
    match fun {
        ValView::UserFn { argname, body, ns } => lemma_elaboration_runs(
            fuel,
            *body,
            call_scope(ns, argname, arg),
            m,
            target,
        ),
        _ => 0,
    }
}

/// How the machine that starts on `expr` runs, by how the recursive strategy
/// ends on `expr` with `fuel`: `n` steps from the start it has reported that
/// value or error and has no work left; or it is still at work, `n >= fuel`
/// steps on; or it is at work and its next step is the native call.
pub proof fn lemma_start_runs(fuel: nat, expr: ExprView, ns: Scope) -> (n: nat)
    ensures
        match eval(fuel, expr, ns) {
            Outcome::Done(result) => {
                &&& n >= 1
                &&& run((machine_start(expr, ns), None), n) matches Some((end, report))
                &&& report == Some(result)
                &&& end.steps.len() == 0
            },
            Outcome::OutOfFuel => n >= fuel && at_work(run((machine_start(expr, ns), None), n)),
            Outcome::Native => {
                &&& at_work(run((machine_start(expr, ns), None), n))
                &&& step_spec(run((machine_start(expr, ns), None), n).unwrap().0) is None
            },
        },
{
    let m0 = machine_start(expr, ns);
    let c0: Config = (m0, None);
    let root = EntryView { need: expr, ns, callback: CallbackView::Return, parent: None };
    let board = Map::<nat, EntryView>::empty();
    assert(m0.blackboard =~= board.insert(0, root));
    let rest = popped(m0);
    assert(rest.steps =~= Seq::empty());
    lemma_run_one(m0);
    let c1 = settle(rest, elaborate(expr, ns), Some(0nat));
    assert(run(c0, 1) == Some(c1));
    let n1 = lemma_elaboration_runs(fuel, expr, ns, rest, Some(0nat));
    lemma_run_add(c0, 1, n1);
    match eval(fuel, expr, ns) {
        Outcome::Done(Ok(v)) => {
            // The value goes to the entry of the program, and from there out.
            let c2 = run(c1, n1).unwrap();
            lemma_deliver(c2.0, board, 0, root, v);
            let c3 = settle(taken(c2.0), ThunkView::Done(Ok(v)), None);
            lemma_run_add(c0, 1 + n1, 1);
            assert(c3.0.steps =~= seq![StepView::Deliver(None, v)]);
            lemma_run_one(c3.0);
            lemma_run_add(c0, 2 + n1, 1);
            3 + n1
        },
        _ => 1 + n1,
    }
}

/// The stepping strategy follows the recursive one, and ends.
///
/// If the recursive strategy ends on `expr` in `ns`, at some depth, with a
/// value or an error, then the machine that starts on `expr` in `ns` takes
/// `n` steps: each of the first `n - 1` reports nothing and leaves work, and
/// the last reports that same value or error and leaves no work, so that no
/// further step can be taken.
pub proof fn theorem_stepping_agrees(fuel: nat, expr: ExprView, ns: Scope) -> (n: nat)
    requires
        eval(fuel, expr, ns) is Done,
    ensures
        n >= 1,
        run((machine_start(expr, ns), None), n) matches Some((end, report)) && report == Some(
            eval(fuel, expr, ns)->Done_0,
        ) && end.steps.len() == 0,
        forall|i: nat| i < n ==> at_work(#[trigger] run((machine_start(expr, ns), None), i)),
        forall|i: nat| i > n ==> (#[trigger] run((machine_start(expr, ns), None), i)) is None,
{
    let c0: Config = (machine_start(expr, ns), None);
    let n = lemma_start_runs(fuel, expr, ns);
    assert forall|i: nat| i < n implies at_work(#[trigger] run(c0, i)) by {
        lemma_run_prefix_silent(c0, n, i);
    }
    assert forall|i: nat| i > n implies (#[trigger] run(c0, i)) is None by {
        if run(c0, i) is Some {
            lemma_run_prefix_silent(c0, i, n);
        }
    }
    n
}

/// The recursive strategy follows the stepping one.
///
/// If the machine that starts on `expr` in `ns` reports a value or an error
/// at its `n`-th step, then the recursive strategy ends on `expr` in `ns`
/// with that same value or error, at depth `fuel`.
pub proof fn theorem_direct_agrees(
    expr: ExprView,
    ns: Scope,
    n: nat,
    result: Result<ValView, ErrorView>,
) -> (fuel: nat)
    requires
        run((machine_start(expr, ns), None), n) matches Some((_, report)) && report == Some(
            result,
        ),
    ensures
        eval(fuel, expr, ns) == Outcome::Done(result),
{
    let c0: Config = (machine_start(expr, ns), None);
    let fuel = n + 1;
    let k = lemma_start_runs(fuel, expr, ns);
    if k < n {
        lemma_run_prefix_silent(c0, n, k);
        if eval(fuel, expr, ns) is Native {
            // The machine cannot have gone past the native call.
            if k + 1 < n {
                lemma_run_prefix_silent(c0, n, k + 1);
            }
            assert(run(c0, k + 1) is Some);
            assert(run(c0, k + 1) == step_spec(run(c0, k).unwrap().0));
        }
    } else if k > n {
        lemma_run_prefix_silent(c0, k, n);
    }
    fuel
}

/// Calling a value that is no function is a type mismatch under either
/// strategy, whatever the argument is: the recursive strategy ends with that
/// error, and the stepping machine reports it after finitely many steps.
pub proof fn lemma_call_of_non_function(
    fuel: nat,
    func: ExprView,
    arg: ExprView,
    ns: Scope,
    fun: ValView,
    argval: ValView,
) -> (n: nat)
    requires
        eval(fuel, func, ns) == Outcome::Done(Ok(fun)),
        eval(fuel, arg, ns) == Outcome::Done(Ok(argval)),
        fun is Int || fun is Str || fun is Vec,
    ensures
        not_callable(fun) matches Some(ErrorView::TypeMismatch(_)),
        apply(fun, argval) == Some(ThunkView::Done(Err(not_callable(fun).unwrap()))),
        eval(fuel + 1, ExprView::Call { func: Box::new(func), arg: Box::new(arg) }, ns)
            == Outcome::Done(Err(not_callable(fun).unwrap())),
        ({
            let call = ExprView::Call { func: Box::new(func), arg: Box::new(arg) };
            let failure: Result<ValView, ErrorView> = Err(not_callable(fun).unwrap());
            run((machine_start(call, ns), None), n) matches Some((_, report)) && report == Some(
                failure,
            )
        }),
{
    let call = ExprView::Call { func: Box::new(func), arg: Box::new(arg) };
    let failure: Result<ValView, ErrorView> = Err(not_callable(fun).unwrap());
    assert(eval_call(fuel, fun, argval) == Outcome::Done(failure));
    assert(((fuel + 1) - 1) as nat == fuel);
    assert(eval(fuel + 1, call, ns) == eval_call(fuel, fun, argval));
    theorem_stepping_agrees(fuel + 1, call, ns)
}

} // verus!
