//! Step-by-step evaluation strategy.
//!
//! "Hmm" stands for "Highly modular microprocedures".
//!
//! This primarily exists for when you want to execute a program
//! in small steps to limit for how long it should run, or how fast.
//! A host builds an [`HmmState`] and calls [`HmmState::step`] until it
//! reports the result; each call does one elaboration or one delivery.

use crate::base::{result_view, share, EvalError, EvalResult};
use crate::machine::{answer_target, machine_start, machine_wf, run, settle, step_is_native};
use crate::machine::{lemma_run_prefix_silent, lemma_settle_wf, lemma_start_wf, lemma_taken_linked};
use crate::machine::{step_spec, taken};
use crate::machine::{Config, EntryView, Machine, Report, StepView};
use crate::model::{ErrorView, ValView};
use crate::semantics::{apply, elaborate, resume, CallbackView, ThunkView};
use std::collections::HashMap;
use std::rc::Rc;
use vstd::prelude::*;

verus! {

broadcast use vstd::std_specs::hash::group_hash_axioms;

pub type Val = crate::base::Val;

pub type Expr = crate::base::Expr;

pub type Ns = crate::base::Ns;

/// A native function: an opaque capability that maps an argument to a
/// [`Thunk`], finished or asking for further elaboration.
#[verifier::external_body]
pub struct Builtin {
    f: Box<dyn Fn(Rc<Val>) -> Thunk>,
}

impl Builtin {
    /// The native function `f` as a value of the language.
    ///
    /// Trusted: `Box::new` of std, on a closure; nothing is claimed of it.
    #[verifier::external_body]
    pub fn new<F: Fn(Rc<Val>) -> Thunk + 'static>(f: F) -> Builtin {
        Builtin { f: Box::new(f) }
    }

    /// Calls the native function on `arg`.
    ///
    /// Trusted: the call of the boxed closure. The answer is up to the
    /// closure, so nothing is promised of it.
    #[verifier::external_body]
    pub(crate) fn invoke(&self, arg: Rc<Val>) -> Thunk {
        (self.f)(arg)
    }
}

/// What to do with a value once it is known. A callback is used up by the
/// one call that resumes it.
pub enum Callback {
    /// Hand the value on as it is.
    Return,
    /// The value is the function of a call: elaborate the argument next.
    Argument { arg: Rc<Expr>, ns: Rc<Ns> },
    /// The value is the argument of a call: apply `fun` to it.
    Apply { fun: Rc<Val> },
}

impl View for Callback {
    type V = CallbackView;

    open spec fn view(&self) -> CallbackView {
        match *self {
            Callback::Return => CallbackView::Return,
            Callback::Argument { arg, ns } => CallbackView::Argument {
                arg: Box::new(arg@),
                ns: ns@,
            },
            Callback::Apply { fun } => CallbackView::Apply { fun: fun@ },
        }
    }
}

/// The outcome of one elaboration: a finished result, or a request to
/// elaborate an expression in a scope and to resume a callback with its
/// value.
pub enum Thunk {
    Done(EvalResult),
    NeedElaboration(Rc<Expr>, Rc<Ns>, Callback),
}

impl View for Thunk {
    type V = ThunkView;

    open spec fn view(&self) -> ThunkView {
        match *self {
            Thunk::Done(r) => ThunkView::Done(result_view(r)),
            Thunk::NeedElaboration(need, ns, callback) => ThunkView::NeedElaboration(
                need@,
                ns@,
                callback@,
            ),
        }
    }
}

/// Identifies one pending entry; unique within one evaluator.
#[derive(Clone, Copy, PartialEq, Eq, Hash, Debug)]
struct Marker(u64);

/// The view of an optional marker.
spec fn target_view(target: Option<Marker>) -> Option<nat> {
    match target {
        Some(marker) => Some(marker.0 as nat),
        None => None,
    }
}

/// A continuation record of the blackboard.
struct Entry {
    need: Rc<Expr>,
    ns: Rc<Ns>,
    callback: Callback,
    parent: Option<Marker>,
}

impl View for Entry {
    type V = EntryView;

    closed spec fn view(&self) -> EntryView {
        EntryView {
            need: self.need@,
            ns: self.ns@,
            callback: self.callback@,
            parent: target_view(self.parent),
        }
    }
}

/// One unit of work.
enum Step {
    Deliver(Option<Marker>, Rc<Val>),
    Elaborate(Marker),
}

impl View for Step {
    type V = StepView;

    closed spec fn view(&self) -> StepView {
        match *self {
            Step::Deliver(target, v) => StepView::Deliver(target_view(target), v@),
            Step::Elaborate(marker) => StepView::Elaborate(marker.0 as nat),
        }
    }
}

/// The view of a blackboard: each marker with the view of its entry.
spec fn board_view(board: Map<u64, Entry>) -> Map<nat, EntryView> {
    Map::new(
        |marker: nat| marker <= u64::MAX && board.contains_key(marker as u64),
        |marker: nat| board[marker as u64]@,
    )
}

/// The view of a work list.
spec fn steps_view(steps: Seq<Step>) -> Seq<StepView> {
    steps.map_values(|s: Step| s@)
}

/// The view of what a step reports.
pub open spec fn report_view(r: Option<EvalResult>) -> Report {
    match r {
        Some(result) => Some(result_view(result)),
        None => None,
    }
}

/// The state of a stepped evaluation.
pub struct HmmState {
    last_marker: Marker,
    steps: Vec<Step>,
    blackboard: HashMap<u64, Entry>,
}

impl View for HmmState {
    type V = Machine;

    closed spec fn view(&self) -> Machine {
        Machine {
            last_marker: self.last_marker.0 as nat,
            steps: steps_view(self.steps@),
            blackboard: board_view(self.blackboard@),
        }
    }
}

/// Application: a native function is called, a closure elaborates its body
/// in a child of its captured scope with the parameter bound, and any other
/// value is not callable.
pub fn hmm_call(fun: Rc<Val>, arg: Rc<Val>) -> (t: Thunk)
    ensures
        apply(fun@, arg@) matches Some(thunk) ==> t@ == thunk,
{
    match &*fun {
        Val::Builtin(_, f) => f.invoke(arg),
        Val::UserFn { argname, body, ns: closure } => {
            let local_scope = share(closure).child().update(share(argname), arg);
            hmm_step(share(body), Rc::new(local_scope))
        },
        Val::Int(_) => Thunk::Done(Err(EvalError::TypeMismatch("Cannot call integer"))),
        Val::Str(_) => Thunk::Done(Err(EvalError::TypeMismatch("Cannot call string"))),
        Val::Vec(_) => Thunk::Done(Err(EvalError::TypeMismatch("Cannot call vec"))),
    }
}

/// Elaboration: the work on one expression that needs no sub-expression
/// evaluated. It looks one level deep and never calls itself.
pub fn hmm_step(expr: Rc<Expr>, ns: Rc<Ns>) -> (t: Thunk)
    ensures
        t@ == elaborate(expr@, ns@),
{
    match &*expr {
        Expr::Put(val) => Thunk::Done(Ok(share(val))),
        Expr::Name(name) => Thunk::Done(
            match ns.lookup(share(name)) {
                Some(v) => Ok(v),
                None => Err(EvalError::UndefinedName((**name).clone())),
            },
        ),
        Expr::Lam { argname, body } => Thunk::Done(
            Ok(
                Rc::new(
                    Val::UserFn { argname: share(argname), body: share(body), ns: Rc::new(ns.child()) },
                ),
            ),
        ),
        Expr::Call { func, arg } => {
            let func = share(func);
            let arg = share(arg);
            let ns2 = share(&ns);
            Thunk::NeedElaboration(func, ns, Callback::Argument { arg, ns: ns2 })
        },
    }
}

impl Callback {
    /// Gives the callback the value it waited for.
    pub fn resume(self, value: Rc<Val>) -> (t: Thunk)
        ensures
            resume(self@, value@) matches Some(thunk) ==> t@ == thunk,
    {
        match self {
            Callback::Return => Thunk::Done(Ok(value)),
            Callback::Argument { arg, ns } => Thunk::NeedElaboration(
                arg,
                ns,
                Callback::Apply { fun: value },
            ),
            Callback::Apply { fun } => hmm_call(fun, value),
        }
    }
}

/// Putting an entry on a blackboard puts its view on the view.
proof fn lemma_board_insert(board: Map<u64, Entry>, marker: u64, entry: Entry)
    ensures
        board_view(board.insert(marker, entry)) == board_view(board).insert(marker as nat, entry@),
{
    assert(board_view(board.insert(marker, entry)) =~= board_view(board).insert(
        marker as nat,
        entry@,
    ));
}

/// Taking an entry off a blackboard takes its view off the view.
proof fn lemma_board_remove(board: Map<u64, Entry>, marker: u64)
    ensures
        board_view(board.remove(marker)) == board_view(board).remove(marker as nat),
{
    assert(board_view(board.remove(marker)) =~= board_view(board).remove(marker as nat));
}

impl HmmState {
    /// The invariant of the evaluator: that of its machine.
    pub open spec fn wf(&self) -> bool {
        machine_wf(self@)
    }

    /// Whether the evaluator can take a step: work is pending, and a marker
    /// is left to give out.
    pub open spec fn can_step(&self) -> bool {
        self@.steps.len() > 0 && self@.last_marker < u64::MAX
    }

    /// An evaluator that is about to evaluate `expr` in `ns`.
    pub fn new(expr: Rc<Expr>, ns: Rc<Ns>) -> (r: HmmState)
        ensures
            r@ == machine_start(expr@, ns@),
            r.wf(),
            r.can_step(),
    {
        let root_marker = Marker(0);
        let mut blackboard = HashMap::new();
        blackboard.insert(
            root_marker.0,
            Entry { need: expr, ns, callback: Callback::Return, parent: None },
        );
        let mut steps = Vec::new();
        steps.push(Step::Elaborate(root_marker));
        let r = HmmState { last_marker: root_marker, steps, blackboard };
        proof {
            assert(r@.steps =~= machine_start(expr@, ns@).steps);
            assert(r@.blackboard =~= machine_start(expr@, ns@).blackboard);
            lemma_start_wf(expr@, ns@);
        }
        r
    }

    /// Whether [`HmmState::step`] may be called: the evaluation has not
    /// reported its result yet, and the markers are not used up.
    pub fn ready(&self) -> (b: bool)
        ensures
            b == self.can_step(),
    {
        self.steps.len() > 0 && self.last_marker.0 < u64::MAX
    }

    /// Takes in a thunk whose value is owed to `target`: an error ends the
    /// evaluation, a value is scheduled for delivery, and a request for
    /// elaboration becomes a new entry under a fresh marker.
    fn settle(&mut self, thunk: Thunk, target: Option<Marker>) -> (r: Option<EvalResult>)
        requires
            old(self)@.last_marker < u64::MAX,
        ensures
            (final(self)@, report_view(r)) == settle(old(self)@, thunk@, target_view(target)),
    {
        match thunk {
            Thunk::Done(Err(e)) => {
                self.steps = Vec::new();
                assert(self@.steps =~= Seq::<StepView>::empty());
                Some(Err(e))
            },
            Thunk::Done(Ok(val)) => {
                self.steps.push(Step::Deliver(target, val));
                assert(self@.steps =~= old(self)@.steps.push(
                    StepView::Deliver(target_view(target), val@),
                ));
                None
            },
            Thunk::NeedElaboration(need, ns, callback) => {
                self.last_marker = Marker(self.last_marker.0 + 1);
                let new_marker = self.last_marker;
                let entry = Entry { need, ns, callback, parent: target };
                proof {
                    lemma_board_insert(self.blackboard@, new_marker.0, entry);
                }
                self.blackboard.insert(new_marker.0, entry);
                self.steps.push(Step::Elaborate(new_marker));
                assert(self@.steps =~= old(self)@.steps.push(
                    StepView::Elaborate(new_marker.0 as nat),
                ));
                None
            },
        }
    }

    /// Does one unit of work: one elaboration or one delivery.
    ///
    /// Returns `None` while more steps are needed, and the final result once:
    /// the value delivered to nobody, or the first error, which drops all
    /// pending work. Where the step calls a native function, the evaluator
    /// takes in whatever thunk that function answers.
    pub fn step(&mut self) -> (r: Option<EvalResult>)
        requires
            old(self).wf(),
            old(self).can_step(),
        ensures
            final(self).wf(),
            step_spec(old(self)@) matches Some(next) ==> final(self)@ == next.0 && report_view(r)
                == next.1,
            step_is_native(old(self)@) ==> exists|thunk: ThunkView|
                (final(self)@, report_view(r)) == #[trigger] settle(
                    taken(old(self)@),
                    thunk,
                    answer_target(old(self)@),
                ),
            report_view(r) is Some <==> final(self)@.steps.len() == 0,
            old(self)@.last_marker <= final(self)@.last_marker <= old(self)@.last_marker + 1,
    {
        let ghost before = self@;
        let step = self.steps.pop().unwrap();
        assert(step@ == before.steps.last());
        assert(self@.steps =~= before.steps.drop_last());
        proof {
            lemma_taken_linked(before);
        }
        match step {
            Step::Deliver(None, val) => Some(Ok(val)),
            Step::Deliver(Some(marker), val) => {
                proof {
                    lemma_board_remove(self.blackboard@, marker.0);
                }
                let Entry { need: _, ns: _, callback, parent } = self.blackboard.remove(
                    &marker.0,
                ).unwrap();
                assert(self@ == taken(before));
                let thunk = callback.resume(val);
                let r = self.settle(thunk, parent);
                proof {
                    lemma_settle_wf(taken(before), thunk@, answer_target(before));
                }
                r
            },
            Step::Elaborate(marker) => {
                let entry = self.blackboard.get(&marker.0).unwrap();
                let thunk = hmm_step(share(&entry.need), share(&entry.ns));
                assert(self@ == taken(before));
                let r = self.settle(thunk, Some(marker));
                proof {
                    lemma_settle_wf(taken(before), thunk@, answer_target(before));
                }
                r
            },
        }
    }

    /// Steps until the evaluation reports its result, until `limit` steps are
    /// taken, or until no step can be taken. Returns what the last step
    /// reported, and how many steps were taken.
    ///
    /// Where the machine of the model reports at its `n`-th step, for an `n`
    /// within the limit and the markers, this takes `n` steps and returns
    /// that report.
    pub fn drive(&mut self, limit: u64) -> (r: (Option<EvalResult>, u64))
        requires
            old(self).wf(),
        ensures
            final(self).wf(),
            r.1 <= limit,
            r.0 is None ==> r.1 == limit || !final(self).can_step(),
            r.0 is Some ==> r.1 >= 1 && final(self)@.steps.len() == 0,
            run((old(self)@, None), r.1 as nat) matches Some(c) ==> c == (
                final(self)@,
                report_view(r.0),
            ),
            forall|n: nat|
                n <= limit && old(self)@.last_marker + n <= u64::MAX && (#[trigger] run(
                    (old(self)@, None),
                    n,
                ) matches Some(c) && c.1 is Some) ==> r.1 == n && run(
                    (old(self)@, None),
                    n,
                ).unwrap().1 == report_view(r.0),
    {
        let ghost start: Config = (self@, None);
        let mut taken_steps: u64 = 0;
        while taken_steps < limit && self.ready()
            invariant
                self.wf(),
                taken_steps <= limit,
                self@.last_marker <= old(self)@.last_marker + taken_steps,
                run(start, taken_steps as nat) matches Some(c) ==> c == (
                    self@,
                    None::<Result<ValView, ErrorView>>,
                ),
                forall|n: nat|
                    n < taken_steps ==> !(#[trigger] run(start, n) matches Some(c) && c.1 is Some),
                start == (old(self)@, None::<Result<ValView, ErrorView>>),
            decreases limit - taken_steps,
        {
            let ghost before = self@;
            let report = self.step();
            taken_steps = taken_steps + 1;
            proof {
                assert(run(start, taken_steps as nat) matches Some(c) ==> c == (
                    self@,
                    report_view(report),
                )) by {
                    assert(run(start, (taken_steps - 1) as nat) matches Some(c) ==> c == (
                        before,
                        None::<Result<ValView, ErrorView>>,
                    ));
                }
            }
            if report.is_some() {
                proof {
                    assert forall|n: nat|
                        n <= limit && (#[trigger] run(start, n) matches Some(c) && c.1 is Some)
                        implies taken_steps == n && run(start, n).unwrap().1 == report_view(
                        report,
                    ) by {
                        if n > taken_steps {
                            lemma_run_prefix_silent(start, n, taken_steps as nat);
                        }
                    }
                }
                return (report, taken_steps);
            }
        }
        proof {
            assert forall|n: nat|
                n <= limit && old(self)@.last_marker + n <= u64::MAX && (#[trigger] run(start, n)
                    matches Some(c) && c.1 is Some) implies false by {
                if n > taken_steps {
                    lemma_run_prefix_silent(start, n, taken_steps as nat);
                }
            }
        }
        (None, taken_steps)
    }
}

} // verus!
