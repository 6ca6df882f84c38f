//! The stepping machine, over the model.
//!
//! A machine holds a stack of work items and a blackboard of pending entries,
//! each under its marker. One step pops one work item: it either advances an
//! entry by one elaboration, or delivers a finished value to an entry.

use crate::model::{ErrorView, ExprView, Scope, ValView};
use crate::semantics::{elaborate, resume, CallbackView, ThunkView};
use vstd::prelude::*;

verus! {

/// A pending computation: the view of an entry of the blackboard.
pub struct EntryView {
    /// The expression still to elaborate.
    pub need: ExprView,
    /// The scope to elaborate it in.
    pub ns: Scope,
    /// What to do with its value.
    pub callback: CallbackView,
    /// The entry that waits for what the callback answers; `None` for the
    /// entry of the whole program.
    pub parent: Option<nat>,
}

/// One unit of work.
pub enum StepView {
    /// Hand a finished value to the entry under the marker, or, without a
    /// marker, out as the result of the program.
    Deliver(Option<nat>, ValView),
    /// Advance the entry under the marker by one elaboration.
    Elaborate(nat),
}

/// The state of a stepped evaluation: the view of a
/// [`crate::hmm_eval::HmmState`].
pub struct Machine {
    /// The marker given out last.
    pub last_marker: nat,
    /// The work list; its last item is done next.
    pub steps: Seq<StepView>,
    /// The pending entries, each under its marker.
    pub blackboard: Map<nat, EntryView>,
}

/// What one step reports: nothing yet, or the final result.
pub type Report = Option<Result<ValView, ErrorView>>;

/// The machine that is about to evaluate `expr` in `ns`: the one entry of the
/// program under marker 0, and the work item that elaborates it.
pub open spec fn machine_start(expr: ExprView, ns: Scope) -> Machine {
    Machine {
        last_marker: 0,
        steps: seq![StepView::Elaborate(0)],
        blackboard: map![0nat => EntryView {
            need: expr,
            ns,
            callback: CallbackView::Return,
            parent: None,
        }],
    }
}

/// The entry that the work item is about.
pub open spec fn step_target(step: StepView) -> Option<nat> {
    match step {
        StepView::Deliver(target, _) => target,
        StepView::Elaborate(marker) => Some(marker),
    }
}

/// What becomes of a thunk whose value is owed to `target`.
///
/// An error ends the evaluation and drops all pending work. A value is
/// scheduled for delivery to `target`. A request for elaboration gets a new
/// entry, under a fresh marker, whose answer goes to `target`.
pub open spec fn settle(m: Machine, thunk: ThunkView, target: Option<nat>) -> (Machine, Report) {
    match thunk {
        ThunkView::Done(Err(e)) => (Machine { steps: Seq::empty(), ..m }, Some(Err(e))),
        ThunkView::Done(Ok(v)) => (
            Machine { steps: m.steps.push(StepView::Deliver(target, v)), ..m },
            None,
        ),
        ThunkView::NeedElaboration(need, ns, callback) => {
            let marker = m.last_marker + 1;
            (
                Machine {
                    last_marker: marker,
                    steps: m.steps.push(StepView::Elaborate(marker)),
                    blackboard: m.blackboard.insert(
                        marker,
                        EntryView { need, ns, callback, parent: target },
                    ),
                },
                None,
            )
        },
    }
}

/// The machine with its next work item taken off.
pub open spec fn popped(m: Machine) -> Machine {
    Machine { steps: m.steps.drop_last(), ..m }
}

/// The machine after the next work item is taken off and, where that item
/// delivers to an entry, the entry is taken off the blackboard.
pub open spec fn taken(m: Machine) -> Machine {
    match m.steps.last() {
        StepView::Deliver(Some(marker), _) => Machine {
            blackboard: m.blackboard.remove(marker),
            ..popped(m)
        },
        _ => popped(m),
    }
}

/// The entry to which the next step owes its answer: the entry itself for an
/// elaboration, and the parent of the entry for a delivery.
pub open spec fn answer_target(m: Machine) -> Option<nat> {
    match m.steps.last() {
        StepView::Deliver(Some(marker), _) => m.blackboard[marker].parent,
        StepView::Deliver(None, _) => None,
        StepView::Elaborate(marker) => Some(marker),
    }
}

/// The thunk that the next step settles, where the model determines it:
/// the elaboration of an entry, or the answer of the callback of the entry
/// that is delivered to. `None` for the last delivery, which settles
/// nothing, and where a native function decides.
pub open spec fn step_thunk(m: Machine) -> Option<ThunkView> {
    match m.steps.last() {
        StepView::Deliver(Some(marker), v) => resume(m.blackboard[marker].callback, v),
        StepView::Deliver(None, _) => None,
        StepView::Elaborate(marker) => Some(
            elaborate(m.blackboard[marker].need, m.blackboard[marker].ns),
        ),
    }
}

/// Whether the next step calls a native function.
pub open spec fn step_is_native(m: Machine) -> bool {
    m.steps.last() matches StepView::Deliver(Some(marker), v) && resume(
        m.blackboard[marker].callback,
        v,
    ) is None
}

/// One step of a machine that has work: the machine after it and what the
/// step reports. `None` where the step calls a native function, whose answer
/// the model does not know.
pub open spec fn step_spec(m: Machine) -> Option<(Machine, Report)> {
    match m.steps.last() {
        StepView::Deliver(None, v) => Some((popped(m), Some(Ok(v)))),
        _ => match step_thunk(m) {
            Some(thunk) => Some(settle(taken(m), thunk, answer_target(m))),
            None => None,
        },
    }
}

/// The entries of `board` are exactly one chain that starts at `top`, each
/// entry pointing to its parent under a smaller marker, down to the entry
/// without a parent.
pub open spec fn linked(board: Map<nat, EntryView>, top: Option<nat>) -> bool
    decreases
        (match top {
            Some(marker) => marker + 1,
            None => 0,
        }),
{
    match top {
        None => board =~= Map::empty(),
        Some(marker) => {
            &&& board.contains_key(marker)
            &&& board[marker].parent matches Some(p) ==> p < marker
            &&& linked(board.remove(marker), board[marker].parent)
        },
    }
}

/// The invariant of a machine: at most one work item is pending, no marker
/// on the blackboard is beyond the last one given out, and while work is
/// pending the blackboard is the chain of entries that starts at the entry
/// the work item is about.
pub open spec fn machine_wf(m: Machine) -> bool {
    &&& m.steps.len() <= 1
    &&& forall|marker: nat| m.blackboard.contains_key(marker) ==> marker <= m.last_marker
    &&& m.steps.len() == 1 ==> linked(m.blackboard, step_target(m.steps[0]))
}

/// A configuration: a machine and what its last step reported.
pub type Config = (Machine, Report);

/// The configuration after `n` steps from `c`; `None` where one of them
/// cannot be taken: the evaluation had already reported its result, or a
/// native function decides.
pub open spec fn run(c: Config, n: nat) -> Option<Config>
    decreases n,
{
    if n == 0 {
        Some(c)
    } else {
        match run(c, (n - 1) as nat) {
            Some((m, None)) => if m.steps.len() > 0 {
                step_spec(m)
            } else {
                None
            },
            _ => None,
        }
    }
}

/// The machine that starts on `expr` is well formed.
pub proof fn lemma_start_wf(expr: ExprView, ns: Scope)
    ensures
        machine_wf(machine_start(expr, ns)),
{
    let m = machine_start(expr, ns);
    assert(m.blackboard.remove(0) =~= Map::empty());
    assert(linked(m.blackboard.remove(0), None));
}

/// Settling a thunk keeps a machine well formed, where the entries left on
/// the blackboard are the chain that starts at the target.
pub proof fn lemma_settle_wf(m: Machine, thunk: ThunkView, target: Option<nat>)
    requires
        m.steps.len() == 0,
        forall|marker: nat| m.blackboard.contains_key(marker) ==> marker <= m.last_marker,
        linked(m.blackboard, target),
    ensures
        machine_wf(settle(m, thunk, target).0),
{
    let next = settle(m, thunk, target).0;
    match thunk {
        ThunkView::NeedElaboration(need, ns, callback) => {
            let marker = m.last_marker + 1;
            assert(next.blackboard.remove(marker) =~= m.blackboard);
            if target is Some {
                assert(m.blackboard.contains_key(target.unwrap()));
            }
            assert(linked(next.blackboard, Some(marker)));
        },
        _ => {},
    }
}

/// Every step that the model determines keeps a machine well formed.
pub proof fn lemma_step_wf(m: Machine)
    requires
        machine_wf(m),
        m.steps.len() > 0,
        step_spec(m) is Some,
    ensures
        machine_wf(step_spec(m).unwrap().0),
{
    match m.steps.last() {
        StepView::Deliver(None, v) => {},
        _ => {
            lemma_taken_linked(m);
            lemma_settle_wf(taken(m), step_thunk(m).unwrap(), answer_target(m));
        },
    }
}

/// After the next work item is taken, the blackboard is the chain that
/// starts at the entry to which the step owes its answer.
pub proof fn lemma_taken_linked(m: Machine)
    requires
        machine_wf(m),
        m.steps.len() > 0,
    ensures
        taken(m).steps.len() == 0,
        taken(m).last_marker == m.last_marker,
        forall|marker: nat|
            taken(m).blackboard.contains_key(marker) ==> marker <= taken(m).last_marker,
        linked(taken(m).blackboard, answer_target(m)),
{
}

/// The invariant holds at every point of a run that starts from a well
/// formed machine.
pub proof fn lemma_run_wf(c: Config, n: nat)
    requires
        machine_wf(c.0),
        run(c, n) is Some,
    ensures
        machine_wf(run(c, n).unwrap().0),
    decreases n,
{
    if n > 0 {
        let before = run(c, (n - 1) as nat).unwrap();
        lemma_run_wf(c, (n - 1) as nat);
        lemma_step_wf(before.0);
    }
}

/// Runs compose: `b` steps after `a` steps are `a + b` steps.
pub proof fn lemma_run_add(c: Config, a: nat, b: nat)
    requires
        run(c, a) is Some,
    ensures
        run(c, a + b) == run(run(c, a).unwrap(), b),
    decreases b,
{
    if b > 0 {
        lemma_run_add(c, a, (b - 1) as nat);
    }
}

/// One step from a machine that has work and has reported nothing.
pub proof fn lemma_run_one(m: Machine)
    requires
        m.steps.len() > 0,
    ensures
        run((m, None), 1) == step_spec(m),
{
    assert(run((m, None), 0) == Some((m, None::<Result<ValView, ErrorView>>)));
}

/// Every configuration on the way to the `n`-th has reported nothing and
/// has work left.
pub proof fn lemma_run_prefix_silent(c: Config, n: nat, i: nat)
    requires
        run(c, n) is Some,
        i < n,
    ensures
        run(c, i) matches Some((m, None)) && m.steps.len() > 0,
    decreases n,
{
    if i + 1 < n {
        lemma_run_prefix_silent(c, (n - 1) as nat, i);
    }
}

} // verus!
