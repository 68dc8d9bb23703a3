//! The lifecycle orchestrator.
//!
//! A [`System`] owns the registered node set, the shared [`Context`] and the
//! shared [`Mailbox`], and drives the three-phase lifecycle state machine:
//! NotStarted, then Starting, Running, Stopping in order, ending Stopped.
//! Each phase runs every node's hook for that phase, then resolves a race
//! among three events: completion of all hooks, the graceful-shutdown
//! signal, and the emergency-shutdown signal. A graceful win during Starting
//! or Running short-circuits straight to Stopping, so stopping hooks still
//! run; an emergency win aborts the whole sequence at once, skips Stopping
//! entirely, and surfaces the fatal [`SystemError::Shutdown`].
//!
//! This driver runs the hooks of one phase in registration order and
//! resolves the race once the fan-out has completed, consuming the winning
//! signal; when several events are ready at once, the emergency signal wins
//! over the graceful one, and the graceful one over plain completion. A hook
//! must return for its phase to end — a hook that never returns hangs that
//! phase forever, a documented limitation of the design, not a defect.
//!
//! What a run did is recorded in two traces: the phase trace, one record per
//! phase entered with the outcome of its race, and the hook trace, one
//! record per hook invocation. The laws of the orchestrator are stated and
//! proved over these traces.

use vstd::prelude::*;

use crate::context::Context;
use crate::mailbox::Mailbox;
use crate::node::Node;

verus! {

/// The externally observable lifecycle state. Transitions are strictly
/// sequential and never revisit an earlier phase. `get_state` reports
/// `Stopped` after a run that completed its Stopping phase; a run aborted by
/// emergency shutdown stays in the phase it was aborted in.
#[derive(Clone, Copy, Debug, Default, PartialEq, Eq, Structural)]
pub enum SystemState {
    /// No run has begun.
    #[default]
    NotStarted,
    /// The first phase: every node's `starting` hook runs.
    Starting,
    /// The second phase: every node's `running` hook runs.
    Running,
    /// The final phase: every node's `stopping` hook runs.
    Stopping,
    /// A run completed its Stopping phase.
    Stopped,
}

/// The decision a finished phase hands back: go on to the next phase in
/// order, or cut straight to Stopping.
#[derive(Clone, Copy, Debug, PartialEq, Eq, Structural)]
pub enum NextState {
    /// The phase completed: proceed in lifecycle order.
    Continue,
    /// Graceful shutdown was requested: the next phase is Stopping.
    Stop,
}

/// The errors a run can surface. Both are fatal: a run returns at most one
/// of them and is never retried.
#[derive(Clone, Copy, Debug, PartialEq, Eq, Structural)]
pub enum SystemError {
    /// Emergency shutdown was requested; the run was abandoned without
    /// running the stopping hooks.
    Shutdown,
    /// A task of the run failed for no more specific reason. This driver
    /// runs hooks to completion itself and never reports it; drivers that
    /// join concurrent tasks surface it when a join fails.
    Unknown,
}

/// Which of the three raced events ended a phase.
#[derive(Clone, Copy, Debug, PartialEq, Eq, Structural)]
pub enum PhaseOutcome {
    /// Every hook of the phase returned, and no shutdown was pending.
    Completed,
    /// The graceful-shutdown signal won the race.
    Graceful,
    /// The emergency-shutdown signal won the race.
    Emergency,
}

/// What the state machine does after a phase: enter another phase, finish
/// the run successfully, or fail it.
#[derive(Clone, Copy, Debug, PartialEq, Eq, Structural)]
pub enum Step {
    /// Enter the given phase next.
    Enter(SystemState),
    /// The run is over and succeeded.
    Complete,
    /// The run is over and failed with this error.
    Fail(SystemError),
}

/// The three states that are phases of a run.
pub open spec fn is_phase(s: SystemState) -> bool {
    s == SystemState::Starting || s == SystemState::Running || s == SystemState::Stopping
}

/// The decision that ends a phase, as the race resolves it: completion
/// proceeds, a graceful win stops early, an emergency win is the fatal
/// error.
pub open spec fn spec_transition(outcome: PhaseOutcome) -> Result<NextState, SystemError> {
    match outcome {
        PhaseOutcome::Completed => Ok(NextState::Continue),
        PhaseOutcome::Graceful => Ok(NextState::Stop),
        PhaseOutcome::Emergency => Err(SystemError::Shutdown),
    }
}

/// Map a phase's race outcome to the decision it forces. Drivers that run
/// the phases themselves — this one, or an external loop that performs the
/// asynchronous fan-out and hands the outcome back — make every decision
/// through this function.
pub fn transition(outcome: PhaseOutcome) -> (r: Result<NextState, SystemError>)
    ensures
        r == spec_transition(outcome),
{
    match outcome {
        PhaseOutcome::Completed => Ok(NextState::Continue),
        PhaseOutcome::Graceful => Ok(NextState::Stop),
        PhaseOutcome::Emergency => Err(SystemError::Shutdown),
    }
}

/// The whole state machine in one step: given the phase that just ran and
/// the outcome of its race, where the run goes. Emergency always fails the
/// run; a graceful win anywhere before Stopping enters Stopping; completion
/// walks the phases in order; Stopping ending without emergency completes
/// the run.
pub open spec fn spec_next_step(phase: SystemState, outcome: PhaseOutcome) -> Step {
    match outcome {
        PhaseOutcome::Emergency => Step::Fail(SystemError::Shutdown),
        PhaseOutcome::Graceful => if phase == SystemState::Stopping {
            Step::Complete
        } else {
            Step::Enter(SystemState::Stopping)
        },
        PhaseOutcome::Completed => match phase {
            SystemState::Starting => Step::Enter(SystemState::Running),
            SystemState::Running => Step::Enter(SystemState::Stopping),
            _ => Step::Complete,
        },
    }
}

/// The executable form of [`spec_next_step`], for drivers that run the
/// phase loop outside this module.
pub fn next_step(phase: SystemState, outcome: PhaseOutcome) -> (s: Step)
    ensures
        s == spec_next_step(phase, outcome),
{
    match outcome {
        PhaseOutcome::Emergency => Step::Fail(SystemError::Shutdown),
        PhaseOutcome::Graceful => {
            if phase == SystemState::Stopping {
                Step::Complete
            } else {
                Step::Enter(SystemState::Stopping)
            }
        },
        PhaseOutcome::Completed => {
            match phase {
                SystemState::Starting => Step::Enter(SystemState::Running),
                SystemState::Running => Step::Enter(SystemState::Stopping),
                _ => Step::Complete,
            }
        },
    }
}

/// The hook-trace block one phase contributes when `n` nodes are
/// registered: the phase's hook runs once per node, in registration order.
pub open spec fn phase_hooks(phase: SystemState, n: nat) -> Seq<(SystemState, int)> {
    Seq::new(n, |i: int| (phase, i))
}

/// The hook trace a whole run contributes: the blocks of its phases in
/// order.
pub open spec fn run_hooks(ps: Seq<(SystemState, PhaseOutcome)>, n: nat) -> Seq<
    (SystemState, int),
>
    decreases ps.len(),
{
    if ps.len() == 0 {
        Seq::empty()
    } else {
        run_hooks(ps.drop_last(), n) + phase_hooks(ps.last().0, n)
    }
}

/// The hook blocks of the short traces a single run can produce, written
/// out: a run has at most three phases.
proof fn lemma_run_hooks_small(
    a: (SystemState, PhaseOutcome),
    b: (SystemState, PhaseOutcome),
    c: (SystemState, PhaseOutcome),
    n: nat,
)
    ensures
        run_hooks(seq![a], n) == phase_hooks(a.0, n),
        run_hooks(seq![a, b], n) == phase_hooks(a.0, n) + phase_hooks(b.0, n),
        run_hooks(seq![a, b, c], n) == phase_hooks(a.0, n) + phase_hooks(b.0, n) + phase_hooks(
            c.0,
            n,
        ),
{
    assert(run_hooks(Seq::<(SystemState, PhaseOutcome)>::empty(), n) =~= Seq::<(
        SystemState,
        int,
    )>::empty());
    assert(seq![a].drop_last() =~= Seq::<(SystemState, PhaseOutcome)>::empty());
    assert(seq![a, b].drop_last() =~= seq![a]);
    assert(seq![a, b, c].drop_last() =~= seq![a, b]);
    assert(run_hooks(seq![a], n) =~= phase_hooks(a.0, n));
    assert(run_hooks(seq![a, b], n) =~= phase_hooks(a.0, n) + phase_hooks(b.0, n));
    assert(run_hooks(seq![a, b, c], n) =~= phase_hooks(a.0, n) + phase_hooks(b.0, n)
        + phase_hooks(c.0, n));
}

/// What it means for a phase trace to be one complete run of the state
/// machine ending in `r`: it starts at Starting, each phase hands over to
/// the next exactly as [`spec_next_step`] dictates, and the run stops
/// exactly when the machine says it is over, with the result the machine
/// gives.
pub open spec fn valid_run(ps: Seq<(SystemState, PhaseOutcome)>, r: Result<
    (),
    SystemError,
>) -> bool {
    &&& ps.len() >= 1
    &&& ps[0].0 == SystemState::Starting
    &&& (forall|i: int|
        0 <= i < ps.len() - 1 ==> spec_next_step(ps[i].0, ps[i].1) == Step::Enter(ps[i + 1].0))
    &&& match spec_next_step(ps.last().0, ps.last().1) {
        Step::Enter(_) => false,
        Step::Complete => r == Ok::<(), SystemError>(()),
        Step::Fail(e) => r == Err::<(), SystemError>(e),
    }
}

/// How many times the record `e` occurs in a hook trace.
pub open spec fn hook_count(tr: Seq<(SystemState, int)>, e: (SystemState, int)) -> nat
    decreases tr.len(),
{
    if tr.len() == 0 {
        0
    } else {
        hook_count(tr.drop_last(), e) + if tr.last() == e {
            1nat
        } else {
            0nat
        }
    }
}

/// How many of a phase trace's records are for the phase `p`.
pub open spec fn phase_occurrences(ps: Seq<(SystemState, PhaseOutcome)>, p: SystemState) -> nat
    decreases ps.len(),
{
    if ps.len() == 0 {
        0
    } else {
        phase_occurrences(ps.drop_last(), p) + if ps.last().0 == p {
            1nat
        } else {
            0nat
        }
    }
}

proof fn lemma_hook_count_concat(
    x: Seq<(SystemState, int)>,
    y: Seq<(SystemState, int)>,
    e: (SystemState, int),
)
    ensures
        hook_count(x + y, e) == hook_count(x, e) + hook_count(y, e),
    decreases y.len(),
{
    if y.len() == 0 {
        assert(x + y =~= x);
    } else {
        assert((x + y).drop_last() =~= x + y.drop_last());
        assert((x + y).last() == y.last());
        lemma_hook_count_concat(x, y.drop_last(), e);
    }
}

proof fn lemma_hook_count_phase(p: SystemState, n: nat, e: (SystemState, int))
    ensures
        hook_count(phase_hooks(p, n), e) == if e.0 == p && 0 <= e.1 < n {
            1nat
        } else {
            0nat
        },
    decreases n,
{
    if n == 0 {
    } else {
        assert(phase_hooks(p, n).drop_last() =~= phase_hooks(p, (n - 1) as nat));
        assert(phase_hooks(p, n).last() == (p, n - 1));
        lemma_hook_count_phase(p, (n - 1) as nat, e);
    }
}

proof fn lemma_hook_count_contains(tr: Seq<(SystemState, int)>, e: (SystemState, int))
    ensures
        (hook_count(tr, e) > 0) <==> tr.contains(e),
    decreases tr.len(),
{
    if tr.len() == 0 {
    } else {
        lemma_hook_count_contains(tr.drop_last(), e);
        if hook_count(tr, e) > 0 {
            if tr.last() == e {
                assert(tr[tr.len() - 1] == e);
            } else {
                let i = choose|i: int| 0 <= i < tr.drop_last().len() && tr.drop_last()[i] == e;
                assert(tr[i] == e);
            }
        }
        if tr.contains(e) {
            let i = choose|i: int| 0 <= i < tr.len() && tr[i] == e;
            if i < tr.len() - 1 {
                assert(tr.drop_last()[i] == e);
            }
        }
    }
}

proof fn lemma_run_hooks_count(ps: Seq<(SystemState, PhaseOutcome)>, n: nat, e: (SystemState, int))
    ensures
        hook_count(run_hooks(ps, n), e) == if 0 <= e.1 < n {
            phase_occurrences(ps, e.0)
        } else {
            0nat
        },
    decreases ps.len(),
{
    if ps.len() == 0 {
    } else {
        lemma_run_hooks_count(ps.drop_last(), n, e);
        lemma_hook_count_concat(run_hooks(ps.drop_last(), n), phase_hooks(ps.last().0, n), e);
        lemma_hook_count_phase(ps.last().0, n, e);
    }
}

proof fn lemma_phase_occurrences_exists(ps: Seq<(SystemState, PhaseOutcome)>, p: SystemState)
    ensures
        (phase_occurrences(ps, p) > 0) <==> exists|j: int| 0 <= j < ps.len() && ps[j].0 == p,
    decreases ps.len(),
{
    if ps.len() == 0 {
    } else {
        lemma_phase_occurrences_exists(ps.drop_last(), p);
        if phase_occurrences(ps, p) > 0 {
            if ps.last().0 == p {
                assert(ps[ps.len() - 1].0 == p);
            } else {
                let j = choose|j: int|
                    0 <= j < ps.drop_last().len() && ps.drop_last()[j].0 == p;
                assert(ps[j].0 == p);
            }
        }
        if exists|j: int| 0 <= j < ps.len() && ps[j].0 == p {
            let j = choose|j: int| 0 <= j < ps.len() && ps[j].0 == p;
            if j < ps.len() - 1 {
                assert(ps.drop_last()[j].0 == p);
            }
        }
    }
}

proof fn lemma_phase_occurrences_at_most_one(ps: Seq<(SystemState, PhaseOutcome)>, p: SystemState)
    requires
        forall|i: int, j: int| 0 <= i < j < ps.len() ==> ps[i].0 != ps[j].0,
    ensures
        phase_occurrences(ps, p) <= 1,
    decreases ps.len(),
{
    if ps.len() == 0 {
    } else {
        lemma_phase_occurrences_at_most_one(ps.drop_last(), p);
        if ps.last().0 == p && phase_occurrences(ps.drop_last(), p) > 0 {
            lemma_phase_occurrences_exists(ps.drop_last(), p);
            let j = choose|j: int| 0 <= j < ps.drop_last().len() && ps.drop_last()[j].0 == p;
            assert(ps[j].0 == ps[ps.len() - 1].0);
            assert(false);
        }
    }
}

/// The shapes a valid run can take: at most three phases, Starting first,
/// then Running or Stopping, and each phase at most once.
pub proof fn lemma_valid_run_shape(ps: Seq<(SystemState, PhaseOutcome)>, r: Result<
    (),
    SystemError,
>)
    requires
        valid_run(ps, r),
    ensures
        1 <= ps.len() <= 3,
        ps[0].0 == SystemState::Starting,
        ps.len() >= 2 ==> (ps[1].0 == SystemState::Running || ps[1].0 == SystemState::Stopping),
        ps.len() == 3 ==> ps[1].0 == SystemState::Running && ps[2].0 == SystemState::Stopping,
        forall|i: int, j: int| 0 <= i < j < ps.len() ==> ps[i].0 != ps[j].0,
        forall|i: int| 0 <= i < ps.len() ==> is_phase(#[trigger] ps[i].0),
{
    if ps.len() >= 2 {
        assert(spec_next_step(ps[0].0, ps[0].1) == Step::Enter(ps[1].0));
    }
    if ps.len() >= 3 {
        assert(spec_next_step(ps[1].0, ps[1].1) == Step::Enter(ps[2].0));
    }
    if ps.len() >= 4 {
        assert(spec_next_step(ps[2].0, ps[2].1) == Step::Enter(ps[3].0));
        assert(false);
    }
}

/// Graceful short-circuit law: when the graceful-shutdown signal wins the
/// race during the Starting or the Running phase of a valid run, the very
/// next phase is Stopping and is the run's last, every registered node's
/// stopping hook is in the run's hook trace, and the run returns
/// successfully unless the emergency signal wins during Stopping itself.
pub proof fn lemma_graceful_short_circuit(
    ps: Seq<(SystemState, PhaseOutcome)>,
    r: Result<(), SystemError>,
    n: nat,
    i: int,
)
    requires
        valid_run(ps, r),
        0 <= i < ps.len(),
        ps[i].0 == SystemState::Starting || ps[i].0 == SystemState::Running,
        ps[i].1 == PhaseOutcome::Graceful,
    ensures
        ps.len() == i + 2,
        ps[i + 1].0 == SystemState::Stopping,
        forall|k: int| 0 <= k < n ==> run_hooks(ps, n).contains((SystemState::Stopping, k)),
        ps[i + 1].1 != PhaseOutcome::Emergency ==> r == Ok::<(), SystemError>(()),
{
    assert(i < ps.len() - 1);
    assert(spec_next_step(ps[i].0, ps[i].1) == Step::Enter(ps[i + 1].0));
    if i + 1 < ps.len() - 1 {
        assert(spec_next_step(ps[i + 1].0, ps[i + 1].1) == Step::Enter(ps[i + 2].0));
        assert(false);
    }
    assert forall|k: int| 0 <= k < n implies run_hooks(ps, n).contains(
        (SystemState::Stopping, k),
    ) by {
        lemma_run_hooks_count(ps, n, (SystemState::Stopping, k));
        lemma_phase_occurrences_exists(ps, SystemState::Stopping);
        assert(ps[i + 1].0 == SystemState::Stopping);
        lemma_hook_count_contains(run_hooks(ps, n), (SystemState::Stopping, k));
    }
}

/// Emergency law, first half: an emergency win during any phase of a valid
/// run ends the run right there, with the fatal Shutdown error.
pub proof fn lemma_emergency_ends_run(
    ps: Seq<(SystemState, PhaseOutcome)>,
    r: Result<(), SystemError>,
    i: int,
)
    requires
        valid_run(ps, r),
        0 <= i < ps.len(),
        ps[i].1 == PhaseOutcome::Emergency,
    ensures
        r == Err::<(), SystemError>(SystemError::Shutdown),
        ps.len() == i + 1,
{
    if i < ps.len() - 1 {
        assert(spec_next_step(ps[i].0, ps[i].1) == Step::Enter(ps[i + 1].0));
        assert(false);
    }
}

/// Emergency bypass law: when the emergency-shutdown signal wins the race
/// during the Starting or the Running phase of a valid run, the run returns
/// the fatal Shutdown error at once, the Stopping phase is never entered,
/// and no stopping hook appears in the run's hook trace. (An emergency win
/// during Stopping itself also fails the run — see
/// [`lemma_emergency_ends_run`] — but by then the stopping hooks have run.)
pub proof fn lemma_emergency_bypass(
    ps: Seq<(SystemState, PhaseOutcome)>,
    r: Result<(), SystemError>,
    n: nat,
    i: int,
)
    requires
        valid_run(ps, r),
        0 <= i < ps.len(),
        ps[i].0 == SystemState::Starting || ps[i].0 == SystemState::Running,
        ps[i].1 == PhaseOutcome::Emergency,
    ensures
        r == Err::<(), SystemError>(SystemError::Shutdown),
        ps.len() == i + 1,
        forall|j: int| 0 <= j < ps.len() ==> (#[trigger] ps[j].0) != SystemState::Stopping,
        forall|k: int| !run_hooks(ps, n).contains((SystemState::Stopping, k)),
{
    lemma_emergency_ends_run(ps, r, i);
    assert forall|j: int| 0 <= j < ps.len() implies (#[trigger] ps[j].0)
        != SystemState::Stopping by {
        if j < ps.len() - 1 && ps[j].0 == SystemState::Stopping {
            assert(spec_next_step(ps[j].0, ps[j].1) == Step::Enter(ps[j + 1].0));
            assert(false);
        }
    }
    assert forall|k: int| !run_hooks(ps, n).contains((SystemState::Stopping, k)) by {
        lemma_run_hooks_count(ps, n, (SystemState::Stopping, k));
        lemma_phase_occurrences_exists(ps, SystemState::Stopping);
        lemma_hook_count_contains(run_hooks(ps, n), (SystemState::Stopping, k));
    }
}

/// Fan-out law: over a valid run with `n` registered nodes, the hook trace
/// holds the record (p, k) at most once for any phase p and index k, and
/// holds it exactly when the run entered phase p and k indexes a registered
/// node: each entered phase runs each node's hook exactly once, and no hook
/// runs outside its phase.
pub proof fn lemma_fan_out(
    ps: Seq<(SystemState, PhaseOutcome)>,
    r: Result<(), SystemError>,
    n: nat,
    p: SystemState,
    k: int,
)
    requires
        valid_run(ps, r),
    ensures
        hook_count(run_hooks(ps, n), (p, k)) <= 1,
        run_hooks(ps, n).contains((p, k)) <==> ((exists|j: int|
            0 <= j < ps.len() && (#[trigger] ps[j].0) == p) && 0 <= k < n),
{
    lemma_valid_run_shape(ps, r);
    lemma_run_hooks_count(ps, n, (p, k));
    lemma_phase_occurrences_exists(ps, p);
    lemma_phase_occurrences_at_most_one(ps, p);
    lemma_hook_count_contains(run_hooks(ps, n), (p, k));
}

/// The lifecycle orchestrator: the registered nodes in registration order,
/// the shared context and mailbox, the lifecycle state, and the ghost
/// traces of what a run did.
pub struct System<N: Node> {
    state: SystemState,
    nodes: Vec<N>,
    context: Context,
    mailbox: Mailbox,
    phases: Ghost<Seq<(SystemState, PhaseOutcome)>>,
    hooks: Ghost<Seq<(SystemState, int)>>,
}

impl<N: Node> System<N> {
    /// The lifecycle state, as `get_state` reports it.
    pub closed spec fn lifecycle(self) -> SystemState {
        self.state
    }

    /// The registered nodes, in registration order.
    pub closed spec fn nodes_seq(self) -> Seq<N> {
        self.nodes@
    }

    /// How many nodes are registered.
    pub open spec fn node_count(self) -> nat {
        self.nodes_seq().len()
    }

    /// Neither shutdown signal of the system's context holds a pending
    /// notification. A freshly constructed system is in this state, and only
    /// a hook can leave it.
    pub closed spec fn signals_clear(self) -> bool {
        !self.context.graceful_pending() && !self.context.emergency_pending()
    }

    /// What the system's mailbox holds in transit, front first, each message
    /// as its tag and its payload.
    pub closed spec fn mailbox_contents(self) -> Seq<(u64, Seq<u8>)> {
        self.mailbox.contents()
    }

    /// One record per phase entered: the phase, and the outcome of the race
    /// that ended it.
    pub closed spec fn phase_trace(self) -> Seq<(SystemState, PhaseOutcome)> {
        self.phases@
    }

    /// One record per hook invocation: the phase, and the registration index
    /// of the node whose hook ran.
    pub closed spec fn hook_trace(self) -> Seq<(SystemState, int)> {
        self.hooks@
    }

    /// Construct a system with no nodes, a fresh context and a fresh
    /// mailbox.
    pub fn new() -> (s: System<N>)
        ensures
            s.lifecycle() == SystemState::NotStarted,
            s.node_count() == 0,
            s.signals_clear(),
            s.mailbox_contents() == Seq::<(u64, Seq<u8>)>::empty(),
            s.phase_trace() == Seq::<(SystemState, PhaseOutcome)>::empty(),
            s.hook_trace() == Seq::<(SystemState, int)>::empty(),
    {
        System {
            state: SystemState::NotStarted,
            nodes: Vec::new(),
            context: Context::new(),
            mailbox: Mailbox::new(),
            phases: Ghost(Seq::empty()),
            hooks: Ghost(Seq::empty()),
        }
    }

    /// Register a node. Builder-style: the system is consumed and returned,
    /// and the node is moved in — the caller loses independent access to it.
    /// Registration order is preserved and defines fan-out order.
    pub fn add_node(self, node: N) -> (s: System<N>)
        ensures
            s.lifecycle() == self.lifecycle(),
            s.nodes_seq() == self.nodes_seq().push(node),
            s.signals_clear() == self.signals_clear(),
            s.mailbox_contents() == self.mailbox_contents(),
            s.phase_trace() == self.phase_trace(),
            s.hook_trace() == self.hook_trace(),
    {
        let mut s = self;
        s.nodes.push(node);
        s
    }

    /// The lifecycle state right now.
    pub fn get_state(&self) -> (st: SystemState)
        ensures
            st == self.lifecycle(),
    {
        self.state
    }

    /// Run one phase: set the state, run the phase's hook once per node in
    /// registration order, then resolve the race. The winning signal is
    /// consumed; the graceful signal is left alone when emergency wins.
    fn run_phase(&mut self, phase: SystemState) -> (outcome: PhaseOutcome)
        requires
            is_phase(phase),
        ensures
            final(self).state == phase,
            final(self).nodes@.len() == old(self).nodes@.len(),
            final(self).phases@ == old(self).phases@.push((phase, outcome)),
            final(self).hooks@ == old(self).hooks@ + phase_hooks(
                phase,
                old(self).nodes@.len() as nat,
            ),
            !final(self).context.emergency_pending(),
            outcome != PhaseOutcome::Emergency ==> !final(self).context.graceful_pending(),
            old(self).nodes@.len() == 0 && !old(self).context.graceful_pending()
                && !old(self).context.emergency_pending() ==> outcome
                == PhaseOutcome::Completed,
    {
        self.state = phase;
        let ghost n0: nat = self.nodes@.len();
        let ghost hooks0 = self.hooks@;
        let ghost phases0 = self.phases@;
        let mut done: Vec<N> = Vec::new();
        while self.nodes.len() > 0
            invariant
                done@.len() + self.nodes@.len() == n0,
                self.hooks@ == hooks0 + phase_hooks(phase, done@.len() as nat),
                self.phases@ == phases0,
                self.state == phase,
                is_phase(phase),
                n0 == 0 ==> self.context == old(self).context,
            decreases self.nodes@.len(),
        {
            let mut node = self.nodes.remove(0);
            if phase == SystemState::Starting {
                node.starting(&mut self.context, &mut self.mailbox);
            } else if phase == SystemState::Running {
                node.running(&mut self.context, &mut self.mailbox);
            } else {
                node.stopping(&mut self.context, &mut self.mailbox);
            }
            let ghost k: int = done@.len() as int;
            done.push(node);
            self.hooks = Ghost(self.hooks@.push((phase, k)));
            proof {
                assert(phase_hooks(phase, (k + 1) as nat) =~= phase_hooks(
                    phase,
                    k as nat,
                ).push((phase, k)));
                assert(self.hooks@ =~= hooks0 + phase_hooks(phase, (k + 1) as nat));
            }
        }
        self.nodes = done;
        let outcome = if self.context.await_emergency_shutdown() {
            PhaseOutcome::Emergency
        } else if self.context.await_shutdown() {
            PhaseOutcome::Graceful
        } else {
            PhaseOutcome::Completed
        };
        self.phases = Ghost(self.phases@.push((phase, outcome)));
        outcome
    }

    /// Drive a full run: Starting, then Running unless a graceful win cut it
    /// out, then Stopping — unless an emergency win ended the run first.
    ///
    /// The phase records this run appends to the phase trace form one valid
    /// run of the state machine (see [`valid_run`]), the hook trace grows by
    /// exactly the hooks of those phases (see [`run_hooks`]), and on success
    /// the state ends at Stopped. The only error this driver surfaces is
    /// [`SystemError::Shutdown`], and then the state stays at the phase the
    /// emergency win aborted. Only a hook can make a run fail, so a run over
    /// no nodes, begun with both signals clear, completes successfully.
    pub fn start(&mut self) -> (r: Result<(), SystemError>)
        requires
            old(self).lifecycle() == SystemState::NotStarted,
        ensures
            final(self).node_count() == old(self).node_count(),
            final(self).phase_trace().len() > old(self).phase_trace().len(),
            final(self).phase_trace().subrange(
                0,
                old(self).phase_trace().len() as int,
            ) == old(self).phase_trace(),
            ({
                let ps = final(self).phase_trace().skip(old(self).phase_trace().len() as int);
                &&& valid_run(ps, r)
                &&& final(self).hook_trace() == old(self).hook_trace() + run_hooks(
                    ps,
                    old(self).node_count(),
                )
                &&& (r is Ok ==> final(self).lifecycle() == SystemState::Stopped)
                &&& (r is Err ==> r == Err::<(), SystemError>(SystemError::Shutdown)
                    && final(self).lifecycle() == ps.last().0)
            }),
            old(self).node_count() == 0 && old(self).signals_clear() ==> r is Ok,
    {
        let ghost ps0 = self.phases@;
        let ghost hk0 = self.hooks@;
        let ghost n: nat = self.nodes@.len();

        let o1 = self.run_phase(SystemState::Starting);
        let ghost a = (SystemState::Starting, o1);
        match transition(o1) {
            Err(e) => {
                proof {
                    lemma_run_hooks_small(a, a, a, n);
                    assert(self.phases@.skip(ps0.len() as int) =~= seq![a]);
                    assert(self.phases@.subrange(0, ps0.len() as int) =~= ps0);
                }
                return Err(e);
            },
            Ok(NextState::Continue) => {
                let o2 = self.run_phase(SystemState::Running);
                let ghost b = (SystemState::Running, o2);
                if let Err(e) = transition(o2) {
                    proof {
                        lemma_run_hooks_small(a, b, b, n);
                        assert(self.phases@.skip(ps0.len() as int) =~= seq![a, b]);
                        assert(self.phases@.subrange(0, ps0.len() as int) =~= ps0);
                        assert(self.hooks@ =~= hk0 + run_hooks(seq![a, b], n));
                    }
                    return Err(e);
                }
                let o3 = self.run_phase(SystemState::Stopping);
                let ghost c = (SystemState::Stopping, o3);
                match transition(o3) {
                    Err(e) => {
                        proof {
                            lemma_run_hooks_small(a, b, c, n);
                            assert(self.phases@.skip(ps0.len() as int) =~= seq![a, b, c]);
                            assert(self.phases@.subrange(0, ps0.len() as int) =~= ps0);
                            assert(self.hooks@ =~= hk0 + run_hooks(seq![a, b, c], n));
                        }
                        return Err(e);
                    },
                    Ok(_) => {
                        self.state = SystemState::Stopped;
                        proof {
                            lemma_run_hooks_small(a, b, c, n);
                            assert(self.phases@.skip(ps0.len() as int) =~= seq![a, b, c]);
                            assert(self.phases@.subrange(0, ps0.len() as int) =~= ps0);
                            assert(self.hooks@ =~= hk0 + run_hooks(seq![a, b, c], n));
                        }
                        return Ok(());
                    },
                }
            },
            Ok(NextState::Stop) => {
                let o3 = self.run_phase(SystemState::Stopping);
                let ghost c = (SystemState::Stopping, o3);
                match transition(o3) {
                    Err(e) => {
                        proof {
                            lemma_run_hooks_small(a, c, c, n);
                            assert(self.phases@.skip(ps0.len() as int) =~= seq![a, c]);
                            assert(self.phases@.subrange(0, ps0.len() as int) =~= ps0);
                            assert(self.hooks@ =~= hk0 + run_hooks(seq![a, c], n));
                        }
                        return Err(e);
                    },
                    Ok(_) => {
                        self.state = SystemState::Stopped;
                        proof {
                            lemma_run_hooks_small(a, c, c, n);
                            assert(self.phases@.skip(ps0.len() as int) =~= seq![a, c]);
                            assert(self.phases@.subrange(0, ps0.len() as int) =~= ps0);
                            assert(self.hooks@ =~= hk0 + run_hooks(seq![a, c], n));
                        }
                        return Ok(());
                    },
                }
            },
        }
    }
}

} // verus!
