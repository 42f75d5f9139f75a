//! Lifecycle management: registered modules are started in registration order
//! and stopped in reverse order.
//!
//! Starting or stopping a module is asynchronous work done by the caller. The
//! manager decides, one step at a time, which module to call next and what
//! the lifecycle state becomes: a pass over the modules is driven by
//! [`LifecycleManager::step`], which is told whether the module it last asked
//! for succeeded and answers with the next module to call, or with the end of
//! the pass. A pass stops at the first module that fails, and then leaves the
//! lifecycle state as it was.

use vstd::prelude::*;

verus! {

/// Lifecycle state of the runtime (and of the engine).
#[derive(PartialEq, Eq, Structural, Clone, Copy, Debug)]
pub enum RuntimeState {
    /// Created, not started yet.
    Initialized,
    /// Started.
    Running,
    /// Stopped.
    Stopped,
}

/// Which way a pass goes over the modules.
#[derive(PartialEq, Eq, Structural, Clone, Copy, Debug)]
pub enum Phase {
    /// Calls each module's start hook, in registration order.
    Starting,
    /// Calls each module's stop hook, in reverse registration order.
    Stopping,
}

/// What the caller reports to [`LifecycleManager::step`].
#[derive(PartialEq, Eq, Structural, Clone, Copy, Debug)]
pub enum StepEvent {
    /// Begin the pass, or: the module last asked for succeeded.
    Proceed,
    /// The module last asked for failed.
    Failed,
}

/// What the caller is to do next.
#[derive(PartialEq, Eq, Structural, Clone, Copy, Debug)]
pub enum LifecycleAction {
    /// Call the hook of the module registered at this position.
    Invoke(usize),
    /// The pass is over and every module succeeded; the state has been updated.
    Finished,
    /// The pass is over because a module failed; the state is unchanged.
    Aborted,
}

/// The position of the module that a pass calls `k`-th, among `n` modules.
pub open spec fn order_at(phase: Phase, n: int, k: int) -> int {
    match phase {
        Phase::Starting => k,
        Phase::Stopping => n - 1 - k,
    }
}

/// The positions of the modules in the order in which a pass calls them.
pub open spec fn invocation_order(phase: Phase, n: nat) -> Seq<int> {
    Seq::new(n, |k: int| order_at(phase, n as int, k))
}

/// The state that a completed pass leaves behind.
pub open spec fn phase_target(phase: Phase) -> RuntimeState {
    match phase {
        Phase::Starting => RuntimeState::Running,
        Phase::Stopping => RuntimeState::Stopped,
    }
}

/// The progress of one pass.
pub struct LifecyclePass {
    phase: Phase,
    total: usize,
    completed: usize,
    awaiting: bool,
    outcome: Option<LifecycleAction>,
}

/// A pass, as values.
pub struct PassView {
    pub phase: Phase,
    /// Number of modules when the pass began.
    pub total: nat,
    /// Number of modules that have succeeded so far.
    pub completed: nat,
    /// The pass has asked for a module and waits for its outcome.
    pub awaiting: bool,
    /// How the pass ended, once it has.
    pub outcome: Option<LifecycleAction>,
}

impl LifecyclePass {
    #[verifier::type_invariant]
    spec fn well_formed(self) -> bool {
        &&& self.completed <= self.total
        &&& self.awaiting ==> self.completed < self.total
        &&& self.outcome is Some ==> !self.awaiting
    }

    pub closed spec fn view(&self) -> PassView {
        PassView {
            phase: self.phase,
            total: self.total as nat,
            completed: self.completed as nat,
            awaiting: self.awaiting,
            outcome: self.outcome,
        }
    }
}

/// One step of a pass: the pass and lifecycle state afterwards, and the action.
pub open spec fn step_spec(p: PassView, s: RuntimeState, e: StepEvent) -> (PassView, RuntimeState, LifecycleAction) {
    if p.outcome is Some {
        (p, s, p.outcome->0)
    } else if e == StepEvent::Failed {
        (PassView { awaiting: false, outcome: Some(LifecycleAction::Aborted), ..p }, s, LifecycleAction::Aborted)
    } else {
        let done: int = if p.awaiting { (p.completed + 1) as int } else { p.completed as int };
        if done >= p.total {
            (
                PassView { completed: p.total, awaiting: false, outcome: Some(LifecycleAction::Finished), ..p },
                phase_target(p.phase),
                LifecycleAction::Finished,
            )
        } else {
            (
                PassView { completed: done as nat, awaiting: true, ..p },
                s,
                LifecycleAction::Invoke(order_at(p.phase, p.total as int, done) as usize),
            )
        }
    }
}

/// Registered modules (handles of type `H`) and the lifecycle state.
pub struct LifecycleManager<H> {
    handlers: Vec<H>,
    state: RuntimeState,
}

impl<H> LifecycleManager<H> {
    /// The registered modules, in registration order.
    pub closed spec fn handlers(&self) -> Seq<H> {
        self.handlers@
    }

    /// The lifecycle state.
    pub closed spec fn current_state(&self) -> RuntimeState {
        self.state
    }

    /// A manager with no modules, in state `Initialized`.
    pub fn new() -> (m: LifecycleManager<H>)
        ensures
            m.handlers() == Seq::<H>::empty(),
            m.current_state() == RuntimeState::Initialized,
    {
        LifecycleManager { handlers: Vec::new(), state: RuntimeState::Initialized }
    }

    /// Registers a module after those already registered.
    pub fn register(&mut self, handler: H)
        ensures
            final(self).handlers() == old(self).handlers().push(handler),
            final(self).current_state() == old(self).current_state(),
    {
        self.handlers.push(handler);
    }

    /// The lifecycle state.
    pub fn state(&self) -> (s: RuntimeState)
        ensures
            s == self.current_state(),
    {
        self.state
    }

    /// Number of registered modules.
    pub fn handler_count(&self) -> (n: usize)
        ensures
            n == self.handlers().len(),
    {
        self.handlers.len()
    }

    /// The module registered at position `index`, if there is one.
    pub fn handler(&self, index: usize) -> (h: Option<&H>)
        ensures
            index < self.handlers().len() ==> h == Some(&self.handlers()[index as int]),
            index >= self.handlers().len() ==> h is None,
    {
        if index < self.handlers.len() {
            Some(&self.handlers[index])
        } else {
            None
        }
    }

    /// A new pass over the registered modules in the given direction.
    pub fn begin_pass(&self, phase: Phase) -> (p: LifecyclePass)
        ensures
            p.view() == (PassView {
                phase,
                total: self.handlers().len(),
                completed: 0,
                awaiting: false,
                outcome: None,
            }),
    {
        LifecyclePass { phase, total: self.handlers.len(), completed: 0, awaiting: false, outcome: None }
    }

    /// A new pass that starts the modules (what `start_all` runs).
    pub fn start_pass(&self) -> (p: LifecyclePass)
        ensures
            p.view() == (PassView {
                phase: Phase::Starting,
                total: self.handlers().len(),
                completed: 0,
                awaiting: false,
                outcome: None,
            }),
    {
        self.begin_pass(Phase::Starting)
    }

    /// A new pass that stops the modules (what `stop_all` runs).
    pub fn stop_pass(&self) -> (p: LifecyclePass)
        ensures
            p.view() == (PassView {
                phase: Phase::Stopping,
                total: self.handlers().len(),
                completed: 0,
                awaiting: false,
                outcome: None,
            }),
    {
        self.begin_pass(Phase::Stopping)
    }

    /// Advances `pass` by one event: asks for the next module, or ends the pass. When the
    /// last module succeeds, the state becomes `Running` (start) or `Stopped` (stop);
    /// a failure ends the pass with the state unchanged. Once ended, a pass keeps answering
    /// with how it ended.
    pub fn step(&mut self, pass: &mut LifecyclePass, event: StepEvent) -> (a: LifecycleAction)
        ensures
            (final(pass).view(), final(self).current_state(), a) == step_spec(
                old(pass).view(),
                old(self).current_state(),
                event,
            ),
            final(self).handlers() == old(self).handlers(),
    {
        proof {
            use_type_invariant(&*pass);
        }
        match pass.outcome {
            Some(a) => {
                return a;
            },
            None => {},
        }
        if event == StepEvent::Failed {
            pass.awaiting = false;
            pass.outcome = Some(LifecycleAction::Aborted);
            return LifecycleAction::Aborted;
        }
        let done: usize = if pass.awaiting { pass.completed + 1 } else { pass.completed };
        if done >= pass.total {
            pass.awaiting = false;
            pass.completed = pass.total;
            pass.outcome = Some(LifecycleAction::Finished);
            self.state = match pass.phase {
                Phase::Starting => RuntimeState::Running,
                Phase::Stopping => RuntimeState::Stopped,
            };
            LifecycleAction::Finished
        } else {
            pass.completed = done;
            pass.awaiting = true;
            let index: usize = match pass.phase {
                Phase::Starting => done,
                Phase::Stopping => pass.total - 1 - done,
            };
            LifecycleAction::Invoke(index)
        }
    }
}

} // verus!

verus! {

/// A pass as it begins.
pub open spec fn fresh_pass(phase: Phase, n: nat) -> PassView {
    PassView { phase, total: n, completed: 0, awaiting: false, outcome: None }
}

/// `k` steps of a pass in which every module asked for succeeds: the pass and state
/// afterwards, and the actions answered, in order.
pub open spec fn run_successes(p: PassView, s: RuntimeState, k: nat) -> (PassView, RuntimeState, Seq<LifecycleAction>)
    decreases k,
{
    if k == 0 {
        (p, s, Seq::empty())
    } else {
        let (p1, s1, a) = step_spec(p, s, StepEvent::Proceed);
        let (p2, s2, rest) = run_successes(p1, s1, (k - 1) as nat);
        (p2, s2, seq![a] + rest)
    }
}

/// The actions of a pass over `n` modules that all succeed: each module is asked for once,
/// in the pass's order, and then the pass finishes.
pub open spec fn successful_actions(phase: Phase, n: nat) -> Seq<LifecycleAction> {
    invocation_order(phase, n).map_values(|i: int| LifecycleAction::Invoke(i as usize)) + seq![
        LifecycleAction::Finished,
    ]
}

/// Stopping calls the modules in exactly the reverse of the order in which starting calls them.
pub proof fn law_stop_order_reverses_start_order(n: nat)
    ensures
        invocation_order(Phase::Stopping, n) == invocation_order(Phase::Starting, n).reverse(),
{
    assert(invocation_order(Phase::Stopping, n) =~= invocation_order(Phase::Starting, n).reverse());
}

/// Starting calls the modules in registration order: the `k`-th module called is the
/// `k`-th registered.
pub proof fn law_start_order_is_registration_order(n: nat)
    ensures
        forall|k: int| 0 <= k < n ==> #[trigger] invocation_order(Phase::Starting, n)[k] == k,
{
}

/// A failing module ends the pass, and the lifecycle state stays as it was.
pub proof fn law_failure_keeps_state(p: PassView, s: RuntimeState)
    requires
        p.outcome is None,
    ensures
        step_spec(p, s, StepEvent::Failed).1 == s,
        step_spec(p, s, StepEvent::Failed).2 == LifecycleAction::Aborted,
        step_spec(p, s, StepEvent::Failed).0.outcome == Some(LifecycleAction::Aborted),
{
}

/// A pass that has ended changes nothing any more and answers as it ended.
pub proof fn law_ended_pass_is_inert(p: PassView, s: RuntimeState, e: StepEvent)
    requires
        p.outcome is Some,
    ensures
        step_spec(p, s, e) == (p, s, p.outcome->0),
{
}

proof fn lemma_run_from(p: PassView, s: RuntimeState, next: nat)
    requires
        p.outcome is None,
        p.completed <= p.total,
        p.awaiting ==> p.completed < p.total,
        next == (if p.awaiting { p.completed + 1 } else { p.completed }),
        next <= p.total,
    ensures
        ({
            let (p2, s2, acts) = run_successes(p, s, (p.total - next + 1) as nat);
            &&& s2 == phase_target(p.phase)
            &&& acts == successful_actions(p.phase, p.total).subrange(next as int, (p.total + 1) as int)
            &&& p2.outcome == Some(LifecycleAction::Finished)
        }),
    decreases p.total - next,
{
    let n = p.total;
    let full = successful_actions(p.phase, n);
    let (p1, s1, a) = step_spec(p, s, StepEvent::Proceed);
    let k = (n - next + 1) as nat;
    assert(run_successes(p, s, k) == ({
        let (p2, s2, rest) = run_successes(p1, s1, (k - 1) as nat);
        (p2, s2, seq![a] + rest)
    }));
    if next >= n {
        assert(a == LifecycleAction::Finished);
        assert(run_successes(p1, s1, 0) == (p1, s1, Seq::<LifecycleAction>::empty()));
        assert(full.subrange(next as int, (n + 1) as int) =~= seq![LifecycleAction::Finished]);
    } else {
        assert(p1.completed == next && p1.awaiting);
        lemma_run_from(p1, s1, next + 1);
        assert(a == LifecycleAction::Invoke(order_at(p.phase, n as int, next as int) as usize));
        assert(full[next as int] == a);
        assert(full.subrange(next as int, (n + 1) as int) =~= seq![a] + full.subrange((next + 1) as int, (n + 1) as int));
    }
}

/// When every module succeeds, a pass over `n` modules asks for each module once, in the
/// pass's order (registration order to start, its reverse to stop), then finishes, leaving
/// the state `Running` after a start and `Stopped` after a stop.
pub proof fn law_successful_pass(phase: Phase, n: nat, s: RuntimeState)
    ensures
        ({
            let (p2, s2, acts) = run_successes(fresh_pass(phase, n), s, n + 1);
            &&& acts == successful_actions(phase, n)
            &&& s2 == phase_target(phase)
            &&& p2.outcome == Some(LifecycleAction::Finished)
        }),
{
    lemma_run_from(fresh_pass(phase, n), s, 0);
    assert(successful_actions(phase, n).subrange(0, (n + 1) as int) =~= successful_actions(phase, n));
}

} // verus!

verus! {

/// The minimal runtime: modules register with it, and it starts and stops them through its
/// lifecycle manager.
pub struct Runtime<H> {
    lifecycle: LifecycleManager<H>,
}

impl<H> Runtime<H> {
    /// The registered modules, in registration order.
    pub closed spec fn handlers(&self) -> Seq<H> {
        self.lifecycle.handlers()
    }

    /// The lifecycle state.
    pub closed spec fn current_state(&self) -> RuntimeState {
        self.lifecycle.current_state()
    }

    /// A runtime with no modules, in state `Initialized`.
    pub fn new() -> (r: Runtime<H>)
        ensures
            r.handlers() == Seq::<H>::empty(),
            r.current_state() == RuntimeState::Initialized,
    {
        Runtime { lifecycle: LifecycleManager::new() }
    }

    /// Registers a module.
    pub fn register(&mut self, handler: H)
        ensures
            final(self).handlers() == old(self).handlers().push(handler),
            final(self).current_state() == old(self).current_state(),
    {
        self.lifecycle.register(handler);
    }

    /// The lifecycle state.
    pub fn state(&self) -> (s: RuntimeState)
        ensures
            s == self.current_state(),
    {
        self.lifecycle.state()
    }

    /// The module registered at position `index`, if there is one.
    pub fn handler(&self, index: usize) -> (h: Option<&H>)
        ensures
            index < self.handlers().len() ==> h == Some(&self.handlers()[index as int]),
            index >= self.handlers().len() ==> h is None,
    {
        self.lifecycle.handler(index)
    }

    /// A pass that starts the registered modules.
    pub fn start(&self) -> (p: LifecyclePass)
        ensures
            p.view() == fresh_pass(Phase::Starting, self.handlers().len()),
    {
        self.lifecycle.start_pass()
    }

    /// A pass that stops the registered modules.
    pub fn stop(&self) -> (p: LifecyclePass)
        ensures
            p.view() == fresh_pass(Phase::Stopping, self.handlers().len()),
    {
        self.lifecycle.stop_pass()
    }

    /// Advances a start or stop pass by one event (see [`LifecycleManager::step`]).
    pub fn step(&mut self, pass: &mut LifecyclePass, event: StepEvent) -> (a: LifecycleAction)
        ensures
            (final(pass).view(), final(self).current_state(), a) == step_spec(
                old(pass).view(),
                old(self).current_state(),
                event,
            ),
            final(self).handlers() == old(self).handlers(),
    {
        self.lifecycle.step(pass, event)
    }
}

} // verus!
