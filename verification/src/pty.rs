//! Starting a shell on a terminal of its own.
//!
//! Between the fork and the shell's first instruction the child makes a
//! handful of system calls, and their order matters. This module lays them
//! down as a plan, made before the fork, and shows what the plan comes to.

use vstd::prelude::*;

verus! {

/// The exit status of a child that could not turn into the shell.
pub const EXEC_FAILED: i32 = 127;

/// One system call on the way.
#[derive(Debug, Clone, Copy, PartialEq, Eq, Structural)]
pub enum Step {
    /// Become the leader of a new session, which has no terminal.
    NewSession,
    /// Make this the controlling terminal of the session.
    TakeTerminal { fd: i32 },
    Close { fd: i32 },
    /// Make `to` another name for what `from` refers to.
    Duplicate { from: i32, to: i32 },
}

/// What to do where a step fails.
#[derive(Debug, Clone, Copy, PartialEq, Eq, Structural)]
pub enum OnFailure {
    /// Go no further.
    GiveUp,
    /// Say so and go on.
    Warn,
    /// Go on.
    Ignore,
}

/// The steps that give the standard descriptors 0, 1 and 2 to `fd`, which is
/// then no longer needed under its own number.
pub open spec fn stdio_steps(fd: i32) -> Seq<Step> {
    let dups = seq![
        Step::Duplicate { from: fd, to: 0 },
        Step::Duplicate { from: fd, to: 1 },
        Step::Duplicate { from: fd, to: 2 },
    ];
    if fd > 2 {
        dups.push(Step::Close { fd })
    } else {
        dups
    }
}

/// The steps of a child that is to become the shell of the terminal whose far
/// side is `slave_fd`. The leader of the session takes the terminal at once;
/// without that, a hangup of the terminal would not reach the programs in it.
pub open spec fn child_steps(master_fd: i32, slave_fd: i32) -> Seq<Step> {
    seq![
        Step::NewSession,
        Step::TakeTerminal { fd: slave_fd },
        Step::Close { fd: master_fd },
    ] + stdio_steps(slave_fd)
}

/// What to do where this step fails.
pub open spec fn failure_of(step: Step) -> OnFailure {
    match step {
        Step::NewSession => OnFailure::GiveUp,
        Step::TakeTerminal { .. } => OnFailure::Warn,
        Step::Close { .. } => OnFailure::Ignore,
        Step::Duplicate { .. } => OnFailure::GiveUp,
    }
}

/// Appends the steps that give the standard descriptors to `fd`.
pub fn push_stdio_plan(plan: &mut Vec<Step>, fd: i32)
    ensures
        final(plan)@ == old(plan)@ + stdio_steps(fd),
{
    plan.push(Step::Duplicate { from: fd, to: 0 });
    plan.push(Step::Duplicate { from: fd, to: 1 });
    plan.push(Step::Duplicate { from: fd, to: 2 });
    if fd > 2 {
        plan.push(Step::Close { fd });
    }
    assert(plan@ =~= old(plan)@ + stdio_steps(fd));
}

/// The steps of a child that is to become the shell.
pub fn child_plan(master_fd: i32, slave_fd: i32) -> (plan: Vec<Step>)
    ensures
        plan@ == child_steps(master_fd, slave_fd),
{
    let mut plan: Vec<Step> = Vec::new();
    plan.push(Step::NewSession);
    plan.push(Step::TakeTerminal { fd: slave_fd });
    plan.push(Step::Close { fd: master_fd });
    push_stdio_plan(&mut plan, slave_fd);
    assert(plan@ =~= child_steps(master_fd, slave_fd));
    plan
}

/// What to do where this step fails.
pub fn on_failure(step: Step) -> (rule: OnFailure)
    ensures
        rule == failure_of(step),
{
    match step {
        Step::NewSession => OnFailure::GiveUp,
        Step::TakeTerminal { .. } => OnFailure::Warn,
        Step::Close { .. } => OnFailure::Ignore,
        Step::Duplicate { .. } => OnFailure::GiveUp,
    }
}

// ---------------------------------------------------------------------------
// What the plans come to
// ---------------------------------------------------------------------------

/// What the steps change: the descriptors of the process, each with what it
/// refers to, whether the process leads a session, and its terminal.
#[verifier::ext_equal]
pub struct Process {
    pub open: Map<i32, int>,
    pub leads_session: bool,
    pub terminal: Option<int>,
}

/// The process after a step that succeeds. A terminal is taken only by the
/// leader of a session that has none.
pub open spec fn after_step(p: Process, step: Step) -> Process {
    match step {
        Step::NewSession => Process { leads_session: true, terminal: None, ..p },
        Step::TakeTerminal { fd } => if p.leads_session && p.terminal is None
            && p.open.dom().contains(fd) {
            Process { terminal: Some(p.open[fd]), ..p }
        } else {
            p
        },
        Step::Close { fd } => Process { open: p.open.remove(fd), ..p },
        Step::Duplicate { from, to } => if p.open.dom().contains(from) {
            Process { open: p.open.insert(to, p.open[from]), ..p }
        } else {
            p
        },
    }
}

/// The process after all the steps.
pub open spec fn after_steps(p: Process, steps: Seq<Step>) -> Process
    decreases steps.len(),
{
    if steps.len() == 0 {
        p
    } else {
        after_step(after_steps(p, steps.drop_last()), steps.last())
    }
}

/// Whether 0, 1 and 2 refer to what `fd` referred to, `fd` itself is closed
/// unless it is one of them, and every other descriptor is as it was.
pub open spec fn stdio_given(before: Map<i32, int>, after: Map<i32, int>, fd: i32) -> bool {
    &&& forall|i: i32| 0 <= i <= 2 ==> #[trigger] after.dom().contains(i) && after[i] == before[fd]
    &&& forall|i: i32|
        !(0 <= i <= 2) ==> (#[trigger] after.dom().contains(i) <==> before.dom().contains(i) && i
            != fd)
    &&& forall|i: i32|
        !(0 <= i <= 2) && i != fd && before.dom().contains(i) ==> #[trigger] after[i] == before[i]
}

/// The standard descriptors are given to `fd`, whatever its number, and it does
/// not stay open under that number beside them.
pub proof fn lemma_stdio_is_given(p: Process, fd: i32)
    requires
        p.open.dom().contains(fd),
        fd >= 0,
    ensures
        stdio_given(p.open, after_steps(p, stdio_steps(fd)).open, fd),
        after_steps(p, stdio_steps(fd)).leads_session == p.leads_session,
        after_steps(p, stdio_steps(fd)).terminal == p.terminal,
{
    reveal_with_fuel(after_steps, 5);
    let steps = stdio_steps(fd);
    let d0 = Step::Duplicate { from: fd, to: 0 };
    let d1 = Step::Duplicate { from: fd, to: 1 };
    let d2 = Step::Duplicate { from: fd, to: 2 };
    let three = seq![d0, d1, d2];
    assert(three.drop_last() =~= seq![d0, d1]);
    assert(seq![d0, d1].drop_last() =~= seq![d0]);
    assert(seq![d0].drop_last() =~= Seq::empty());
    if fd > 2 {
        assert(steps.drop_last() =~= three);
    }
}

/// Two plans one after the other.
pub proof fn lemma_after_both(p: Process, a: Seq<Step>, b: Seq<Step>)
    ensures
        after_steps(p, a + b) == after_steps(after_steps(p, a), b),
    decreases b.len(),
{
    if b.len() == 0 {
        assert(a + b =~= a);
    } else {
        assert((a + b).drop_last() =~= a + b.drop_last());
        lemma_after_both(p, a, b.drop_last());
    }
}

/// A child whose steps succeed leads a session of its own, has the new
/// terminal as its controlling terminal and as its standard descriptors, and
/// keeps neither side of it open beside them.
pub proof fn lemma_child_owns_its_terminal(p: Process, master_fd: i32, slave_fd: i32)
    requires
        p.open.dom().contains(slave_fd),
        p.open.dom().contains(master_fd),
        master_fd != slave_fd,
        master_fd >= 0,
        slave_fd >= 0,
    ensures
        ({
            let child = after_steps(p, child_steps(master_fd, slave_fd));
            &&& child.leads_session
            &&& child.terminal == Some(p.open[slave_fd])
            &&& stdio_given(p.open.remove(master_fd), child.open, slave_fd)
        }),
{
    let first = seq![
        Step::NewSession,
        Step::TakeTerminal { fd: slave_fd },
        Step::Close { fd: master_fd },
    ];
    let mid = after_steps(p, first);
    assert(mid == (Process {
        open: p.open.remove(master_fd),
        leads_session: true,
        terminal: Some(p.open[slave_fd]),
    })) by {
        reveal_with_fuel(after_steps, 4);
        assert(first.drop_last() =~= seq![
            Step::NewSession,
            Step::TakeTerminal { fd: slave_fd },
        ]);
        assert(first.drop_last().drop_last() =~= seq![Step::NewSession]);
        assert(first.drop_last().drop_last().drop_last() =~= Seq::empty());
    }
    lemma_after_both(p, first, stdio_steps(slave_fd));
    lemma_stdio_is_given(mid, slave_fd);
}

/// The order of the child's steps: it starts a session first of all, takes the
/// terminal next, and gives away its standard descriptors only after that.
pub proof fn lemma_terminal_is_taken_at_once(master_fd: i32, slave_fd: i32)
    ensures
        child_steps(master_fd, slave_fd)[0] == Step::NewSession,
        child_steps(master_fd, slave_fd)[1] == (Step::TakeTerminal { fd: slave_fd }),
        forall|i: int|
            2 <= i < child_steps(master_fd, slave_fd).len() ==> {
                let step = #[trigger] child_steps(master_fd, slave_fd)[i];
                step is Close || step is Duplicate
            },
{
}

/// The standard descriptors are given in their order and nothing else is done
/// but to close what was given.
pub proof fn lemma_stdio_steps_are_few(fd: i32)
    ensures
        forall|i: int|
            0 <= i < 3 ==> #[trigger] stdio_steps(fd)[i] == (Step::Duplicate {
                from: fd,
                to: i as i32,
            }),
        fd <= 2 ==> stdio_steps(fd).len() == 3,
        fd > 2 ==> stdio_steps(fd).len() == 4 && stdio_steps(fd)[3] == (Step::Close { fd }),
{
}

/// Without a session of its own or without its standard descriptors the child
/// goes no further; without the terminal it warns; what stays open is no harm.
pub proof fn lemma_what_failures_lead_to(step: Step)
    ensures
        failure_of(step) is GiveUp <==> step is NewSession || step is Duplicate,
        failure_of(step) is Warn <==> step is TakeTerminal,
        failure_of(step) is Ignore <==> step is Close,
{
}

} // verus!
