//! Turning the server into a background process.
//!
//! The process that is to stay is a child of a process that ends at once, so
//! that whoever started it gets on with their own work. It leads a session of
//! its own, which has no terminal, and its standard descriptors lead nowhere:
//! closing the terminal that it was started from does not reach it.

use crate::pty::{push_stdio_plan, Step};
use vstd::prelude::*;

verus! {

/// The steps of a process that is to become the daemon; `null_fd` is where its
/// standard descriptors are to lead.
pub open spec fn daemon_steps(null_fd: i32) -> Seq<Step> {
    seq![Step::NewSession] + crate::pty::stdio_steps(null_fd)
}

/// The steps of a process that is to become the daemon.
pub fn daemon_plan(null_fd: i32) -> (plan: Vec<Step>)
    ensures
        plan@ == daemon_steps(null_fd),
{
    let mut plan: Vec<Step> = Vec::new();
    plan.push(Step::NewSession);
    push_stdio_plan(&mut plan, null_fd);
    assert(plan@ =~= daemon_steps(null_fd));
    plan
}

/// A daemon whose steps succeed leads a session of its own without a terminal,
/// and its standard descriptors lead to what `null_fd` led to.
pub proof fn lemma_daemon_has_no_terminal(p: crate::pty::Process, null_fd: i32)
    requires
        p.open.dom().contains(null_fd),
        null_fd >= 0,
    ensures
        ({
            let daemon = crate::pty::after_steps(p, daemon_steps(null_fd));
            &&& daemon.leads_session
            &&& daemon.terminal is None
            &&& crate::pty::stdio_given(p.open, daemon.open, null_fd)
        }),
{
    let first = seq![Step::NewSession];
    assert(first.drop_last() =~= Seq::empty());
    let mid = crate::pty::after_steps(p, first);
    assert(crate::pty::after_steps(p, first.drop_last()) == p);
    assert(mid == crate::pty::after_step(p, Step::NewSession));
    crate::pty::lemma_after_both(p, first, crate::pty::stdio_steps(null_fd));
    crate::pty::lemma_stdio_is_given(mid, null_fd);
}

/// The daemon starts its session before it gives up its descriptors.
pub proof fn lemma_session_comes_first(null_fd: i32)
    ensures
        daemon_steps(null_fd)[0] == Step::NewSession,
        daemon_steps(null_fd).skip(1) == crate::pty::stdio_steps(null_fd),
{
    assert(daemon_steps(null_fd).skip(1) =~= crate::pty::stdio_steps(null_fd));
}

} // verus!
