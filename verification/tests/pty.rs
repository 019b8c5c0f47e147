use mini_tmux::daemon::daemon_plan;
use mini_tmux::pty::{child_plan, on_failure, OnFailure, Step, EXEC_FAILED};

#[test]
fn the_child_takes_its_terminal_first() {
    assert_eq!(
        child_plan(5, 6),
        vec![
            Step::NewSession,
            Step::TakeTerminal { fd: 6 },
            Step::Close { fd: 5 },
            Step::Duplicate { from: 6, to: 0 },
            Step::Duplicate { from: 6, to: 1 },
            Step::Duplicate { from: 6, to: 2 },
            Step::Close { fd: 6 },
        ]
    );
}

#[test]
fn a_standard_descriptor_is_not_closed() {
    for fd in [0i32, 1, 2] {
        let plan: Vec<Step> = daemon_plan(fd);
        assert_eq!(plan.len(), 4usize);
        assert_eq!(plan[3], Step::Duplicate { from: fd, to: 2 });
    }
    assert_eq!(
        daemon_plan(3),
        vec![
            Step::NewSession,
            Step::Duplicate { from: 3, to: 0 },
            Step::Duplicate { from: 3, to: 1 },
            Step::Duplicate { from: 3, to: 2 },
            Step::Close { fd: 3 },
        ]
    );
}

#[test]
fn some_failures_are_worse_than_others() {
    assert_eq!(on_failure(Step::NewSession), OnFailure::GiveUp);
    assert_eq!(on_failure(Step::TakeTerminal { fd: 4 }), OnFailure::Warn);
    assert_eq!(on_failure(Step::Close { fd: 4 }), OnFailure::Ignore);
    assert_eq!(on_failure(Step::Duplicate { from: 4, to: 0 }), OnFailure::GiveUp);
    assert_eq!(EXEC_FAILED, 127i32);
}
