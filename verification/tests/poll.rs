use mini_tmux::poll::{readiness, PollBits, ReadOutcome, Readiness, SystemFlags};
use nix::poll::PollFlags;

const QUIET: Readiness = Readiness { readable: false, closed: false };

#[test]
fn flags_of_the_system_are_understood() {
    let system = SystemFlags::new();
    let cases: [(PollFlags, bool, bool); 6] = [
        (PollFlags::POLLIN, true, false),
        (PollFlags::POLLHUP, false, true),
        (PollFlags::POLLERR, false, true),
        (PollFlags::POLLIN | PollFlags::POLLHUP, true, true),
        (PollFlags::POLLHUP | PollFlags::POLLERR, false, true),
        (PollFlags::POLLOUT, false, false),
    ];
    for (flags, readable, closed) in cases {
        assert_eq!(system.readiness(Some(flags.bits())), Readiness { readable, closed });
    }
}

#[test]
fn all_flags_mean_both() {
    assert_eq!(SystemFlags::new().readiness(Some(-1)), Readiness { readable: true, closed: true });
}

#[test]
fn no_flags_mean_neither() {
    assert_eq!(SystemFlags::new().readiness(None), QUIET);
    assert_eq!(SystemFlags::new().readiness(Some(0)), QUIET);
}

#[test]
fn the_input_flag_is_one() {
    assert_eq!(
        SystemFlags::new().readiness(Some(1)),
        Readiness { readable: true, closed: false }
    );
    assert_eq!(PollFlags::POLLIN.bits(), 1i16);
}

/// Each flag alone is taken for what it is, on every known system.
#[test]
fn known_flags_are_taken_for_what_they_are() {
    for (hangup, error) in [(0x10i16, 8i16), (0x80, 4), (0x2000, 0x4000)] {
        let flags = PollBits { input: 1, hangup, error };
        assert_eq!(readiness(Some(1), flags), Readiness { readable: true, closed: false });
        assert_eq!(readiness(Some(hangup), flags), Readiness { readable: false, closed: true });
        assert_eq!(readiness(Some(error), flags), Readiness { readable: false, closed: true });
        assert_eq!(readiness(Some(1 | hangup), flags), Readiness { readable: true, closed: true });
    }
}

#[test]
fn readiness_goes_by_common_bits() {
    let flags = PollBits { input: 1, hangup: 16, error: 8 };
    assert_eq!(readiness(Some(0x11), flags), Readiness { readable: true, closed: true });
    assert_eq!(readiness(Some(0x04), flags), QUIET);
    assert_eq!(readiness(Some(0x08), flags), Readiness { readable: false, closed: true });
    assert_eq!(readiness(Some(-1), flags), Readiness { readable: true, closed: true });
    assert_eq!(readiness(None, flags), QUIET);
}

#[test]
fn end_of_file_and_failure_count_alike() {
    assert_eq!(ReadOutcome::Bytes(vec![1u8, 2]).into_arrived(), Some(vec![1u8, 2]));
    assert_eq!(ReadOutcome::Bytes(Vec::new()).into_arrived(), None);
    assert_eq!(ReadOutcome::Failed.into_arrived(), None);
}
