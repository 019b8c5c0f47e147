use mini_tmux::launch::{
    notice_text, Launch, LaunchAction, LaunchEvent, Notice, READY_INTERVAL_MS, READY_PROBES,
};

fn tell(launch: &mut Launch, event: LaunchEvent) -> LaunchAction {
    assert!(launch.expects(&event));
    launch.step(event)
}

#[test]
fn a_running_session_is_attached_to_at_once() {
    for (mut launch, action) in [Launch::start_new(), Launch::start_attach()] {
        assert_eq!(action, LaunchAction::Probe);
        assert_eq!(tell(&mut launch, LaunchEvent::Probed(true)), LaunchAction::Attach);
        assert_eq!(
            tell(&mut launch, LaunchEvent::Attached(true)),
            LaunchAction::Exit { status: 0 }
        );
        assert!(!launch.expects(&LaunchEvent::Probed(true)));
    }
}

#[test]
fn attach_wants_a_session_that_is_there() {
    let (mut launch, _) = Launch::start_attach();
    assert_eq!(
        tell(&mut launch, LaunchEvent::Probed(false)),
        LaunchAction::Report(Notice::NotRunning)
    );
    assert_eq!(tell(&mut launch, LaunchEvent::Reported), LaunchAction::Exit { status: 1 });
}

#[test]
fn new_starts_a_server_and_waits_for_it() {
    assert_eq!(READY_PROBES, 100u32);
    assert_eq!(READY_INTERVAL_MS, 20u64);
    let (mut launch, _) = Launch::start_new();
    assert_eq!(tell(&mut launch, LaunchEvent::Probed(false)), LaunchAction::SpawnServer);
    assert_eq!(tell(&mut launch, LaunchEvent::Spawned), LaunchAction::Probe);
    assert_eq!(
        tell(&mut launch, LaunchEvent::Probed(false)),
        LaunchAction::Sleep { millis: 20 }
    );
    assert_eq!(tell(&mut launch, LaunchEvent::Slept), LaunchAction::Probe);
    assert_eq!(tell(&mut launch, LaunchEvent::Probed(true)), LaunchAction::Attach);
}

#[test]
fn a_server_that_never_comes_up_is_given_its_time() {
    let (mut launch, _) = Launch::start_new();
    tell(&mut launch, LaunchEvent::Probed(false));
    let mut action = tell(&mut launch, LaunchEvent::Spawned);
    let mut probes: u32 = 0;
    while action == LaunchAction::Probe {
        probes += 1;
        assert_eq!(
            tell(&mut launch, LaunchEvent::Probed(false)),
            LaunchAction::Sleep { millis: 20 }
        );
        action = tell(&mut launch, LaunchEvent::Slept);
    }
    assert_eq!(probes, 100u32);
    assert_eq!(action, LaunchAction::Report(Notice::TimedOut));
    assert_eq!(tell(&mut launch, LaunchEvent::Reported), LaunchAction::Attach);
    assert_eq!(
        tell(&mut launch, LaunchEvent::Attached(false)),
        LaunchAction::Report(Notice::AttachFailed)
    );
    assert_eq!(tell(&mut launch, LaunchEvent::Reported), LaunchAction::Exit { status: 1 });
}

#[test]
fn notices_are_put_into_words() {
    assert_eq!(
        notice_text(Notice::NotRunning, "work", ""),
        "mini-tmux: セッション 'work' は起動していません (`mini-tmux new -s work` で作成してください)"
    );
    assert_eq!(
        notice_text(Notice::TimedOut, "work", ""),
        "mini-tmux: セッション 'work' の起動待ちがタイムアウトしました"
    );
    assert_eq!(notice_text(Notice::AttachFailed, "work", "why"), "mini-tmux: why");
}
