use mini_tmux::kill::{
    kill_notice_text, kill_status, Kill, KillAction, KillEnd, KillEvent, KillPoll, GONE_INTERVAL_MS,
    GONE_PROBES, KILL_PATIENCE_MS,
};
use mini_tmux::poll::{ReadOutcome, Readiness};
use mini_tmux::protocol::{
    encode_client_message, encode_server_message, ClientMessage, ServerMessage,
};
use mini_tmux::server::{Server, ServerAction, ServerEvent, ServerPoll, Sides};

const POLL: KillAction = KillAction::Poll { millis: KILL_PATIENCE_MS };

fn tell(kill: &mut Kill, event: KillEvent) -> KillAction {
    assert!(kill.expects(&event));
    kill.step(event)
}

fn read(bytes: &[u8]) -> KillEvent {
    KillEvent::Read(ReadOutcome::Bytes(bytes.to_vec()))
}

fn output(bytes: &[u8]) -> Vec<u8> {
    encode_server_message(&ServerMessage::Output(bytes.to_vec()))
}

/// An attempt that has asked the server to let it go.
fn asked() -> Kill {
    let (mut kill, action) = Kill::start();
    assert_eq!(action, KillAction::Connect);
    assert_eq!(tell(&mut kill, KillEvent::Connected(true)), KillAction::Identify);
    assert_eq!(
        tell(&mut kill, KillEvent::Identified(Some(4321))),
        KillAction::Send(encode_client_message(&ClientMessage::Detach))
    );
    assert_eq!(tell(&mut kill, KillEvent::Sent(true)), POLL);
    kill
}

fn ready(kill: &mut Kill) {
    assert_eq!(tell(kill, KillEvent::Polled(KillPoll::Ready)), KillAction::Read);
}

/// The server that was to go is gone.
fn succeeds(kill: &mut Kill) {
    assert_eq!(tell(kill, KillEvent::Probed(false)), KillAction::RemoveSocket);
    assert_eq!(tell(kill, KillEvent::Done), KillAction::Finish(KillEnd::Ended));
    assert!(!kill.expects(&KillEvent::Done));
}

#[test]
fn an_idle_session_is_ended() {
    let mut kill = asked();
    ready(&mut kill);
    assert_eq!(tell(&mut kill, read(&output(b"vim screen"))), POLL);
    ready(&mut kill);
    assert_eq!(tell(&mut kill, read(b"")), KillAction::Terminate { pid: 4321 });
    assert_eq!(tell(&mut kill, KillEvent::Done), KillAction::Probe);
    assert_eq!(
        tell(&mut kill, KillEvent::Probed(true)),
        KillAction::Sleep { millis: GONE_INTERVAL_MS }
    );
    assert_eq!(tell(&mut kill, KillEvent::Done), KillAction::Probe);
    succeeds(&mut kill);
}

#[test]
fn a_session_that_has_written_nothing_is_ended() {
    let mut kill = asked();
    ready(&mut kill);
    assert_eq!(
        tell(&mut kill, KillEvent::Read(ReadOutcome::Failed)),
        KillAction::Terminate { pid: 4321 }
    );
    assert_eq!(tell(&mut kill, KillEvent::Done), KillAction::Probe);
    succeeds(&mut kill);
}

#[test]
fn a_session_that_is_not_there_cannot_be_ended() {
    let (mut kill, _) = Kill::start();
    assert_eq!(
        tell(&mut kill, KillEvent::Connected(false)),
        KillAction::Finish(KillEnd::NotRunning)
    );
}

#[test]
fn a_busy_session_is_left_alone() {
    let mut kill = asked();
    assert_eq!(tell(&mut kill, KillEvent::Polled(KillPoll::Interrupted)), POLL);
    assert_eq!(
        tell(&mut kill, KillEvent::Polled(KillPoll::TimedOut)),
        KillAction::Finish(KillEnd::Busy)
    );
}

#[test]
fn a_server_that_is_no_single_process_is_not_terminated() {
    for found in [None, Some(0i32), Some(-1)] {
        let (mut kill, _) = Kill::start();
        tell(&mut kill, KillEvent::Connected(true));
        assert_eq!(
            tell(&mut kill, KillEvent::Identified(found)),
            KillAction::Finish(KillEnd::StillRunning)
        );
    }
}

#[test]
fn a_shell_that_ends_by_itself_counts() {
    let mut kill = asked();
    let exit: Vec<u8> = encode_server_message(&ServerMessage::ShellExited { code: 1 });
    ready(&mut kill);
    assert_eq!(tell(&mut kill, read(&exit[..5])), POLL);
    ready(&mut kill);
    assert_eq!(tell(&mut kill, read(&exit[5..])), KillAction::Probe);
    succeeds(&mut kill);
}

#[test]
fn a_server_on_its_way_out_counts() {
    let (mut kill, _) = Kill::start();
    tell(&mut kill, KillEvent::Connected(true));
    tell(&mut kill, KillEvent::Identified(Some(7)));
    assert_eq!(tell(&mut kill, KillEvent::Sent(false)), KillAction::Probe);
    succeeds(&mut kill);
}

#[test]
fn a_server_that_stays_is_said_to_stay() {
    let mut kill = asked();
    ready(&mut kill);
    tell(&mut kill, read(b""));
    let mut action = tell(&mut kill, KillEvent::Done);
    let mut probes: u32 = 0;
    while action == KillAction::Probe {
        probes += 1;
        assert_eq!(
            tell(&mut kill, KillEvent::Probed(true)),
            KillAction::Sleep { millis: 20 }
        );
        action = tell(&mut kill, KillEvent::Done);
    }
    assert_eq!(probes, GONE_PROBES);
    assert_eq!(probes, 100u32);
    assert_eq!(action, KillAction::Finish(KillEnd::StillRunning));

    let mut kill = asked();
    assert_eq!(
        tell(&mut kill, KillEvent::Polled(KillPoll::Failed)),
        KillAction::Finish(KillEnd::StillRunning)
    );
}

/// The request to detach lets an attached server go on with its shell.
#[test]
fn asking_does_the_session_no_harm() {
    let (mut server, _) = Server::start();
    server.step(ServerEvent::Probed(true));
    server.step(ServerEvent::Bound(true));
    server.step(ServerEvent::Spawned(true));
    let quiet = Readiness { readable: false, closed: false };
    let readable = Readiness { readable: true, closed: false };
    let knock = Sides { shell: quiet, peer: readable };
    server.step(ServerEvent::Polled(ServerPoll::Ready(knock)));
    server.step(ServerEvent::Accepted(true));
    assert_eq!(server.step(ServerEvent::Opened(true)), ServerAction::PollClient);
    server.step(ServerEvent::Polled(ServerPoll::Ready(knock)));
    let frame: Vec<u8> = encode_client_message(&ClientMessage::Detach);
    assert_eq!(
        server.step(ServerEvent::Read(ReadOutcome::Bytes(frame))),
        ServerAction::Apply(Vec::new())
    );
    assert_eq!(server.step(ServerEvent::Done), ServerAction::CloseClient);
    assert_eq!(server.step(ServerEvent::Done), ServerAction::PollListener);
}

#[test]
fn ends_are_put_into_words() {
    assert_eq!(kill_notice_text(KillEnd::Ended, "work"), None);
    assert_eq!(
        kill_notice_text(KillEnd::NotRunning, "work").unwrap(),
        "mini-tmux: セッション 'work' は起動していません (`mini-tmux new -s work` で作成してください)"
    );
    assert_eq!(
        kill_notice_text(KillEnd::Busy, "work").unwrap(),
        "mini-tmux: セッション 'work' は応答しません (別のターミナルがアタッチ中なら、そちらで exit するか、デタッチしてから実行してください)"
    );
    assert_eq!(
        kill_notice_text(KillEnd::StillRunning, "work").unwrap(),
        "mini-tmux: セッション 'work' を終了できませんでした"
    );
}

#[test]
fn only_an_ended_session_is_a_success() {
    assert_eq!(kill_status(KillEnd::Ended), 0i32);
    assert_eq!(kill_status(KillEnd::NotRunning), 1i32);
    assert_eq!(kill_status(KillEnd::Busy), 1i32);
    assert_eq!(kill_status(KillEnd::StillRunning), 1i32);
}
