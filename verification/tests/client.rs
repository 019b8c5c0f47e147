use mini_tmux::client::{ClientAction, ClientEnd, ClientEvent, ClientPoll, ClientRelay, Ends};
use mini_tmux::poll::{ReadOutcome, Readiness};
use mini_tmux::protocol::{
    encode_client_message, encode_server_message, ClientMessage, ServerMessage,
};

const QUIET: Readiness = Readiness { readable: false, closed: false };
const READABLE: Readiness = Readiness { readable: true, closed: false };
const CLOSED: Readiness = Readiness { readable: false, closed: true };

fn ready(stdin: Readiness, socket: Readiness) -> ClientEvent {
    ClientEvent::Polled(ClientPoll::Ready { ends: Ends { stdin, socket }, resized: QUIET })
}

fn read(bytes: &[u8]) -> ClientEvent {
    ClientEvent::Read(ReadOutcome::Bytes(bytes.to_vec()))
}

/// Hands an event over, as the program does: only one that is expected.
fn tell(relay: &mut ClientRelay, event: ClientEvent) -> ClientAction {
    assert!(relay.expects(&event));
    relay.step(event)
}

/// A relay that has told its size and polls.
fn polling() -> ClientRelay {
    let (mut relay, action) = ClientRelay::start();
    assert_eq!(action, ClientAction::AskSize);
    let action = tell(&mut relay, ClientEvent::Size(Some((24, 80))));
    assert_eq!(
        action,
        ClientAction::Send(encode_client_message(&ClientMessage::Resize { rows: 24, cols: 80 }))
    );
    assert_eq!(tell(&mut relay, ClientEvent::Sent(false)), ClientAction::Poll);
    relay
}

#[test]
fn a_size_that_cannot_be_had_is_not_told() {
    let (mut relay, _) = ClientRelay::start();
    assert_eq!(tell(&mut relay, ClientEvent::Size(None)), ClientAction::Poll);
}

#[test]
fn only_fitting_events_are_expected() {
    let (relay, _) = ClientRelay::start();
    assert!(relay.expects(&ClientEvent::Size(None)));
    assert!(!relay.expects(&ClientEvent::Sent(true)));
    assert!(!relay.expects(&ClientEvent::Discarded));
    assert!(!relay.expects(&read(b"x")));
    assert!(!relay.expects(&ClientEvent::Shown(true)));
    assert!(!relay.expects(&ready(QUIET, QUIET)));
}

#[test]
fn typed_keys_are_sent() {
    let mut relay = polling();
    assert_eq!(tell(&mut relay, ready(READABLE, QUIET)), ClientAction::ReadStdin);
    assert_eq!(
        tell(&mut relay, read(b"ls\r")),
        ClientAction::Send(encode_client_message(&ClientMessage::Input(b"ls\r".to_vec())))
    );
    assert_eq!(tell(&mut relay, ClientEvent::Sent(true)), ClientAction::Poll);
}

#[test]
fn a_lone_prefix_sends_nothing_yet() {
    let mut relay = polling();
    tell(&mut relay, ready(READABLE, QUIET));
    assert_eq!(tell(&mut relay, read(b"\x02")), ClientAction::Poll);
    tell(&mut relay, ready(READABLE, QUIET));
    assert_eq!(
        tell(&mut relay, read(b"\x02")),
        ClientAction::Send(encode_client_message(&ClientMessage::Input(b"\x02".to_vec())))
    );
}

#[test]
fn detaching_sends_input_first_and_then_leaves() {
    let mut relay = polling();
    tell(&mut relay, ready(READABLE, QUIET));
    assert_eq!(
        tell(&mut relay, read(b"abc\x02d")),
        ClientAction::Send(encode_client_message(&ClientMessage::Input(b"abc".to_vec())))
    );
    assert_eq!(
        tell(&mut relay, ClientEvent::Sent(true)),
        ClientAction::Send(encode_client_message(&ClientMessage::Detach))
    );
    assert_eq!(
        tell(&mut relay, ClientEvent::Sent(false)),
        ClientAction::Finish(ClientEnd::Detached)
    );
    assert!(!relay.expects(&ready(QUIET, QUIET)));
}

#[test]
fn a_failed_send_of_input_ends_the_client() {
    let mut relay = polling();
    tell(&mut relay, ready(READABLE, QUIET));
    tell(&mut relay, read(b"abc\x02d"));
    assert_eq!(
        tell(&mut relay, ClientEvent::Sent(false)),
        ClientAction::Finish(ClientEnd::Closed)
    );
}

#[test]
fn a_signal_during_poll_changes_nothing() {
    let mut relay = polling();
    assert_eq!(
        tell(&mut relay, ClientEvent::Polled(ClientPoll::Interrupted)),
        ClientAction::Poll
    );
    assert_eq!(tell(&mut relay, ready(QUIET, READABLE)), ClientAction::ReadSocket);
}

#[test]
fn a_failed_poll_ends_the_client() {
    let mut relay = polling();
    assert_eq!(
        tell(&mut relay, ClientEvent::Polled(ClientPoll::Failed)),
        ClientAction::Finish(ClientEnd::Closed)
    );
}

#[test]
fn a_resize_is_told_before_the_round_goes_on() {
    let mut relay = polling();
    let event = ClientEvent::Polled(ClientPoll::Ready {
        ends: Ends { stdin: READABLE, socket: QUIET },
        resized: READABLE,
    });
    assert_eq!(tell(&mut relay, event), ClientAction::DiscardResize);
    assert_eq!(tell(&mut relay, ClientEvent::Discarded), ClientAction::AskSize);
    assert_eq!(
        tell(&mut relay, ClientEvent::Size(Some((50, 132)))),
        ClientAction::Send(encode_client_message(&ClientMessage::Resize { rows: 50, cols: 132 }))
    );
    assert_eq!(tell(&mut relay, ClientEvent::Sent(true)), ClientAction::ReadStdin);
}

#[test]
fn output_is_shown_in_order_and_across_cuts() {
    let mut relay = polling();
    let mut stream: Vec<u8> = encode_server_message(&ServerMessage::Output(b"one".to_vec()));
    stream.extend_from_slice(&encode_server_message(&ServerMessage::Output(b"two".to_vec())));
    stream.extend_from_slice(&encode_server_message(&ServerMessage::Output(b"three".to_vec())));
    let mut shown: Vec<Vec<u8>> = Vec::new();
    for piece in stream.chunks(7) {
        assert_eq!(tell(&mut relay, ready(QUIET, READABLE)), ClientAction::ReadSocket);
        match tell(&mut relay, read(piece)) {
            ClientAction::Show(outputs) => shown.extend(outputs),
            other => panic!("{other:?}"),
        }
        assert_eq!(tell(&mut relay, ClientEvent::Shown(true)), ClientAction::Poll);
    }
    assert_eq!(shown, vec![b"one".to_vec(), b"two".to_vec(), b"three".to_vec()]);
}

#[test]
fn the_end_of_the_shell_ends_the_client() {
    let mut relay = polling();
    let mut stream: Vec<u8> = encode_server_message(&ServerMessage::Output(b"bye".to_vec()));
    stream.extend_from_slice(&encode_server_message(&ServerMessage::ShellExited { code: 3 }));
    stream.extend_from_slice(&encode_server_message(&ServerMessage::Output(b"late".to_vec())));
    tell(&mut relay, ready(QUIET, READABLE));
    assert_eq!(tell(&mut relay, read(&stream)), ClientAction::Show(vec![b"bye".to_vec()]));
    assert_eq!(
        tell(&mut relay, ClientEvent::Shown(true)),
        ClientAction::Finish(ClientEnd::ShellExited { code: 3 })
    );
}

#[test]
fn a_terminal_that_takes_no_output_ends_the_client() {
    let mut relay = polling();
    let frame: Vec<u8> = encode_server_message(&ServerMessage::Output(b"x".to_vec()));
    tell(&mut relay, ready(QUIET, READABLE));
    tell(&mut relay, read(&frame));
    assert_eq!(
        tell(&mut relay, ClientEvent::Shown(false)),
        ClientAction::Finish(ClientEnd::Closed)
    );
}

#[test]
fn lost_ends_end_the_client() {
    let mut relay = polling();
    assert_eq!(
        tell(&mut relay, ready(CLOSED, READABLE)),
        ClientAction::Finish(ClientEnd::Closed)
    );

    let mut relay = polling();
    assert_eq!(tell(&mut relay, ready(QUIET, CLOSED)), ClientAction::Finish(ClientEnd::Closed));

    let mut relay = polling();
    tell(&mut relay, ready(READABLE, QUIET));
    assert_eq!(tell(&mut relay, read(b"")), ClientAction::Finish(ClientEnd::Closed));

    let mut relay = polling();
    tell(&mut relay, ready(QUIET, READABLE));
    assert_eq!(
        tell(&mut relay, ClientEvent::Read(ReadOutcome::Failed)),
        ClientAction::Finish(ClientEnd::Closed)
    );
}
