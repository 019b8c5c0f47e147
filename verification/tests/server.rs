use mini_tmux::poll::{ReadOutcome, Readiness};
use mini_tmux::protocol::{
    encode_client_message, encode_server_message, ClientMessage, ServerMessage,
};
use mini_tmux::server::{
    remember_output, Server, ServerAction, ServerEnd, ServerEvent, ServerPoll, ShellRequest, Sides,
    NO_EXIT_CODE, REPLAY_BUFFER_BYTES,
};

const QUIET: Readiness = Readiness { readable: false, closed: false };
const READABLE: Readiness = Readiness { readable: true, closed: false };
const CLOSED: Readiness = Readiness { readable: false, closed: true };
const LAST_WORDS: Readiness = Readiness { readable: true, closed: true };

fn ready(shell: Readiness, peer: Readiness) -> ServerEvent {
    ServerEvent::Polled(ServerPoll::Ready(Sides { shell, peer }))
}

fn read(bytes: &[u8]) -> ServerEvent {
    ServerEvent::Read(ReadOutcome::Bytes(bytes.to_vec()))
}

fn output(bytes: &[u8]) -> ServerAction {
    ServerAction::Send(encode_server_message(&ServerMessage::Output(bytes.to_vec())))
}

fn tell(server: &mut Server, event: ServerEvent) -> ServerAction {
    assert!(server.expects(&event));
    server.step(event)
}

/// A server whose shell runs and that has no client.
fn waiting() -> Server {
    let (mut server, action) = Server::start();
    assert_eq!(action, ServerAction::ProbeSocket);
    assert_eq!(tell(&mut server, ServerEvent::Probed(true)), ServerAction::Bind);
    assert_eq!(tell(&mut server, ServerEvent::Bound(true)), ServerAction::SpawnShell);
    assert_eq!(tell(&mut server, ServerEvent::Spawned(true)), ServerAction::PollListener);
    server
}

/// Lets a client attach and returns what it is greeted with.
fn attach(server: &mut Server) -> ServerAction {
    assert_eq!(tell(server, ready(QUIET, READABLE)), ServerAction::Accept);
    assert_eq!(tell(server, ServerEvent::Accepted(true)), ServerAction::OpenClient);
    tell(server, ServerEvent::Opened(true))
}

/// A server with a client and nothing remembered.
fn serving() -> Server {
    let mut server = waiting();
    assert_eq!(attach(&mut server), ServerAction::PollClient);
    server
}

/// The last steps of a server whose shell has ended.
fn cleans_up(server: &mut Server) {
    assert_eq!(tell(server, ServerEvent::Reaped(None)), ServerAction::CloseShell);
    assert_eq!(tell(server, ServerEvent::Done), ServerAction::RemoveSocket);
    assert_eq!(
        tell(server, ServerEvent::Done),
        ServerAction::Finish(ServerEnd::ShellExited)
    );
    assert!(!server.expects(&ServerEvent::Done));
}

#[test]
fn output_is_remembered_up_to_the_limit() {
    assert_eq!(REPLAY_BUFFER_BYTES, 8192usize);
    let mut buffer: Vec<u8> = Vec::new();
    remember_output(&mut buffer, b"abc");
    assert_eq!(buffer, b"abc");
    remember_output(&mut buffer, b"");
    assert_eq!(buffer, b"abc");

    let block: Vec<u8> = vec![b'x'; 8189];
    remember_output(&mut buffer, &block);
    assert_eq!(buffer.len(), 8192usize);
    assert_eq!(&buffer[..4], b"abcx");

    remember_output(&mut buffer, b"yz");
    assert_eq!(buffer.len(), 8192usize);
    assert_eq!(&buffer[..2], b"cx");
    assert_eq!(&buffer[8189..], b"xyz");
}

#[test]
fn one_long_output_leaves_only_its_end() {
    let mut buffer: Vec<u8> = b"old".to_vec();
    let mut long: Vec<u8> = vec![1u8; 10_000];
    long.push(2);
    remember_output(&mut buffer, &long);
    assert_eq!(buffer.len(), 8192usize);
    assert_eq!(buffer[8190], 1u8);
    assert_eq!(buffer[8191], 2u8);
}

/// It does not matter in how many reads the output came.
#[test]
fn remembering_does_not_depend_on_cuts() {
    let all: Vec<u8> = (0u32..20_000).map(|i| (i % 251) as u8).collect();
    let mut whole: Vec<u8> = Vec::new();
    remember_output(&mut whole, &all);
    for size in [1usize, 7, 4096, 8192, 9000] {
        let mut pieces: Vec<u8> = Vec::new();
        for piece in all.chunks(size) {
            remember_output(&mut pieces, piece);
        }
        assert_eq!(pieces, whole);
    }
    assert_eq!(whole, all[20_000 - 8192..].to_vec());
}

#[test]
fn a_stale_socket_is_removed_before_binding() {
    let (mut server, _) = Server::start();
    assert_eq!(tell(&mut server, ServerEvent::Probed(false)), ServerAction::RemoveSocket);
    assert_eq!(tell(&mut server, ServerEvent::Done), ServerAction::Bind);
}

#[test]
fn a_session_in_use_fails_and_keeps_its_socket() {
    let (mut server, _) = Server::start();
    assert_eq!(tell(&mut server, ServerEvent::Probed(true)), ServerAction::Bind);
    assert_eq!(
        tell(&mut server, ServerEvent::Bound(false)),
        ServerAction::Finish(ServerEnd::Failed)
    );
}

#[test]
fn without_a_shell_the_server_fails() {
    let (mut server, _) = Server::start();
    tell(&mut server, ServerEvent::Probed(true));
    tell(&mut server, ServerEvent::Bound(true));
    assert_eq!(
        tell(&mut server, ServerEvent::Spawned(false)),
        ServerAction::Finish(ServerEnd::Failed)
    );
}

#[test]
fn the_shell_is_read_while_nobody_is_attached() {
    let mut server = waiting();
    assert_eq!(tell(&mut server, ready(READABLE, QUIET)), ServerAction::ReadShell);
    assert_eq!(tell(&mut server, read(b"make: ")), ServerAction::PollListener);
    assert_eq!(tell(&mut server, ready(READABLE, READABLE)), ServerAction::ReadShell);
    assert_eq!(tell(&mut server, read(b"done\n")), ServerAction::Accept);
    assert_eq!(tell(&mut server, ServerEvent::Accepted(true)), ServerAction::OpenClient);
    assert_eq!(tell(&mut server, ServerEvent::Opened(true)), output(b"make: done\n"));
    assert_eq!(tell(&mut server, ServerEvent::Sent(true)), ServerAction::PollClient);
}

#[test]
fn a_client_that_cannot_be_greeted_has_left() {
    let mut server = waiting();
    tell(&mut server, ready(READABLE, QUIET));
    tell(&mut server, read(b"$ "));
    assert_eq!(attach(&mut server), output(b"$ "));
    assert_eq!(tell(&mut server, ServerEvent::Sent(false)), ServerAction::CloseClient);
    assert_eq!(tell(&mut server, ServerEvent::Done), ServerAction::PollListener);
}

#[test]
fn a_connection_that_cannot_be_used_is_reported() {
    let mut server = waiting();
    tell(&mut server, ready(QUIET, READABLE));
    tell(&mut server, ServerEvent::Accepted(true));
    assert_eq!(tell(&mut server, ServerEvent::Opened(false)), ServerAction::CloseClient);
    assert_eq!(tell(&mut server, ServerEvent::Done), ServerAction::ReportClientError);
    assert_eq!(tell(&mut server, ServerEvent::Done), ServerAction::PollListener);
}

#[test]
fn a_failed_accept_or_poll_ends_a_waiting_server() {
    let mut server = waiting();
    tell(&mut server, ready(QUIET, READABLE));
    assert_eq!(
        tell(&mut server, ServerEvent::Accepted(false)),
        ServerAction::Finish(ServerEnd::Failed)
    );
    let mut server = waiting();
    assert_eq!(
        tell(&mut server, ServerEvent::Polled(ServerPoll::Failed)),
        ServerAction::Finish(ServerEnd::Failed)
    );
}

#[test]
fn signals_change_nothing_for_the_server() {
    let mut server = waiting();
    let signal = || ServerEvent::Polled(ServerPoll::Interrupted);
    assert_eq!(tell(&mut server, signal()), ServerAction::PollListener);
    assert_eq!(attach(&mut server), ServerAction::PollClient);
    assert_eq!(tell(&mut server, signal()), ServerAction::PollClient);
    assert_eq!(tell(&mut server, ready(READABLE, QUIET)), ServerAction::ReadShell);
}

#[test]
fn output_goes_to_the_client_and_is_remembered() {
    let mut server = serving();
    assert_eq!(tell(&mut server, ready(READABLE, QUIET)), ServerAction::ReadShell);
    assert_eq!(tell(&mut server, read(b"hello")), output(b"hello"));
    assert_eq!(tell(&mut server, ServerEvent::Sent(true)), ServerAction::PollClient);
    assert_eq!(tell(&mut server, ready(QUIET, CLOSED)), ServerAction::CloseClient);
    assert_eq!(tell(&mut server, ServerEvent::Done), ServerAction::PollListener);
    assert_eq!(attach(&mut server), output(b"hello"));
}

#[test]
fn what_a_client_asks_for_is_applied_up_to_detach() {
    let mut server = serving();
    let mut stream: Vec<u8> =
        encode_client_message(&ClientMessage::Resize { rows: 30, cols: 90 });
    stream.extend_from_slice(&encode_client_message(&ClientMessage::Input(b"ls\r".to_vec())));
    stream.extend_from_slice(&encode_client_message(&ClientMessage::Detach));
    stream.extend_from_slice(&encode_client_message(&ClientMessage::Input(b"rm\r".to_vec())));
    assert_eq!(tell(&mut server, ready(QUIET, READABLE)), ServerAction::ReadClient);
    assert_eq!(
        tell(&mut server, read(&stream)),
        ServerAction::Apply(vec![
            ShellRequest::Resize { rows: 30, cols: 90 },
            ShellRequest::Write(b"ls\r".to_vec()),
        ])
    );
    assert_eq!(tell(&mut server, ServerEvent::Done), ServerAction::CloseClient);
    assert_eq!(tell(&mut server, ServerEvent::Done), ServerAction::PollListener);
}

#[test]
fn messages_in_pieces_are_put_together() {
    let mut server = serving();
    let frame: Vec<u8> = encode_client_message(&ClientMessage::Input(b"echo".to_vec()));
    for (i, piece) in frame.chunks(4).enumerate() {
        assert_eq!(tell(&mut server, ready(QUIET, READABLE)), ServerAction::ReadClient);
        let wanted: Vec<ShellRequest> = if i == 2 {
            vec![ShellRequest::Write(b"echo".to_vec())]
        } else {
            Vec::new()
        };
        assert_eq!(tell(&mut server, read(piece)), ServerAction::Apply(wanted));
        assert_eq!(tell(&mut server, ServerEvent::Done), ServerAction::PollClient);
    }
}

#[test]
fn half_a_message_is_forgotten_with_its_client() {
    let mut server = serving();
    let frame: Vec<u8> = encode_client_message(&ClientMessage::Input(b"echo".to_vec()));
    tell(&mut server, ready(QUIET, READABLE));
    tell(&mut server, read(&frame[..6]));
    tell(&mut server, ServerEvent::Done);
    tell(&mut server, ready(QUIET, CLOSED));
    tell(&mut server, ServerEvent::Done);
    assert_eq!(attach(&mut server), ServerAction::PollClient);
    tell(&mut server, ready(QUIET, READABLE));
    assert_eq!(
        tell(&mut server, read(&frame)),
        ServerAction::Apply(vec![ShellRequest::Write(b"echo".to_vec())])
    );
}

#[test]
fn a_client_that_hangs_up_is_read_first() {
    let mut server = serving();
    let frame: Vec<u8> = encode_client_message(&ClientMessage::Input(b"x".to_vec()));
    assert_eq!(tell(&mut server, ready(QUIET, LAST_WORDS)), ServerAction::ReadClient);
    assert_eq!(
        tell(&mut server, read(&frame)),
        ServerAction::Apply(vec![ShellRequest::Write(b"x".to_vec())])
    );
    assert_eq!(tell(&mut server, ServerEvent::Done), ServerAction::CloseClient);
}

#[test]
fn no_client_ends_the_shell() {
    let ways: [ServerEvent; 3] = [
        ready(QUIET, CLOSED),
        ServerEvent::Polled(ServerPoll::Failed),
        ready(READABLE, QUIET),
    ];
    for event in ways {
        let mut server = serving();
        let mut action = tell(&mut server, event);
        if action == ServerAction::ReadShell {
            tell(&mut server, read(b"out"));
            action = tell(&mut server, ServerEvent::Sent(false));
        }
        assert_eq!(action, ServerAction::CloseClient);
        assert_eq!(tell(&mut server, ServerEvent::Done), ServerAction::PollListener);
    }
    let mut server = serving();
    tell(&mut server, ready(QUIET, READABLE));
    assert_eq!(tell(&mut server, read(b"")), ServerAction::CloseClient);
    assert_eq!(tell(&mut server, ServerEvent::Done), ServerAction::PollListener);
}

#[test]
fn the_end_of_the_shell_is_told_once_and_cleaned_up() {
    let mut server = serving();
    assert_eq!(tell(&mut server, ready(READABLE, QUIET)), ServerAction::ReadShell);
    assert_eq!(
        tell(&mut server, ServerEvent::Read(ReadOutcome::Failed)),
        ServerAction::ReapShell
    );
    assert_eq!(
        tell(&mut server, ServerEvent::Reaped(Some(42))),
        ServerAction::Send(encode_server_message(&ServerMessage::ShellExited { code: 42 }))
    );
    assert_eq!(tell(&mut server, ServerEvent::Sent(false)), ServerAction::CloseClient);
    assert_eq!(tell(&mut server, ServerEvent::Done), ServerAction::ReapShell);
    cleans_up(&mut server);
}

#[test]
fn a_shell_that_was_killed_has_no_code() {
    assert_eq!(NO_EXIT_CODE, -1i32);
    let mut server = serving();
    assert_eq!(tell(&mut server, ready(CLOSED, READABLE)), ServerAction::ReapShell);
    assert_eq!(
        tell(&mut server, ServerEvent::Reaped(None)),
        ServerAction::Send(encode_server_message(&ServerMessage::ShellExited { code: -1 }))
    );
}

#[test]
fn the_last_output_is_sent_before_the_end_is_told() {
    let mut server = serving();
    assert_eq!(tell(&mut server, ready(LAST_WORDS, QUIET)), ServerAction::ReadShell);
    assert_eq!(tell(&mut server, read(b"logout")), output(b"logout"));
    assert_eq!(tell(&mut server, ServerEvent::Sent(true)), ServerAction::ReapShell);
}

#[test]
fn a_shell_that_ends_unwatched_is_cleaned_up() {
    let mut server = waiting();
    assert_eq!(tell(&mut server, ready(CLOSED, READABLE)), ServerAction::ReapShell);
    cleans_up(&mut server);

    let mut server = waiting();
    tell(&mut server, ready(READABLE, QUIET));
    assert_eq!(tell(&mut server, read(b"")), ServerAction::ReapShell);
    cleans_up(&mut server);

    let mut server = waiting();
    tell(&mut server, ready(LAST_WORDS, QUIET));
    assert_eq!(tell(&mut server, read(b"bye")), ServerAction::ReapShell);
    cleans_up(&mut server);
}
