use mini_tmux::client::{ClientAction, ClientEnd, ClientEvent, ClientPoll, ClientRelay, Ends};
use mini_tmux::poll::{ReadOutcome, Readiness};
use mini_tmux::server::{Server, ServerAction, ServerEvent, ServerPoll, ShellRequest, Sides};

const QUIET: Readiness = Readiness { readable: false, closed: false };
const READABLE: Readiness = Readiness { readable: true, closed: false };

/// A client whose size is unknown and that polls.
fn client() -> ClientRelay {
    let (mut relay, _) = ClientRelay::start();
    assert_eq!(relay.step(ClientEvent::Size(None)), ClientAction::Poll);
    relay
}

/// A server that has read `before` from its shell and has just been attached
/// to, and the bytes that it greets the client with.
fn server(before: &[u8]) -> (Server, Vec<u8>) {
    let (mut server, _) = Server::start();
    server.step(ServerEvent::Probed(false));
    server.step(ServerEvent::Done);
    server.step(ServerEvent::Bound(true));
    server.step(ServerEvent::Spawned(true));
    server.step(ServerEvent::Polled(ServerPoll::Ready(Sides { shell: READABLE, peer: READABLE })));
    server.step(ServerEvent::Read(ReadOutcome::Bytes(before.to_vec())));
    server.step(ServerEvent::Accepted(true));
    match server.step(ServerEvent::Opened(true)) {
        ServerAction::Send(frame) => {
            assert_eq!(server.step(ServerEvent::Sent(true)), ServerAction::PollClient);
            (server, frame)
        },
        other => panic!("{other:?}"),
    }
}

/// What one read of the terminal makes the client write to the socket.
fn type_keys(relay: &mut ClientRelay, keys: &[u8]) -> (Vec<u8>, Option<ClientEnd>) {
    let ends = Ends { stdin: READABLE, socket: QUIET };
    relay.step(ClientEvent::Polled(ClientPoll::Ready { ends, resized: QUIET }));
    let mut action = relay.step(ClientEvent::Read(ReadOutcome::Bytes(keys.to_vec())));
    let mut stream: Vec<u8> = Vec::new();
    loop {
        match action {
            ClientAction::Send(frame) => {
                stream.extend_from_slice(&frame);
                action = relay.step(ClientEvent::Sent(true));
            },
            ClientAction::Finish(end) => return (stream, Some(end)),
            _ => return (stream, None),
        }
    }
}

#[test]
fn keys_reach_the_shell() {
    let mut relay = client();
    let (mut server, _) = server(b"$ ");
    let mut stream: Vec<u8> = Vec::new();
    for keys in [&b"echo \x02"[..], &b"\x02hi\r"[..], &b"\x02"[..], &b"xls"[..], &b"\r\x02dlost"[..]] {
        let (bytes, _) = type_keys(&mut relay, keys);
        stream.extend_from_slice(&bytes);
    }
    let mut written: Vec<u8> = Vec::new();
    let mut left = false;
    for piece in stream.chunks(3) {
        assert!(!left);
        server.step(ServerEvent::Polled(ServerPoll::Ready(Sides { shell: QUIET, peer: READABLE })));
        match server.step(ServerEvent::Read(ReadOutcome::Bytes(piece.to_vec()))) {
            ServerAction::Apply(requests) => {
                for request in requests {
                    match request {
                        ShellRequest::Write(bytes) => written.extend_from_slice(&bytes),
                        ShellRequest::Resize { .. } => panic!("no size was told"),
                    }
                }
            },
            other => panic!("{other:?}"),
        }
        left = server.step(ServerEvent::Done) == ServerAction::CloseClient;
    }
    assert!(left);
    assert_eq!(written, b"echo \x02hi\r\x02xls\r");
}

#[test]
fn output_reaches_the_terminal() {
    let mut relay = client();
    let (mut server, mut stream) = server(b"$ ");
    for out in [&b"total 8\n"[..], &b"file\n$ "[..]] {
        server.step(ServerEvent::Polled(ServerPoll::Ready(Sides { shell: READABLE, peer: QUIET })));
        match server.step(ServerEvent::Read(ReadOutcome::Bytes(out.to_vec()))) {
            ServerAction::Send(frame) => stream.extend_from_slice(&frame),
            other => panic!("{other:?}"),
        }
        server.step(ServerEvent::Sent(true));
    }
    let mut shown: Vec<u8> = Vec::new();
    for piece in stream.chunks(4) {
        let ends = Ends { stdin: QUIET, socket: READABLE };
        relay.step(ClientEvent::Polled(ClientPoll::Ready { ends, resized: QUIET }));
        match relay.step(ClientEvent::Read(ReadOutcome::Bytes(piece.to_vec()))) {
            ClientAction::Show(outputs) => {
                for bytes in outputs {
                    shown.extend_from_slice(&bytes);
                }
            },
            other => panic!("{other:?}"),
        }
        relay.step(ClientEvent::Shown(true));
    }
    assert_eq!(shown, b"$ total 8\nfile\n$ ");
}

/// Sizes cross the socket like keys do.
#[test]
fn window_sizes_reach_the_shell() {
    let (mut relay, _) = ClientRelay::start();
    let (mut server, _) = server(b"$ ");
    let frame: Vec<u8> = match relay.step(ClientEvent::Size(Some((31, 101)))) {
        ClientAction::Send(frame) => frame,
        other => panic!("{other:?}"),
    };
    server.step(ServerEvent::Polled(ServerPoll::Ready(Sides { shell: QUIET, peer: READABLE })));
    assert_eq!(
        server.step(ServerEvent::Read(ReadOutcome::Bytes(frame))),
        ServerAction::Apply(vec![ShellRequest::Resize { rows: 31, cols: 101 }])
    );
}

/// The code that the shell ended with is the one that the client ends with.
#[test]
fn the_exit_code_reaches_the_client() {
    let mut relay = client();
    let (mut server, _) = server(b"$ ");
    server.step(ServerEvent::Polled(ServerPoll::Ready(Sides { shell: READABLE, peer: QUIET })));
    server.step(ServerEvent::Read(ReadOutcome::Failed));
    let frame: Vec<u8> = match server.step(ServerEvent::Reaped(Some(130))) {
        ServerAction::Send(frame) => frame,
        other => panic!("{other:?}"),
    };
    for (piece, last) in [(frame[..4].to_vec(), false), (frame[4..].to_vec(), true)] {
        let ends = Ends { stdin: QUIET, socket: READABLE };
        relay.step(ClientEvent::Polled(ClientPoll::Ready { ends, resized: QUIET }));
        relay.step(ClientEvent::Read(ReadOutcome::Bytes(piece)));
        let action = relay.step(ClientEvent::Shown(true));
        if last {
            assert_eq!(action, ClientAction::Finish(ClientEnd::ShellExited { code: 130 }));
        } else {
            assert_eq!(action, ClientAction::Poll);
        }
    }
}
