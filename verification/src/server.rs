//! The server's end of a session: the process that owns the shell, keeps
//! reading it, and serves one client at a time.
//!
//! [`Server`] decides and the program around it acts. Every call of
//! [`Server::step`] takes what came of the last action and names the next one.
//! Between clients the server waits for one, but it reads the shell all the
//! while: a shell that nobody reads soon blocks in its own output. What it
//! reads it remembers, so that a client that attaches sees the last screen.

use crate::poll::{ReadOutcome, Readiness};
use crate::protocol::{
    decode_client_message, encode_server_message, ClientMessage, ClientMessageView, ServerMessage,
    ServerMessageView,
};
use vstd::prelude::*;
use vstd::slice::slice_to_vec;

verus! {

/// How much of the shell's last output is kept for the next client: about a
/// screen.
pub const REPLAY_BUFFER_BYTES: usize = 8 * 1024;

/// The exit code that a client is told where the shell did not exit by itself.
pub const NO_EXIT_CODE: i32 = -1;

/// What a poll said of the shell and the socket of the client.
#[derive(Debug, Clone, Copy, PartialEq, Eq, Structural)]
pub struct Sides {
    pub shell: Readiness,
    pub peer: Readiness,
}

/// How a poll of the shell and of its peer ended. The peer is the client, or
/// the listening socket while there is none.
#[derive(Debug, Clone, Copy, PartialEq, Eq, Structural)]
pub enum ServerPoll {
    Ready(Sides),
    /// A signal arrived before anything was ready.
    Interrupted,
    Failed,
}

/// How a server ends.
#[derive(Debug, Clone, Copy, PartialEq, Eq, Structural)]
pub enum ServerEnd {
    /// The shell has ended and everything is cleaned up.
    ShellExited,
    /// A step without which there is no session failed.
    Failed,
}

/// What the server waits for.
#[derive(Debug, Clone, Copy, PartialEq, Eq, Structural)]
pub enum ServerPhase {
    /// Whether somebody listens on the socket of this session already.
    Probing,
    /// The end of removing the socket that an earlier server left behind.
    RemovingStale,
    Binding,
    Spawning,
    /// A client, or output of the shell.
    Waiting,
    /// Output of the shell while there is no client.
    WaitReading { sides: Sides },
    Accepting,
    /// Whether the new connection can be used.
    Opening,
    /// The end of closing a connection that could not be used.
    Dropping,
    /// The end of reporting it.
    Reporting,
    /// The end of sending a new client what the shell wrote last.
    Replaying,
    /// The client, or output of the shell.
    Serving,
    /// Output of the shell for the client.
    ServeReading { sides: Sides },
    /// The end of sending it.
    SendingOutput { sides: Sides },
    ReadingClient { closed: bool },
    /// The end of doing what the client asked for.
    Applying { detached: bool, closed: bool },
    /// The end of closing the connection of a client that left.
    Leaving,
    /// The exit code of the shell, for the client.
    ReapingForClient,
    /// The end of telling the client.
    Notifying,
    /// The end of closing the last connection.
    LeavingLast,
    /// The end of the shell's process.
    Reaping,
    ClosingShell,
    RemovingSocket,
    Finished,
}

/// What came of an action.
#[derive(Debug, PartialEq, Eq)]
pub enum ServerEvent {
    /// Whether the probe of the socket was answered.
    Probed(bool),
    Bound(bool),
    Spawned(bool),
    Polled(ServerPoll),
    Read(ReadOutcome),
    Accepted(bool),
    Opened(bool),
    /// Whether the frame was written.
    Sent(bool),
    /// The exit code, where the shell exited by itself.
    Reaped(Option<i32>),
    /// The end of an action whose outcome does not matter.
    Done,
}

/// Something that a client asks of the shell's terminal.
#[derive(Debug, PartialEq, Eq)]
pub enum ShellRequest {
    /// Write these bytes to the shell.
    Write(Vec<u8>),
    /// Give the terminal this size.
    Resize { rows: u16, cols: u16 },
}

/// What to do next.
#[derive(Debug, PartialEq, Eq)]
pub enum ServerAction {
    /// Try to connect to the socket of this session.
    ProbeSocket,
    /// Remove the socket of this session from the file system.
    RemoveSocket,
    /// Listen on the socket of this session.
    Bind,
    /// Start the shell on a terminal of its own.
    SpawnShell,
    /// Wait for output of the shell or a new client.
    PollListener,
    /// Wait for output of the shell or a message of the client.
    PollClient,
    ReadShell,
    Accept,
    /// Make the new connection ready for reading and writing.
    OpenClient,
    ReportClientError,
    /// Write this frame to the client.
    Send(Vec<u8>),
    ReadClient,
    /// Do these one after the other; that one of them fails does not matter.
    Apply(Vec<ShellRequest>),
    CloseClient,
    /// Wait for the shell's process to end.
    ReapShell,
    /// Close the shell's terminal.
    CloseShell,
    Finish(ServerEnd),
}

/// What a [`ServerEvent`] says.
pub enum ServerEventView {
    Probed(bool),
    Bound(bool),
    Spawned(bool),
    Polled(ServerPoll),
    /// The bytes that arrived, or `None` where the other side is gone.
    Read(Option<Seq<u8>>),
    Accepted(bool),
    Opened(bool),
    Sent(bool),
    Reaped(Option<i32>),
    Done,
}

/// What a [`ShellRequest`] says.
pub enum ShellRequestView {
    Write(Seq<u8>),
    Resize { rows: u16, cols: u16 },
}

/// What a [`ServerAction`] says.
#[verifier::ext_equal]
pub enum ServerActionView {
    ProbeSocket,
    RemoveSocket,
    Bind,
    SpawnShell,
    PollListener,
    PollClient,
    ReadShell,
    Accept,
    OpenClient,
    ReportClientError,
    Send(Seq<u8>),
    ReadClient,
    Apply(Seq<ShellRequestView>),
    CloseClient,
    ReapShell,
    CloseShell,
    Finish(ServerEnd),
}

/// What the server remembers.
#[verifier::ext_equal]
pub struct ServerState {
    pub phase: ServerPhase,
    /// The last output of the shell.
    pub recent: Seq<u8>,
    /// The bytes from the client that are not a whole message yet.
    pub held: Seq<u8>,
}

impl View for ServerEvent {
    type V = ServerEventView;

    open spec fn view(&self) -> ServerEventView {
        match self {
            ServerEvent::Probed(ok) => ServerEventView::Probed(*ok),
            ServerEvent::Bound(ok) => ServerEventView::Bound(*ok),
            ServerEvent::Spawned(ok) => ServerEventView::Spawned(*ok),
            ServerEvent::Polled(poll) => ServerEventView::Polled(*poll),
            ServerEvent::Read(read) => ServerEventView::Read(read.arrived()),
            ServerEvent::Accepted(ok) => ServerEventView::Accepted(*ok),
            ServerEvent::Opened(ok) => ServerEventView::Opened(*ok),
            ServerEvent::Sent(ok) => ServerEventView::Sent(*ok),
            ServerEvent::Reaped(code) => ServerEventView::Reaped(*code),
            ServerEvent::Done => ServerEventView::Done,
        }
    }
}

impl View for ShellRequest {
    type V = ShellRequestView;

    open spec fn view(&self) -> ShellRequestView {
        match self {
            ShellRequest::Write(bytes) => ShellRequestView::Write(bytes@),
            ShellRequest::Resize { rows, cols } => ShellRequestView::Resize {
                rows: *rows,
                cols: *cols,
            },
        }
    }
}

/// What some requests say.
pub open spec fn asked(v: Seq<ShellRequest>) -> Seq<ShellRequestView> {
    v.map_values(|request: ShellRequest| request@)
}

impl View for ServerAction {
    type V = ServerActionView;

    open spec fn view(&self) -> ServerActionView {
        match self {
            ServerAction::ProbeSocket => ServerActionView::ProbeSocket,
            ServerAction::RemoveSocket => ServerActionView::RemoveSocket,
            ServerAction::Bind => ServerActionView::Bind,
            ServerAction::SpawnShell => ServerActionView::SpawnShell,
            ServerAction::PollListener => ServerActionView::PollListener,
            ServerAction::PollClient => ServerActionView::PollClient,
            ServerAction::ReadShell => ServerActionView::ReadShell,
            ServerAction::Accept => ServerActionView::Accept,
            ServerAction::OpenClient => ServerActionView::OpenClient,
            ServerAction::ReportClientError => ServerActionView::ReportClientError,
            ServerAction::Send(frame) => ServerActionView::Send(frame@),
            ServerAction::ReadClient => ServerActionView::ReadClient,
            ServerAction::Apply(requests) => ServerActionView::Apply(asked(requests@)),
            ServerAction::CloseClient => ServerActionView::CloseClient,
            ServerAction::ReapShell => ServerActionView::ReapShell,
            ServerAction::CloseShell => ServerActionView::CloseShell,
            ServerAction::Finish(end) => ServerActionView::Finish(*end),
        }
    }
}

// ---------------------------------------------------------------------------
// The last output
// ---------------------------------------------------------------------------

/// The last `n` bytes of `s`, or all of it where it has no more.
pub open spec fn last_bytes(s: Seq<u8>, n: nat) -> Seq<u8> {
    if s.len() > n {
        s.skip(s.len() - n)
    } else {
        s
    }
}

/// What is kept of `buffer` and the `bytes` after it.
pub open spec fn remembered(buffer: Seq<u8>, bytes: Seq<u8>) -> Seq<u8> {
    last_bytes(buffer + bytes, REPLAY_BUFFER_BYTES as nat)
}

/// Appends `bytes` to the last output and drops from its head what is over
/// the limit.
pub fn remember_output(buffer: &mut Vec<u8>, bytes: &[u8])
    ensures
        final(buffer)@ == remembered(old(buffer)@, bytes@),
{
    buffer.extend_from_slice(bytes);
    assert(buffer@ =~= old(buffer)@ + bytes@);
    if buffer.len() > REPLAY_BUFFER_BYTES {
        let surplus: usize = buffer.len() - REPLAY_BUFFER_BYTES;
        let kept = buffer.split_off(surplus);
        *buffer = kept;
        assert(buffer@ =~= remembered(old(buffer)@, bytes@));
    }
}

// ---------------------------------------------------------------------------
// The rules of the server
// ---------------------------------------------------------------------------

/// What these messages ask of the shell's terminal, up to a request to detach.
pub open spec fn requests_in(msgs: Seq<ClientMessageView>) -> Seq<ShellRequestView>
    decreases msgs.len(),
{
    if msgs.len() == 0 {
        Seq::empty()
    } else {
        match msgs[0] {
            ClientMessageView::Input(bytes) => seq![ShellRequestView::Write(bytes)] + requests_in(
                msgs.drop_first(),
            ),
            ClientMessageView::Resize { rows, cols } => seq![
                ShellRequestView::Resize { rows, cols },
            ] + requests_in(msgs.drop_first()),
            ClientMessageView::Detach => Seq::empty(),
        }
    }
}

/// The messages from the client in `buf`.
pub open spec fn received(buf: Seq<u8>) -> Seq<ClientMessageView> {
    crate::stream::messages(crate::stream::client_decoder(), buf)
}

/// What is left of `buf` once they are taken.
pub open spec fn unused(buf: Seq<u8>) -> Seq<u8> {
    crate::stream::leftover(crate::stream::client_decoder(), buf)
}

/// Whether one of the messages asks to detach.
pub open spec fn detach_in(msgs: Seq<ClientMessageView>) -> bool {
    msgs.contains(ClientMessageView::Detach)
}

/// The exit code that the client is told.
pub open spec fn told_code(code: Option<i32>) -> i32 {
    match code {
        Some(code) => code,
        None => NO_EXIT_CODE,
    }
}

/// The frame that carries this output.
pub open spec fn output_frame(bytes: Seq<u8>) -> Seq<u8> {
    crate::protocol::server_frame(ServerMessageView::Output(bytes))
}

/// The server in another phase.
pub open spec fn in_phase(s: ServerState, phase: ServerPhase) -> ServerState {
    ServerState { phase, ..s }
}

/// The server stops without cleaning up.
pub open spec fn fail(s: ServerState) -> (ServerState, ServerActionView) {
    (in_phase(s, ServerPhase::Finished), ServerActionView::Finish(ServerEnd::Failed))
}

/// The server waits for a client.
pub open spec fn wait(s: ServerState) -> (ServerState, ServerActionView) {
    (in_phase(s, ServerPhase::Waiting), ServerActionView::PollListener)
}

/// The next round with the client.
pub open spec fn serve(s: ServerState) -> (ServerState, ServerActionView) {
    (in_phase(s, ServerPhase::Serving), ServerActionView::PollClient)
}

/// The client has left; the shell runs on.
pub open spec fn leave(s: ServerState) -> (ServerState, ServerActionView) {
    (in_phase(s, ServerPhase::Leaving), ServerActionView::CloseClient)
}

/// The shell has ended while nobody was attached.
pub open spec fn shell_gone(s: ServerState) -> (ServerState, ServerActionView) {
    (in_phase(s, ServerPhase::Reaping), ServerActionView::ReapShell)
}

/// The shell has ended while a client was attached.
pub open spec fn shell_gone_before_client(s: ServerState) -> (ServerState, ServerActionView) {
    (in_phase(s, ServerPhase::ReapingForClient), ServerActionView::ReapShell)
}

/// The shell has been read while nobody was attached.
pub open spec fn after_wait_read(s: ServerState, sides: Sides) -> (ServerState, ServerActionView) {
    if sides.shell.closed {
        shell_gone(s)
    } else if sides.peer.readable {
        (in_phase(s, ServerPhase::Accepting), ServerActionView::Accept)
    } else {
        wait(s)
    }
}

/// The shell has been read for the client.
pub open spec fn after_serve_read(s: ServerState, sides: Sides) -> (
    ServerState,
    ServerActionView,
) {
    if sides.shell.closed {
        shell_gone_before_client(s)
    } else if sides.peer.readable {
        (
            in_phase(s, ServerPhase::ReadingClient { closed: sides.peer.closed }),
            ServerActionView::ReadClient,
        )
    } else {
        after_client_read(s, sides.peer.closed)
    }
}

/// The client has been read; one that hung up has left.
pub open spec fn after_client_read(s: ServerState, closed: bool) -> (
    ServerState,
    ServerActionView,
) {
    if closed {
        leave(s)
    } else {
        serve(s)
    }
}

/// A client has attached. It first gets the last output of the shell, since
/// the shell will not draw its screen again by itself.
pub open spec fn welcome(s: ServerState) -> (ServerState, ServerActionView) {
    let fresh = ServerState { held: Seq::empty(), ..s };
    if s.recent.len() > 0 {
        (in_phase(fresh, ServerPhase::Replaying), ServerActionView::Send(output_frame(s.recent)))
    } else {
        serve(fresh)
    }
}

/// The shell has written something.
pub open spec fn on_output(s: ServerState, bytes: Seq<u8>) -> ServerState {
    ServerState { recent: remembered(s.recent, bytes), ..s }
}

/// Bytes have arrived from the client: what they ask for is done, up to a
/// request to detach.
pub open spec fn on_received(s: ServerState, bytes: Seq<u8>, closed: bool) -> (
    ServerState,
    ServerActionView,
) {
    let buf = s.held + bytes;
    let detached = detach_in(received(buf));
    (
        ServerState {
            phase: ServerPhase::Applying { detached, closed },
            held: if detached {
                Seq::empty()
            } else {
                unused(buf)
            },
            ..s
        },
        ServerActionView::Apply(requests_in(received(buf))),
    )
}

/// Whether `event` can come of what the server asked for in `phase`.
pub open spec fn answers(phase: ServerPhase, event: ServerEventView) -> bool {
    match phase {
        ServerPhase::Probing => event is Probed,
        ServerPhase::Binding => event is Bound,
        ServerPhase::Spawning => event is Spawned,
        ServerPhase::Waiting | ServerPhase::Serving => event is Polled,
        ServerPhase::WaitReading { .. } | ServerPhase::ServeReading { .. } => event is Read,
        ServerPhase::ReadingClient { .. } => event is Read,
        ServerPhase::Accepting => event is Accepted,
        ServerPhase::Opening => event is Opened,
        ServerPhase::Replaying | ServerPhase::Notifying => event is Sent,
        ServerPhase::SendingOutput { .. } => event is Sent,
        ServerPhase::ReapingForClient | ServerPhase::Reaping => event is Reaped,
        ServerPhase::RemovingStale | ServerPhase::Dropping | ServerPhase::Reporting => event is Done,
        ServerPhase::Applying { .. } | ServerPhase::Leaving => event is Done,
        ServerPhase::LeavingLast | ServerPhase::ClosingShell => event is Done,
        ServerPhase::RemovingSocket => event is Done,
        ServerPhase::Finished => false,
    }
}

/// The next state and the next action. An event that does not answer the last
/// action ends the server; [`Server::step`] takes none.
pub open spec fn server_step(s: ServerState, event: ServerEventView) -> (
    ServerState,
    ServerActionView,
) {
    match (s.phase, event) {
        // Only a socket that nobody answers is removed.
        (ServerPhase::Probing, ServerEventView::Probed(answered)) => if answered {
            (in_phase(s, ServerPhase::Binding), ServerActionView::Bind)
        } else {
            (in_phase(s, ServerPhase::RemovingStale), ServerActionView::RemoveSocket)
        },
        (ServerPhase::RemovingStale, ServerEventView::Done) => (
            in_phase(s, ServerPhase::Binding),
            ServerActionView::Bind,
        ),
        (ServerPhase::Binding, ServerEventView::Bound(ok)) => if ok {
            (in_phase(s, ServerPhase::Spawning), ServerActionView::SpawnShell)
        } else {
            fail(s)
        },
        (ServerPhase::Spawning, ServerEventView::Spawned(ok)) => if ok {
            wait(s)
        } else {
            fail(s)
        },
        // Without a client.
        (ServerPhase::Waiting, ServerEventView::Polled(poll)) => match poll {
            ServerPoll::Ready(sides) => if sides.shell.readable {
                (in_phase(s, ServerPhase::WaitReading { sides }), ServerActionView::ReadShell)
            } else {
                after_wait_read(s, sides)
            },
            ServerPoll::Interrupted => (s, ServerActionView::PollListener),
            ServerPoll::Failed => fail(s),
        },
        (ServerPhase::WaitReading { sides }, ServerEventView::Read(read)) => match read {
            Some(bytes) => after_wait_read(on_output(s, bytes), sides),
            None => shell_gone(s),
        },
        (ServerPhase::Accepting, ServerEventView::Accepted(ok)) => if ok {
            (in_phase(s, ServerPhase::Opening), ServerActionView::OpenClient)
        } else {
            fail(s)
        },
        (ServerPhase::Opening, ServerEventView::Opened(ok)) => if ok {
            welcome(s)
        } else {
            (in_phase(s, ServerPhase::Dropping), ServerActionView::CloseClient)
        },
        (ServerPhase::Dropping, ServerEventView::Done) => (
            in_phase(s, ServerPhase::Reporting),
            ServerActionView::ReportClientError,
        ),
        (ServerPhase::Reporting, ServerEventView::Done) => wait(s),
        // With a client.
        (ServerPhase::Replaying, ServerEventView::Sent(ok)) => if ok {
            serve(s)
        } else {
            leave(s)
        },
        (ServerPhase::Serving, ServerEventView::Polled(poll)) => match poll {
            ServerPoll::Ready(sides) => if sides.shell.readable {
                (in_phase(s, ServerPhase::ServeReading { sides }), ServerActionView::ReadShell)
            } else {
                after_serve_read(s, sides)
            },
            ServerPoll::Interrupted => (s, ServerActionView::PollClient),
            ServerPoll::Failed => leave(s),
        },
        (ServerPhase::ServeReading { sides }, ServerEventView::Read(read)) => match read {
            Some(bytes) => (
                in_phase(on_output(s, bytes), ServerPhase::SendingOutput { sides }),
                ServerActionView::Send(output_frame(bytes)),
            ),
            None => shell_gone_before_client(s),
        },
        (ServerPhase::SendingOutput { sides }, ServerEventView::Sent(ok)) => if ok {
            after_serve_read(s, sides)
        } else {
            leave(s)
        },
        (ServerPhase::ReadingClient { closed }, ServerEventView::Read(read)) => match read {
            Some(bytes) => on_received(s, bytes, closed),
            None => leave(s),
        },
        (ServerPhase::Applying { detached, closed }, ServerEventView::Done) => if detached {
            leave(s)
        } else {
            after_client_read(s, closed)
        },
        (ServerPhase::Leaving, ServerEventView::Done) => wait(s),
        // After the shell.
        (ServerPhase::ReapingForClient, ServerEventView::Reaped(code)) => (
            in_phase(s, ServerPhase::Notifying),
            ServerActionView::Send(
                crate::protocol::server_frame(
                    ServerMessageView::ShellExited { code: told_code(code) },
                ),
            ),
        ),
        (ServerPhase::Notifying, ServerEventView::Sent(_)) => (
            in_phase(s, ServerPhase::LeavingLast),
            ServerActionView::CloseClient,
        ),
        (ServerPhase::LeavingLast, ServerEventView::Done) => shell_gone(s),
        (ServerPhase::Reaping, ServerEventView::Reaped(_)) => (
            in_phase(s, ServerPhase::ClosingShell),
            ServerActionView::CloseShell,
        ),
        (ServerPhase::ClosingShell, ServerEventView::Done) => (
            in_phase(s, ServerPhase::RemovingSocket),
            ServerActionView::RemoveSocket,
        ),
        (ServerPhase::RemovingSocket, ServerEventView::Done) => (
            in_phase(s, ServerPhase::Finished),
            ServerActionView::Finish(ServerEnd::ShellExited),
        ),
        _ => fail(s),
    }
}

// ---------------------------------------------------------------------------
// The server
// ---------------------------------------------------------------------------

/// A request to detach at the head, or behind something else.
proof fn lemma_detach_in_head(msgs: Seq<ClientMessageView>)
    requires
        msgs.len() > 0,
    ensures
        msgs[0] is Detach ==> detach_in(msgs),
        msgs[0] !is Detach ==> detach_in(msgs) == detach_in(msgs.drop_first()),
{
    if msgs[0] !is Detach {
        let rest = msgs.drop_first();
        if detach_in(msgs) {
            let i = msgs.index_of(ClientMessageView::Detach);
            assert(rest[i - 1] == ClientMessageView::Detach);
        }
        if detach_in(rest) {
            let i = rest.index_of(ClientMessageView::Detach);
            assert(msgs[i + 1] == ClientMessageView::Detach);
        }
    }
}

/// Takes the messages off the head of `buf`, up to a request to detach: what
/// they ask of the shell's terminal, and whether there is such a request.
fn take_requests(buf: &mut Vec<u8>) -> (taken: (Vec<ShellRequest>, bool))
    ensures
        asked(taken.0@) == requests_in(received(old(buf)@)),
        taken.1 == detach_in(received(old(buf)@)),
        !taken.1 ==> final(buf)@ == unused(old(buf)@),
{
    let ghost start = buf@;
    let mut requests: Vec<ShellRequest> = Vec::new();
    assert(asked(requests@) + requests_in(received(start)) =~= requests_in(received(start)));
    loop
        invariant
            start == old(buf)@,
            requests_in(received(start)) == asked(requests@) + requests_in(received(buf@)),
            detach_in(received(start)) == detach_in(received(buf@)),
            unused(start) == unused(buf@),
        decreases buf@.len(),
    {
        let ghost before = buf@;
        let ghost done = asked(requests@);
        let ghost dec = crate::stream::client_decoder();
        match decode_client_message(buf.as_slice()) {
            Some((msg, consumed)) => {
                proof {
                    crate::protocol::lemma_client_message_stable(before, Seq::empty());
                    assert(dec(before) == Some((msg@, consumed as nat)));
                    assert(received(before).drop_first() =~= received(
                        before.skip(consumed as int),
                    ));
                    lemma_detach_in_head(received(before));
                }
                let rest = buf.split_off(consumed);
                *buf = rest;
                assert(buf@ =~= before.skip(consumed as int));
                match msg {
                    ClientMessage::Input(bytes) => {
                        requests.push(ShellRequest::Write(bytes));
                        assert(asked(requests@) =~= done.push(ShellRequestView::Write(bytes@)));
                    },
                    ClientMessage::Resize { rows, cols } => {
                        requests.push(ShellRequest::Resize { rows, cols });
                        assert(asked(requests@) =~= done.push(
                            ShellRequestView::Resize { rows, cols },
                        ));
                    },
                    ClientMessage::Detach => {
                        assert(done + Seq::<ShellRequestView>::empty() =~= done);
                        return (requests, true);
                    },
                }
                assert(done + requests_in(received(before)) =~= asked(requests@) + requests_in(
                    received(buf@),
                ));
            },
            None => {
                proof {
                    assert(dec(before) is None);
                    assert(received(before) =~= Seq::empty());
                    assert(done + Seq::<ShellRequestView>::empty() =~= done);
                }
                return (requests, false);
            },
        }
    }
}

/// The process behind a session.
pub struct Server {
    phase: ServerPhase,
    recent_output: Vec<u8>,
    recv_buf: Vec<u8>,
}

impl View for Server {
    type V = ServerState;

    closed spec fn view(&self) -> ServerState {
        ServerState { phase: self.phase, recent: self.recent_output@, held: self.recv_buf@ }
    }
}

impl Server {
    /// A server that has just been started. It first finds out whether the
    /// socket of its session is in use.
    pub fn start() -> (started: (Server, ServerAction))
        ensures
            started.0@ == (ServerState {
                phase: ServerPhase::Probing,
                recent: Seq::empty(),
                held: Seq::empty(),
            }),
            started.1@ == ServerActionView::ProbeSocket,
    {
        let server = Server {
            phase: ServerPhase::Probing,
            recent_output: Vec::new(),
            recv_buf: Vec::new(),
        };
        assert(server@.recent =~= Seq::empty() && server@.held =~= Seq::empty());
        (server, ServerAction::ProbeSocket)
    }

    /// Whether `event` can come of what the server asked for last.
    pub fn expects(&self, event: &ServerEvent) -> (yes: bool)
        ensures
            yes == answers(self@.phase, event@),
    {
        match self.phase {
            ServerPhase::Probing => matches!(event, ServerEvent::Probed(_)),
            ServerPhase::Binding => matches!(event, ServerEvent::Bound(_)),
            ServerPhase::Spawning => matches!(event, ServerEvent::Spawned(_)),
            ServerPhase::Waiting | ServerPhase::Serving => matches!(event, ServerEvent::Polled(_)),
            ServerPhase::WaitReading { .. } | ServerPhase::ServeReading { .. } => {
                matches!(event, ServerEvent::Read(_))
            },
            ServerPhase::ReadingClient { .. } => matches!(event, ServerEvent::Read(_)),
            ServerPhase::Accepting => matches!(event, ServerEvent::Accepted(_)),
            ServerPhase::Opening => matches!(event, ServerEvent::Opened(_)),
            ServerPhase::Replaying | ServerPhase::Notifying => {
                matches!(event, ServerEvent::Sent(_))
            },
            ServerPhase::SendingOutput { .. } => matches!(event, ServerEvent::Sent(_)),
            ServerPhase::ReapingForClient | ServerPhase::Reaping => {
                matches!(event, ServerEvent::Reaped(_))
            },
            ServerPhase::RemovingStale | ServerPhase::Dropping | ServerPhase::Reporting => {
                matches!(event, ServerEvent::Done)
            },
            ServerPhase::Applying { .. } | ServerPhase::Leaving => {
                matches!(event, ServerEvent::Done)
            },
            ServerPhase::LeavingLast | ServerPhase::ClosingShell => {
                matches!(event, ServerEvent::Done)
            },
            ServerPhase::RemovingSocket => matches!(event, ServerEvent::Done),
            ServerPhase::Finished => false,
        }
    }

    /// Takes what came of the last action and names the next one.
    pub fn step(&mut self, event: ServerEvent) -> (action: ServerAction)
        requires
            answers(old(self)@.phase, event@),
        ensures
            (final(self)@, action@) == server_step(old(self)@, event@),
    {
        match (self.phase, event) {
            (ServerPhase::Probing, ServerEvent::Probed(answered)) => {
                if answered {
                    self.go(ServerPhase::Binding, ServerAction::Bind)
                } else {
                    self.go(ServerPhase::RemovingStale, ServerAction::RemoveSocket)
                }
            },
            (ServerPhase::RemovingStale, ServerEvent::Done) => self.go(
                ServerPhase::Binding,
                ServerAction::Bind,
            ),
            (ServerPhase::Binding, ServerEvent::Bound(ok)) => {
                if ok {
                    self.go(ServerPhase::Spawning, ServerAction::SpawnShell)
                } else {
                    self.fail()
                }
            },
            (ServerPhase::Spawning, ServerEvent::Spawned(ok)) => {
                if ok {
                    self.wait()
                } else {
                    self.fail()
                }
            },
            (ServerPhase::Waiting, ServerEvent::Polled(poll)) => match poll {
                ServerPoll::Ready(sides) => {
                    if sides.shell.readable {
                        self.go(ServerPhase::WaitReading { sides }, ServerAction::ReadShell)
                    } else {
                        self.after_wait_read(sides)
                    }
                },
                ServerPoll::Interrupted => ServerAction::PollListener,
                ServerPoll::Failed => self.fail(),
            },
            (ServerPhase::WaitReading { sides }, ServerEvent::Read(read)) => {
                match read.into_arrived() {
                    Some(bytes) => {
                        remember_output(&mut self.recent_output, bytes.as_slice());
                        self.after_wait_read(sides)
                    },
                    None => self.go(ServerPhase::Reaping, ServerAction::ReapShell),
                }
            },
            (ServerPhase::Accepting, ServerEvent::Accepted(ok)) => {
                if ok {
                    self.go(ServerPhase::Opening, ServerAction::OpenClient)
                } else {
                    self.fail()
                }
            },
            (ServerPhase::Opening, ServerEvent::Opened(ok)) => {
                if ok {
                    self.welcome()
                } else {
                    self.go(ServerPhase::Dropping, ServerAction::CloseClient)
                }
            },
            (ServerPhase::Dropping, ServerEvent::Done) => self.go(
                ServerPhase::Reporting,
                ServerAction::ReportClientError,
            ),
            (ServerPhase::Reporting, ServerEvent::Done) => self.wait(),
            (ServerPhase::Replaying, ServerEvent::Sent(ok)) => {
                if ok {
                    self.serve()
                } else {
                    self.leave()
                }
            },
            (ServerPhase::Serving, ServerEvent::Polled(poll)) => match poll {
                ServerPoll::Ready(sides) => {
                    if sides.shell.readable {
                        self.go(ServerPhase::ServeReading { sides }, ServerAction::ReadShell)
                    } else {
                        self.after_serve_read(sides)
                    }
                },
                ServerPoll::Interrupted => ServerAction::PollClient,
                ServerPoll::Failed => self.leave(),
            },
            (ServerPhase::ServeReading { sides }, ServerEvent::Read(read)) => {
                match read.into_arrived() {
                    Some(bytes) => {
                        remember_output(&mut self.recent_output, bytes.as_slice());
                        let frame = encode_server_message(&ServerMessage::Output(bytes));
                        self.go(ServerPhase::SendingOutput { sides }, ServerAction::Send(frame))
                    },
                    None => self.go(ServerPhase::ReapingForClient, ServerAction::ReapShell),
                }
            },
            (ServerPhase::SendingOutput { sides }, ServerEvent::Sent(ok)) => {
                if ok {
                    self.after_serve_read(sides)
                } else {
                    self.leave()
                }
            },
            (ServerPhase::ReadingClient { closed }, ServerEvent::Read(read)) => {
                match read.into_arrived() {
                    Some(bytes) => self.on_received(bytes, closed),
                    None => self.leave(),
                }
            },
            (ServerPhase::Applying { detached, closed }, ServerEvent::Done) => {
                if detached {
                    self.leave()
                } else {
                    self.after_client_read(closed)
                }
            },
            (ServerPhase::Leaving, ServerEvent::Done) => self.wait(),
            (ServerPhase::ReapingForClient, ServerEvent::Reaped(code)) => {
                let code: i32 = match code {
                    Some(code) => code,
                    None => NO_EXIT_CODE,
                };
                let frame = encode_server_message(&ServerMessage::ShellExited { code });
                self.go(ServerPhase::Notifying, ServerAction::Send(frame))
            },
            (ServerPhase::Notifying, ServerEvent::Sent(_)) => self.go(
                ServerPhase::LeavingLast,
                ServerAction::CloseClient,
            ),
            (ServerPhase::LeavingLast, ServerEvent::Done) => self.go(
                ServerPhase::Reaping,
                ServerAction::ReapShell,
            ),
            (ServerPhase::Reaping, ServerEvent::Reaped(_)) => self.go(
                ServerPhase::ClosingShell,
                ServerAction::CloseShell,
            ),
            (ServerPhase::ClosingShell, ServerEvent::Done) => self.go(
                ServerPhase::RemovingSocket,
                ServerAction::RemoveSocket,
            ),
            (ServerPhase::RemovingSocket, ServerEvent::Done) => self.go(
                ServerPhase::Finished,
                ServerAction::Finish(ServerEnd::ShellExited),
            ),
            _ => self.fail(),
        }
    }

    fn go(&mut self, phase: ServerPhase, action: ServerAction) -> (same: ServerAction)
        ensures
            final(self)@ == in_phase(old(self)@, phase),
            same == action,
    {
        self.phase = phase;
        action
    }

    fn fail(&mut self) -> (action: ServerAction)
        ensures
            (final(self)@, action@) == fail(old(self)@),
    {
        self.go(ServerPhase::Finished, ServerAction::Finish(ServerEnd::Failed))
    }

    fn wait(&mut self) -> (action: ServerAction)
        ensures
            (final(self)@, action@) == wait(old(self)@),
    {
        self.go(ServerPhase::Waiting, ServerAction::PollListener)
    }

    fn serve(&mut self) -> (action: ServerAction)
        ensures
            (final(self)@, action@) == serve(old(self)@),
    {
        self.go(ServerPhase::Serving, ServerAction::PollClient)
    }

    fn leave(&mut self) -> (action: ServerAction)
        ensures
            (final(self)@, action@) == leave(old(self)@),
    {
        self.go(ServerPhase::Leaving, ServerAction::CloseClient)
    }

    fn after_wait_read(&mut self, sides: Sides) -> (action: ServerAction)
        ensures
            (final(self)@, action@) == after_wait_read(old(self)@, sides),
    {
        if sides.shell.closed {
            self.go(ServerPhase::Reaping, ServerAction::ReapShell)
        } else if sides.peer.readable {
            self.go(ServerPhase::Accepting, ServerAction::Accept)
        } else {
            self.wait()
        }
    }

    fn after_serve_read(&mut self, sides: Sides) -> (action: ServerAction)
        ensures
            (final(self)@, action@) == after_serve_read(old(self)@, sides),
    {
        if sides.shell.closed {
            self.go(ServerPhase::ReapingForClient, ServerAction::ReapShell)
        } else if sides.peer.readable {
            self.go(
                ServerPhase::ReadingClient { closed: sides.peer.closed },
                ServerAction::ReadClient,
            )
        } else {
            self.after_client_read(sides.peer.closed)
        }
    }

    fn after_client_read(&mut self, closed: bool) -> (action: ServerAction)
        ensures
            (final(self)@, action@) == after_client_read(old(self)@, closed),
    {
        if closed {
            self.leave()
        } else {
            self.serve()
        }
    }

    fn welcome(&mut self) -> (action: ServerAction)
        ensures
            (final(self)@, action@) == welcome(old(self)@),
    {
        self.recv_buf = Vec::new();
        assert(self.recv_buf@ =~= Seq::empty());
        if self.recent_output.len() > 0 {
            let last = slice_to_vec(self.recent_output.as_slice());
            let frame = encode_server_message(&ServerMessage::Output(last));
            self.go(ServerPhase::Replaying, ServerAction::Send(frame))
        } else {
            self.serve()
        }
    }

    fn on_received(&mut self, bytes: Vec<u8>, closed: bool) -> (action: ServerAction)
        ensures
            (final(self)@, action@) == on_received(old(self)@, bytes@, closed),
    {
        self.recv_buf.extend_from_slice(bytes.as_slice());
        assert(self.recv_buf@ =~= old(self)@.held + bytes@);
        let (requests, detached) = take_requests(&mut self.recv_buf);
        if detached {
            self.recv_buf = Vec::new();
            assert(self.recv_buf@ =~= Seq::empty());
        }
        self.go(ServerPhase::Applying { detached, closed }, ServerAction::Apply(requests))
    }
}

} // verus!
