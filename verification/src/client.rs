//! The client's end of a session: the loop that carries bytes between the
//! terminal and the socket.
//!
//! [`ClientRelay`] decides and the program around it acts. Every call of
//! [`ClientRelay::step`] takes what came of the last action and names the next
//! one. One round of the loop polls the terminal, the socket and the pipe that
//! tells of a new window size, and then serves them in this order: window
//! size, keys, socket.

use crate::keys::process_input;
use crate::poll::{ReadOutcome, Readiness};
use crate::protocol::{
    decode_server_message, encode_client_message, ClientMessage, ClientMessageView, ServerMessage,
    ServerMessageView,
};
use vstd::prelude::*;

verus! {

/// What a poll said of the terminal and the socket.
#[derive(Debug, Clone, Copy, PartialEq, Eq, Structural)]
pub struct Ends {
    pub stdin: Readiness,
    pub socket: Readiness,
}

/// How a poll of the terminal, the socket and the resize pipe ended.
#[derive(Debug, Clone, Copy, PartialEq, Eq, Structural)]
pub enum ClientPoll {
    Ready { ends: Ends, resized: Readiness },
    /// A signal arrived before anything was ready.
    Interrupted,
    Failed,
}

/// Why a client stops.
#[derive(Debug, Clone, Copy, PartialEq, Eq, Structural)]
pub enum ClientEnd {
    /// The user asked to detach.
    Detached,
    /// The shell of the session has ended.
    ShellExited { code: i32 },
    /// The terminal or the connection is gone.
    Closed,
}

/// What the relay waits for.
#[derive(Debug, Clone, Copy, PartialEq, Eq, Structural)]
pub enum ClientPhase {
    /// The size of the terminal; `resume` is what the round still has to serve.
    AskingSize { resume: Option<Ends> },
    /// The end of sending the size.
    SendingSize { resume: Option<Ends> },
    Polling,
    /// The end of emptying the resize pipe.
    DiscardingResize { rest: Ends },
    ReadingStdin { rest: Ends },
    /// The end of sending what was typed.
    SendingInput { detach: bool, rest: Ends },
    SendingDetach,
    ReadingSocket { closed: bool },
    /// The end of showing what the shell wrote.
    Showing { exit: Option<i32>, closed: bool },
    Finished,
}

/// What came of an action.
#[derive(Debug, PartialEq, Eq)]
pub enum ClientEvent {
    /// The size of the terminal in rows and columns, where it could be had.
    Size(Option<(u16, u16)>),
    /// Whether the frame was written.
    Sent(bool),
    Polled(ClientPoll),
    /// The resize pipe was read.
    Discarded,
    Read(ReadOutcome),
    /// Whether the output could be written to the terminal.
    Shown(bool),
}

/// What to do next.
#[derive(Debug, PartialEq, Eq)]
pub enum ClientAction {
    /// Ask for the size of the terminal.
    AskSize,
    /// Write this frame to the socket.
    Send(Vec<u8>),
    /// Wait for the terminal, the socket or the resize pipe.
    Poll,
    /// Read what is in the resize pipe and forget it.
    DiscardResize,
    ReadStdin,
    ReadSocket,
    /// Write these to the terminal, one after the other, and stop at the
    /// first that cannot be written.
    Show(Vec<Vec<u8>>),
    Finish(ClientEnd),
}

/// What a [`ClientEvent`] says.
pub enum ClientEventView {
    Size(Option<(u16, u16)>),
    Sent(bool),
    Polled(ClientPoll),
    Discarded,
    /// The bytes that arrived, or `None` where the other side is gone.
    Read(Option<Seq<u8>>),
    Shown(bool),
}

/// What a [`ClientAction`] says.
#[verifier::ext_equal]
pub enum ClientActionView {
    AskSize,
    Send(Seq<u8>),
    Poll,
    DiscardResize,
    ReadStdin,
    ReadSocket,
    Show(Seq<Seq<u8>>),
    Finish(ClientEnd),
}

/// What the relay remembers.
#[verifier::ext_equal]
pub struct ClientState {
    pub phase: ClientPhase,
    /// The bytes from the socket that are not a whole message yet.
    pub held: Seq<u8>,
    /// Whether a prefix key waits for the key after it.
    pub pending: bool,
}

impl View for ClientEvent {
    type V = ClientEventView;

    open spec fn view(&self) -> ClientEventView {
        match self {
            ClientEvent::Size(size) => ClientEventView::Size(*size),
            ClientEvent::Sent(ok) => ClientEventView::Sent(*ok),
            ClientEvent::Polled(poll) => ClientEventView::Polled(*poll),
            ClientEvent::Discarded => ClientEventView::Discarded,
            ClientEvent::Read(read) => ClientEventView::Read(read.arrived()),
            ClientEvent::Shown(ok) => ClientEventView::Shown(*ok),
        }
    }
}

/// The contents of a vector of vectors.
pub open spec fn contents(v: Seq<Vec<u8>>) -> Seq<Seq<u8>> {
    v.map_values(|bytes: Vec<u8>| bytes@)
}

impl View for ClientAction {
    type V = ClientActionView;

    open spec fn view(&self) -> ClientActionView {
        match self {
            ClientAction::AskSize => ClientActionView::AskSize,
            ClientAction::Send(frame) => ClientActionView::Send(frame@),
            ClientAction::Poll => ClientActionView::Poll,
            ClientAction::DiscardResize => ClientActionView::DiscardResize,
            ClientAction::ReadStdin => ClientActionView::ReadStdin,
            ClientAction::ReadSocket => ClientActionView::ReadSocket,
            ClientAction::Show(outputs) => ClientActionView::Show(contents(outputs@)),
            ClientAction::Finish(end) => ClientActionView::Finish(*end),
        }
    }
}

// ---------------------------------------------------------------------------
// The rules of the relay
// ---------------------------------------------------------------------------

/// The output in these messages, up to the end of the shell.
pub open spec fn output_in(msgs: Seq<ServerMessageView>) -> Seq<Seq<u8>>
    decreases msgs.len(),
{
    if msgs.len() == 0 {
        Seq::empty()
    } else {
        match msgs[0] {
            ServerMessageView::Output(bytes) => seq![bytes] + output_in(msgs.drop_first()),
            ServerMessageView::ShellExited { .. } => Seq::empty(),
        }
    }
}

/// The exit code in the first of these messages that tells of the shell's end.
pub open spec fn exit_in(msgs: Seq<ServerMessageView>) -> Option<i32>
    decreases msgs.len(),
{
    if msgs.len() == 0 {
        None
    } else {
        match msgs[0] {
            ServerMessageView::Output(_) => exit_in(msgs.drop_first()),
            ServerMessageView::ShellExited { code } => Some(code),
        }
    }
}

/// The messages from the server in `buf`.
pub open spec fn received(buf: Seq<u8>) -> Seq<ServerMessageView> {
    crate::stream::messages(crate::stream::server_decoder(), buf)
}

/// What is left of `buf` once they are taken.
pub open spec fn unused(buf: Seq<u8>) -> Seq<u8> {
    crate::stream::leftover(crate::stream::server_decoder(), buf)
}

/// The relay in another phase.
pub open spec fn in_phase(s: ClientState, phase: ClientPhase) -> ClientState {
    ClientState { phase, ..s }
}

/// The relay stops.
pub open spec fn finish(s: ClientState, end: ClientEnd) -> (ClientState, ClientActionView) {
    (in_phase(s, ClientPhase::Finished), ClientActionView::Finish(end))
}

/// The round comes to the terminal.
pub open spec fn at_stdin(s: ClientState, rest: Ends) -> (ClientState, ClientActionView) {
    if rest.stdin.readable {
        (in_phase(s, ClientPhase::ReadingStdin { rest }), ClientActionView::ReadStdin)
    } else {
        after_stdin(s, rest)
    }
}

/// The terminal has been read; a terminal that is gone ends the client.
pub open spec fn after_stdin(s: ClientState, rest: Ends) -> (ClientState, ClientActionView) {
    if rest.stdin.closed {
        finish(s, ClientEnd::Closed)
    } else if rest.socket.readable {
        (
            in_phase(s, ClientPhase::ReadingSocket { closed: rest.socket.closed }),
            ClientActionView::ReadSocket,
        )
    } else {
        after_socket(s, rest.socket.closed)
    }
}

/// The socket has been read; a socket that is gone ends the client, and
/// otherwise the next round begins.
pub open spec fn after_socket(s: ClientState, closed: bool) -> (ClientState, ClientActionView) {
    if closed {
        finish(s, ClientEnd::Closed)
    } else {
        (in_phase(s, ClientPhase::Polling), ClientActionView::Poll)
    }
}

/// The window size has been told, or could not be.
pub open spec fn after_size(s: ClientState, rest: Option<Ends>) -> (
    ClientState,
    ClientActionView,
) {
    match rest {
        Some(ends) => at_stdin(s, ends),
        None => (in_phase(s, ClientPhase::Polling), ClientActionView::Poll),
    }
}

/// The typed keys have been sent.
pub open spec fn after_input(s: ClientState, detach: bool, rest: Ends) -> (
    ClientState,
    ClientActionView,
) {
    if detach {
        (
            in_phase(s, ClientPhase::SendingDetach),
            ClientActionView::Send(crate::protocol::client_frame(ClientMessageView::Detach)),
        )
    } else {
        after_stdin(s, rest)
    }
}

/// Keys have been typed: what is meant for the shell is sent first.
pub open spec fn on_typed(s: ClientState, typed: Seq<u8>, rest: Ends) -> (
    ClientState,
    ClientActionView,
) {
    let keys = crate::keys::interpret(s.pending, typed);
    let next = ClientState { pending: keys.pending, ..s };
    if keys.forward.len() > 0 {
        (
            in_phase(next, ClientPhase::SendingInput { detach: keys.detach, rest }),
            ClientActionView::Send(
                crate::protocol::client_frame(ClientMessageView::Input(keys.forward)),
            ),
        )
    } else {
        after_input(next, keys.detach, rest)
    }
}

/// Bytes have arrived from the server: the output in them is shown, up to the
/// end of the shell.
pub open spec fn on_received(s: ClientState, bytes: Seq<u8>, closed: bool) -> (
    ClientState,
    ClientActionView,
) {
    let buf = s.held + bytes;
    let exit = exit_in(received(buf));
    (
        ClientState {
            phase: ClientPhase::Showing { exit, closed },
            held: if exit is None {
                unused(buf)
            } else {
                Seq::empty()
            },
            ..s
        },
        ClientActionView::Show(output_in(received(buf))),
    )
}

/// Whether `event` can come of what the relay asked for in `phase`.
pub open spec fn answers(phase: ClientPhase, event: ClientEventView) -> bool {
    match phase {
        ClientPhase::AskingSize { .. } => event is Size,
        ClientPhase::SendingSize { .. } => event is Sent,
        ClientPhase::Polling => event is Polled,
        ClientPhase::DiscardingResize { .. } => event is Discarded,
        ClientPhase::ReadingStdin { .. } => event is Read,
        ClientPhase::SendingInput { .. } => event is Sent,
        ClientPhase::SendingDetach => event is Sent,
        ClientPhase::ReadingSocket { .. } => event is Read,
        ClientPhase::Showing { .. } => event is Shown,
        ClientPhase::Finished => false,
    }
}

/// The next state and the next action. An event that does not answer the last
/// action changes nothing and polls again; [`ClientRelay::step`] takes none.
pub open spec fn client_step(s: ClientState, event: ClientEventView) -> (
    ClientState,
    ClientActionView,
) {
    match (s.phase, event) {
        (ClientPhase::AskingSize { resume }, ClientEventView::Size(size)) => match size {
            Some((rows, cols)) => (
                in_phase(s, ClientPhase::SendingSize { resume }),
                ClientActionView::Send(
                    crate::protocol::client_frame(ClientMessageView::Resize { rows, cols }),
                ),
            ),
            None => after_size(s, resume),
        },
        (ClientPhase::SendingSize { resume }, ClientEventView::Sent(_)) => after_size(s, resume),
        (ClientPhase::Polling, ClientEventView::Polled(poll)) => match poll {
            ClientPoll::Ready { ends, resized } => if resized.readable {
                (
                    in_phase(s, ClientPhase::DiscardingResize { rest: ends }),
                    ClientActionView::DiscardResize,
                )
            } else {
                at_stdin(s, ends)
            },
            ClientPoll::Interrupted => (s, ClientActionView::Poll),
            ClientPoll::Failed => finish(s, ClientEnd::Closed),
        },
        (ClientPhase::DiscardingResize { rest }, ClientEventView::Discarded) => (
            in_phase(s, ClientPhase::AskingSize { resume: Some(rest) }),
            ClientActionView::AskSize,
        ),
        (ClientPhase::ReadingStdin { rest }, ClientEventView::Read(read)) => match read {
            Some(typed) => on_typed(s, typed, rest),
            None => finish(s, ClientEnd::Closed),
        },
        (ClientPhase::SendingInput { detach, rest }, ClientEventView::Sent(ok)) => if ok {
            after_input(s, detach, rest)
        } else {
            finish(s, ClientEnd::Closed)
        },
        (ClientPhase::SendingDetach, ClientEventView::Sent(_)) => finish(s, ClientEnd::Detached),
        (ClientPhase::ReadingSocket { closed }, ClientEventView::Read(read)) => match read {
            Some(bytes) => on_received(s, bytes, closed),
            None => finish(s, ClientEnd::Closed),
        },
        (ClientPhase::Showing { exit, closed }, ClientEventView::Shown(ok)) => if !ok {
            finish(s, ClientEnd::Closed)
        } else {
            match exit {
                Some(code) => finish(s, ClientEnd::ShellExited { code }),
                None => after_socket(s, closed),
            }
        },
        _ => (s, ClientActionView::Poll),
    }
}

// ---------------------------------------------------------------------------
// The relay
// ---------------------------------------------------------------------------

/// Takes the messages off the head of `buf`, up to the end of the shell: the
/// output in them, and the exit code where the shell has ended.
pub(crate) fn take_output(buf: &mut Vec<u8>) -> (taken: (Vec<Vec<u8>>, Option<i32>))
    ensures
        contents(taken.0@) == output_in(received(old(buf)@)),
        taken.1 == exit_in(received(old(buf)@)),
        taken.1 is None ==> final(buf)@ == unused(old(buf)@),
{
    let ghost start = buf@;
    let mut outputs: Vec<Vec<u8>> = Vec::new();
    assert(contents(outputs@) + output_in(received(start)) =~= output_in(received(start)));
    loop
        invariant
            start == old(buf)@,
            output_in(received(start)) == contents(outputs@) + output_in(received(buf@)),
            exit_in(received(start)) == exit_in(received(buf@)),
            unused(start) == unused(buf@),
        decreases buf@.len(),
    {
        let ghost before = buf@;
        let ghost dec = crate::stream::server_decoder();
        match decode_server_message(buf.as_slice()) {
            Some((msg, consumed)) => {
                proof {
                    crate::protocol::lemma_server_message_stable(before, Seq::empty());
                    assert(dec(before) == Some((msg@, consumed as nat)));
                    assert(received(before).drop_first() =~= received(
                        before.skip(consumed as int),
                    ));
                }
                let rest = buf.split_off(consumed);
                *buf = rest;
                assert(buf@ =~= before.skip(consumed as int));
                match msg {
                    ServerMessage::Output(bytes) => {
                        let ghost shown = contents(outputs@);
                        outputs.push(bytes);
                        assert(contents(outputs@) =~= shown.push(bytes@));
                        assert(shown + output_in(received(before)) =~= contents(outputs@)
                            + output_in(received(buf@)));
                    },
                    ServerMessage::ShellExited { code } => {
                        assert(contents(outputs@) + Seq::<Seq<u8>>::empty() =~= contents(
                            outputs@,
                        ));
                        return (outputs, Some(code));
                    },
                }
            },
            None => {
                proof {
                    assert(dec(before) is None);
                    assert(received(before) =~= Seq::empty());
                    assert(contents(outputs@) + Seq::<Seq<u8>>::empty() =~= contents(outputs@));
                }
                return (outputs, None);
            },
        }
    }
}

/// The client's side of an attached session.
pub struct ClientRelay {
    phase: ClientPhase,
    recv_buf: Vec<u8>,
    prefix_pending: bool,
}

impl View for ClientRelay {
    type V = ClientState;

    closed spec fn view(&self) -> ClientState {
        ClientState { phase: self.phase, held: self.recv_buf@, pending: self.prefix_pending }
    }
}

impl ClientRelay {
    /// A client that has just connected. It first tells the server the size
    /// of its terminal, which may differ from the last one.
    pub fn start() -> (started: (ClientRelay, ClientAction))
        ensures
            started.0@ == (ClientState {
                phase: ClientPhase::AskingSize { resume: None },
                held: Seq::empty(),
                pending: false,
            }),
            started.1@ == ClientActionView::AskSize,
    {
        let relay = ClientRelay {
            phase: ClientPhase::AskingSize { resume: None },
            recv_buf: Vec::new(),
            prefix_pending: false,
        };
        assert(relay@.held =~= Seq::empty());
        (relay, ClientAction::AskSize)
    }

    /// Whether `event` can come of what the relay asked for last.
    pub fn expects(&self, event: &ClientEvent) -> (yes: bool)
        ensures
            yes == answers(self@.phase, event@),
    {
        match self.phase {
            ClientPhase::AskingSize { .. } => matches!(event, ClientEvent::Size(_)),
            ClientPhase::SendingSize { .. } => matches!(event, ClientEvent::Sent(_)),
            ClientPhase::Polling => matches!(event, ClientEvent::Polled(_)),
            ClientPhase::DiscardingResize { .. } => matches!(event, ClientEvent::Discarded),
            ClientPhase::ReadingStdin { .. } => matches!(event, ClientEvent::Read(_)),
            ClientPhase::SendingInput { .. } => matches!(event, ClientEvent::Sent(_)),
            ClientPhase::SendingDetach => matches!(event, ClientEvent::Sent(_)),
            ClientPhase::ReadingSocket { .. } => matches!(event, ClientEvent::Read(_)),
            ClientPhase::Showing { .. } => matches!(event, ClientEvent::Shown(_)),
            ClientPhase::Finished => false,
        }
    }

    /// Takes what came of the last action and names the next one.
    pub fn step(&mut self, event: ClientEvent) -> (action: ClientAction)
        requires
            answers(old(self)@.phase, event@),
        ensures
            (final(self)@, action@) == client_step(old(self)@, event@),
    {
        match (self.phase, event) {
            (ClientPhase::AskingSize { resume }, ClientEvent::Size(size)) => match size {
                Some((rows, cols)) => {
                    self.phase = ClientPhase::SendingSize { resume };
                    ClientAction::Send(
                        encode_client_message(&ClientMessage::Resize { rows, cols }),
                    )
                },
                None => self.after_size(resume),
            },
            (ClientPhase::SendingSize { resume }, ClientEvent::Sent(_)) => self.after_size(resume),
            (ClientPhase::Polling, ClientEvent::Polled(poll)) => match poll {
                ClientPoll::Ready { ends, resized } => {
                    if resized.readable {
                        self.phase = ClientPhase::DiscardingResize { rest: ends };
                        ClientAction::DiscardResize
                    } else {
                        self.at_stdin(ends)
                    }
                },
                ClientPoll::Interrupted => ClientAction::Poll,
                ClientPoll::Failed => self.finish(ClientEnd::Closed),
            },
            (ClientPhase::DiscardingResize { rest }, ClientEvent::Discarded) => {
                self.phase = ClientPhase::AskingSize { resume: Some(rest) };
                ClientAction::AskSize
            },
            (ClientPhase::ReadingStdin { rest }, ClientEvent::Read(read)) => {
                match read.into_arrived() {
                    Some(typed) => self.on_typed(typed, rest),
                    None => self.finish(ClientEnd::Closed),
                }
            },
            (ClientPhase::SendingInput { detach, rest }, ClientEvent::Sent(ok)) => {
                if ok {
                    self.after_input(detach, rest)
                } else {
                    self.finish(ClientEnd::Closed)
                }
            },
            (ClientPhase::SendingDetach, ClientEvent::Sent(_)) => self.finish(
                ClientEnd::Detached,
            ),
            (ClientPhase::ReadingSocket { closed }, ClientEvent::Read(read)) => {
                match read.into_arrived() {
                    Some(bytes) => self.on_received(bytes, closed),
                    None => self.finish(ClientEnd::Closed),
                }
            },
            (ClientPhase::Showing { exit, closed }, ClientEvent::Shown(ok)) => {
                if !ok {
                    self.finish(ClientEnd::Closed)
                } else {
                    match exit {
                        Some(code) => self.finish(ClientEnd::ShellExited { code }),
                        None => self.after_socket(closed),
                    }
                }
            },
            _ => ClientAction::Poll,
        }
    }

    fn finish(&mut self, end: ClientEnd) -> (action: ClientAction)
        ensures
            (final(self)@, action@) == finish(old(self)@, end),
    {
        self.phase = ClientPhase::Finished;
        ClientAction::Finish(end)
    }

    fn at_stdin(&mut self, rest: Ends) -> (action: ClientAction)
        ensures
            (final(self)@, action@) == at_stdin(old(self)@, rest),
    {
        if rest.stdin.readable {
            self.phase = ClientPhase::ReadingStdin { rest };
            ClientAction::ReadStdin
        } else {
            self.after_stdin(rest)
        }
    }

    fn after_stdin(&mut self, rest: Ends) -> (action: ClientAction)
        ensures
            (final(self)@, action@) == after_stdin(old(self)@, rest),
    {
        if rest.stdin.closed {
            self.finish(ClientEnd::Closed)
        } else if rest.socket.readable {
            self.phase = ClientPhase::ReadingSocket { closed: rest.socket.closed };
            ClientAction::ReadSocket
        } else {
            self.after_socket(rest.socket.closed)
        }
    }

    fn after_socket(&mut self, closed: bool) -> (action: ClientAction)
        ensures
            (final(self)@, action@) == after_socket(old(self)@, closed),
    {
        if closed {
            self.finish(ClientEnd::Closed)
        } else {
            self.phase = ClientPhase::Polling;
            ClientAction::Poll
        }
    }

    fn after_size(&mut self, rest: Option<Ends>) -> (action: ClientAction)
        ensures
            (final(self)@, action@) == after_size(old(self)@, rest),
    {
        match rest {
            Some(ends) => self.at_stdin(ends),
            None => {
                self.phase = ClientPhase::Polling;
                ClientAction::Poll
            },
        }
    }

    fn after_input(&mut self, detach: bool, rest: Ends) -> (action: ClientAction)
        ensures
            (final(self)@, action@) == after_input(old(self)@, detach, rest),
    {
        if detach {
            self.phase = ClientPhase::SendingDetach;
            ClientAction::Send(encode_client_message(&ClientMessage::Detach))
        } else {
            self.after_stdin(rest)
        }
    }

    fn on_typed(&mut self, typed: Vec<u8>, rest: Ends) -> (action: ClientAction)
        ensures
            (final(self)@, action@) == on_typed(old(self)@, typed@, rest),
    {
        let (forward, detach) = process_input(typed.as_slice(), &mut self.prefix_pending);
        if forward.len() > 0 {
            self.phase = ClientPhase::SendingInput { detach, rest };
            ClientAction::Send(encode_client_message(&ClientMessage::Input(forward)))
        } else {
            self.after_input(detach, rest)
        }
    }

    fn on_received(&mut self, bytes: Vec<u8>, closed: bool) -> (action: ClientAction)
        ensures
            (final(self)@, action@) == on_received(old(self)@, bytes@, closed),
    {
        self.recv_buf.extend_from_slice(bytes.as_slice());
        assert(self.recv_buf@ =~= old(self)@.held + bytes@);
        let (outputs, exit) = take_output(&mut self.recv_buf);
        if exit.is_some() {
            self.recv_buf = Vec::new();
            assert(self.recv_buf@ =~= Seq::empty());
        }
        self.phase = ClientPhase::Showing { exit, closed };
        ClientAction::Show(outputs)
    }
}

} // verus!
