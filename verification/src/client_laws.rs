//! What holds of a client over its whole run.

use crate::client::{
    ClientActionView, ClientEnd, ClientEventView, ClientPhase, ClientPoll, ClientState, Ends,
};
use crate::protocol::{ClientMessageView, ServerMessageView};
use vstd::prelude::*;

verus! {

/// Whether every event answers what the relay asked for at that point.
pub open spec fn fitting(s: ClientState, events: Seq<ClientEventView>) -> bool
    decreases events.len(),
{
    events.len() > 0 ==> {
        &&& crate::client::answers(s.phase, events[0])
        &&& fitting(crate::client::client_step(s, events[0]).0, events.drop_first())
    }
}

/// The bytes that an event brings from the terminal.
pub open spec fn typed_by(s: ClientState, event: ClientEventView) -> Seq<u8> {
    match (s.phase, event) {
        (ClientPhase::ReadingStdin { .. }, ClientEventView::Read(Some(bytes))) => bytes,
        _ => Seq::empty(),
    }
}

/// All bytes from the terminal.
pub open spec fn all_typed(s: ClientState, events: Seq<ClientEventView>) -> Seq<u8>
    decreases events.len(),
{
    if events.len() == 0 {
        Seq::empty()
    } else {
        typed_by(s, events[0]) + all_typed(
            crate::client::client_step(s, events[0]).0,
            events.drop_first(),
        )
    }
}

/// The message that the relay sends in answer to an event.
pub open spec fn sent_by(s: ClientState, event: ClientEventView) -> Seq<ClientMessageView> {
    match (s.phase, event) {
        (ClientPhase::AskingSize { .. }, ClientEventView::Size(Some((rows, cols)))) => seq![
            ClientMessageView::Resize { rows, cols },
        ],
        (ClientPhase::ReadingStdin { .. }, ClientEventView::Read(Some(bytes))) => {
            let keys = crate::keys::interpret(s.pending, bytes);
            if keys.forward.len() > 0 {
                seq![ClientMessageView::Input(keys.forward)]
            } else if keys.detach {
                seq![ClientMessageView::Detach]
            } else {
                Seq::empty()
            }
        },
        (ClientPhase::SendingInput { detach: true, .. }, ClientEventView::Sent(true)) => seq![
            ClientMessageView::Detach,
        ],
        _ => Seq::empty(),
    }
}

/// All messages that the relay sends.
pub open spec fn all_sent(s: ClientState, events: Seq<ClientEventView>) -> Seq<ClientMessageView>
    decreases events.len(),
{
    if events.len() == 0 {
        Seq::empty()
    } else {
        sent_by(s, events[0]) + all_sent(
            crate::client::client_step(s, events[0]).0,
            events.drop_first(),
        )
    }
}

/// The bytes that an action writes to the socket.
pub open spec fn written_by(action: ClientActionView) -> Seq<u8> {
    match action {
        ClientActionView::Send(frame) => frame,
        _ => Seq::empty(),
    }
}

/// All bytes written to the socket.
pub open spec fn all_written(s: ClientState, events: Seq<ClientEventView>) -> Seq<u8>
    decreases events.len(),
{
    if events.len() == 0 {
        Seq::empty()
    } else {
        let (next, action) = crate::client::client_step(s, events[0]);
        written_by(action) + all_written(next, events.drop_first())
    }
}

/// The input for the shell in these messages.
pub open spec fn input_in(msgs: Seq<ClientMessageView>) -> Seq<u8>
    decreases msgs.len(),
{
    if msgs.len() == 0 {
        Seq::empty()
    } else {
        let head = match msgs[0] {
            ClientMessageView::Input(bytes) => bytes,
            _ => Seq::empty(),
        };
        head + input_in(msgs.drop_first())
    }
}

/// The bytes that an event brings from the socket.
pub open spec fn received_by(s: ClientState, event: ClientEventView) -> Seq<u8> {
    match (s.phase, event) {
        (ClientPhase::ReadingSocket { .. }, ClientEventView::Read(Some(bytes))) => bytes,
        _ => Seq::empty(),
    }
}

/// All bytes from the socket.
pub open spec fn all_received(s: ClientState, events: Seq<ClientEventView>) -> Seq<u8>
    decreases events.len(),
{
    if events.len() == 0 {
        Seq::empty()
    } else {
        received_by(s, events[0]) + all_received(
            crate::client::client_step(s, events[0]).0,
            events.drop_first(),
        )
    }
}

/// The outputs that an action shows.
pub open spec fn shown_by(action: ClientActionView) -> Seq<Seq<u8>> {
    match action {
        ClientActionView::Show(outputs) => outputs,
        _ => Seq::empty(),
    }
}

/// All outputs shown.
pub open spec fn all_shown(s: ClientState, events: Seq<ClientEventView>) -> Seq<Seq<u8>>
    decreases events.len(),
{
    if events.len() == 0 {
        Seq::empty()
    } else {
        let (next, action) = crate::client::client_step(s, events[0]);
        shown_by(action) + all_shown(next, events.drop_first())
    }
}

/// Whether the user has asked to detach, or the relay has finished.
pub open spec fn leaving(phase: ClientPhase) -> bool {
    match phase {
        ClientPhase::SendingInput { detach, .. } => detach,
        ClientPhase::SendingDetach => true,
        ClientPhase::Finished => true,
        _ => false,
    }
}

/// Whether the shell is known to have ended, or the relay has finished.
pub open spec fn closing(phase: ClientPhase) -> bool {
    match phase {
        ClientPhase::Showing { exit, .. } => exit is Some,
        ClientPhase::Finished => true,
        _ => false,
    }
}

/// A signal that interrupts the poll, such as the one that tells of a new
/// window size, neither ends the client nor changes anything.
pub proof fn lemma_interruption_changes_nothing(s: ClientState)
    requires
        s.phase is Polling,
    ensures
        crate::client::client_step(s, ClientEventView::Polled(ClientPoll::Interrupted)) == (
            s,
            ClientActionView::Poll,
        ),
{
}

/// A new window size is told to the server before the keys and the output of
/// the same round are served.
pub proof fn lemma_resize_is_told(
    s: ClientState,
    ends: Ends,
    resized: crate::poll::Readiness,
    rows: u16,
    cols: u16,
    ok: bool,
)
    requires
        s.phase is Polling,
        resized.readable,
    ensures
        ({
            let (s1, a1) = crate::client::client_step(
                s,
                ClientEventView::Polled(ClientPoll::Ready { ends, resized }),
            );
            let (s2, a2) = crate::client::client_step(s1, ClientEventView::Discarded);
            let (s3, a3) = crate::client::client_step(s2, ClientEventView::Size(Some((rows, cols))));
            &&& a1 == ClientActionView::DiscardResize
            &&& a2 == ClientActionView::AskSize
            &&& a3 == ClientActionView::Send(
                crate::protocol::client_frame(ClientMessageView::Resize { rows, cols }),
            )
            &&& crate::client::client_step(s3, ClientEventView::Sent(ok))
                == crate::client::at_stdin(s3, ends)
        }),
{
}

/// A request to detach is carried out: the input typed before it is sent, then
/// the server is told, and then the client ends as detached.
pub proof fn lemma_detach_is_carried_out(s: ClientState, rest: Ends, typed: Seq<u8>, ok: bool)
    requires
        s.phase == (ClientPhase::ReadingStdin { rest }),
        crate::keys::interpret(s.pending, typed).detach,
    ensures
        ({
            let forward = crate::keys::interpret(s.pending, typed).forward;
            let detach = ClientActionView::Send(
                crate::protocol::client_frame(ClientMessageView::Detach),
            );
            let (s1, a1) = crate::client::client_step(s, ClientEventView::Read(Some(typed)));
            let (s2, a2) = if forward.len() > 0 {
                crate::client::client_step(s1, ClientEventView::Sent(true))
            } else {
                (s1, a1)
            };
            let (s3, a3) = crate::client::client_step(s2, ClientEventView::Sent(ok));
            &&& forward.len() > 0 ==> a1 == ClientActionView::Send(
                crate::protocol::client_frame(ClientMessageView::Input(forward)),
            )
            &&& a2 == detach
            &&& s3.phase is Finished
            &&& a3 == ClientActionView::Finish(ClientEnd::Detached)
        }),
{
}

/// The relay finishes exactly when it says so, and is then done for good.
pub proof fn lemma_finish_is_final(s: ClientState, event: ClientEventView)
    requires
        crate::client::answers(s.phase, event),
    ensures
        crate::client::client_step(s, event).0.phase is Finished
            <==> crate::client::client_step(s, event).1 is Finish,
        forall|later: ClientEventView|
            crate::client::client_step(s, event).1 is Finish
                ==> !#[trigger] crate::client::answers(
                crate::client::client_step(s, event).0.phase,
                later,
            ),
{
}

/// The exit code that the server tells is the one that the client ends with.
pub proof fn lemma_exit_code_is_kept(s: ClientState, bytes: Seq<u8>, code: i32)
    requires
        s.phase is ReadingSocket,
        crate::client::exit_in(crate::client::received(s.held + bytes)) == Some(code),
    ensures
        ({
            let s1 = crate::client::client_step(s, ClientEventView::Read(Some(bytes))).0;
            crate::client::client_step(s1, ClientEventView::Shown(true)).1
                == ClientActionView::Finish(ClientEnd::ShellExited { code })
        }),
{
}

/// The bytes on the socket are the frames of the messages that were sent, one
/// after the other.
pub proof fn lemma_socket_carries_messages(s: ClientState, events: Seq<ClientEventView>)
    requires
        fitting(s, events),
    ensures
        all_written(s, events) == crate::stream::encoded(
            crate::stream::client_encoder(),
            all_sent(s, events),
        ),
    decreases events.len(),
{
    if events.len() > 0 {
        let (next, action) = crate::client::client_step(s, events[0]);
        let tail = events.drop_first();
        let enc = crate::stream::client_encoder();
        lemma_socket_carries_messages(next, tail);
        let now = sent_by(s, events[0]);
        let later = all_sent(next, tail);
        if now.len() == 0 {
            assert(now + later =~= later);
            assert(written_by(action) =~= Seq::empty());
            assert(all_written(s, events) =~= all_written(next, tail));
        } else {
            assert((now + later).drop_first() =~= later);
            assert(written_by(action) == enc(now[0]));
        }
    }
}

/// Input in two runs of messages.
proof fn lemma_input_in_concat(a: Seq<ClientMessageView>, b: Seq<ClientMessageView>)
    ensures
        input_in(a + b) == input_in(a) + input_in(b),
    decreases a.len(),
{
    if a.len() == 0 {
        assert(a + b =~= b);
        assert(input_in(a + b) =~= input_in(a) + input_in(b));
    } else {
        assert((a + b).drop_first() =~= a.drop_first() + b);
        lemma_input_in_concat(a.drop_first(), b);
        assert(input_in(a + b) =~= input_in(a) + input_in(b));
    }
}

/// A relay that leaves reads no more keys and sends no more input.
pub proof fn lemma_leaving_reads_no_keys(s: ClientState, events: Seq<ClientEventView>)
    requires
        fitting(s, events),
        leaving(s.phase),
    ensures
        all_typed(s, events) == Seq::<u8>::empty(),
        input_in(all_sent(s, events)) == Seq::<u8>::empty(),
    decreases events.len(),
{
    if events.len() > 0 {
        let next = crate::client::client_step(s, events[0]).0;
        let tail = events.drop_first();
        assert(leaving(next.phase));
        lemma_leaving_reads_no_keys(next, tail);
        let now = sent_by(s, events[0]);
        let later = all_sent(next, tail);
        if now.len() == 0 {
            assert(now + later =~= later);
        } else {
            assert((now + later).drop_first() =~= later);
        }
        assert(all_typed(s, events) =~= Seq::empty());
        assert(input_in(all_sent(s, events)) =~= Seq::empty());
    }
}

/// The shell gets what was typed, no byte more and no byte less: over any run
/// the input sent is what the keys come to, however the reads cut them and
/// whatever happens between them.
pub proof fn lemma_typed_input_is_sent(s: ClientState, events: Seq<ClientEventView>)
    requires
        fitting(s, events),
        !leaving(s.phase),
    ensures
        input_in(all_sent(s, events)) == crate::keys::interpret(
            s.pending,
            all_typed(s, events),
        ).forward,
    decreases events.len(),
{
    if events.len() > 0 {
        let event = events[0];
        let next = crate::client::client_step(s, event).0;
        let tail = events.drop_first();
        let now = sent_by(s, event);
        let later = all_sent(next, tail);
        let typed = typed_by(s, event);
        let keys = crate::keys::interpret(s.pending, typed);
        lemma_input_in_concat(now, later);
        crate::keys::lemma_interpret_split(s.pending, typed, all_typed(next, tail));
        assert(input_in(now) =~= keys.forward) by {
            if now.len() > 0 {
                assert(now.drop_first().len() == 0);
                assert(input_in(now.drop_first()) =~= Seq::empty());
                assert(keys.forward + Seq::<u8>::empty() =~= keys.forward);
            }
        }
        if leaving(next.phase) {
            lemma_leaving_reads_no_keys(next, tail);
            assert(typed + Seq::<u8>::empty() =~= typed);
            assert(keys.forward + Seq::<u8>::empty() =~= keys.forward);
        } else {
            lemma_typed_input_is_sent(next, tail);
            assert(!keys.detach);
            assert(next.pending == keys.pending);
        }
    }
}

/// Outputs of two runs of messages.
proof fn lemma_output_in_concat(a: Seq<ServerMessageView>, b: Seq<ServerMessageView>)
    ensures
        crate::client::exit_in(a) is Some ==> {
            &&& crate::client::output_in(a + b) == crate::client::output_in(a)
            &&& crate::client::exit_in(a + b) == crate::client::exit_in(a)
        },
        crate::client::exit_in(a) is None ==> {
            &&& crate::client::output_in(a + b) == crate::client::output_in(a)
                + crate::client::output_in(b)
            &&& crate::client::exit_in(a + b) == crate::client::exit_in(b)
        },
    decreases a.len(),
{
    if a.len() == 0 {
        assert(a + b =~= b);
        assert(crate::client::output_in(a) + crate::client::output_in(b)
            =~= crate::client::output_in(b));
    } else {
        assert((a + b).drop_first() =~= a.drop_first() + b);
        lemma_output_in_concat(a.drop_first(), b);
        if crate::client::exit_in(a) is None {
            assert(crate::client::output_in(a + b) =~= crate::client::output_in(a)
                + crate::client::output_in(b));
        }
    }
}

/// A relay that closes shows nothing more.
proof fn lemma_closing_shows_nothing(s: ClientState, events: Seq<ClientEventView>)
    requires
        fitting(s, events),
        closing(s.phase),
    ensures
        all_received(s, events) == Seq::<u8>::empty(),
        all_shown(s, events) == Seq::<Seq<u8>>::empty(),
    decreases events.len(),
{
    if events.len() > 0 {
        let next = crate::client::client_step(s, events[0]).0;
        let tail = events.drop_first();
        assert(closing(next.phase));
        lemma_closing_shows_nothing(next, tail);
        assert(all_received(s, events) =~= Seq::empty());
        assert(all_shown(s, events) =~= Seq::empty());
    }
}

/// The terminal gets what the server sent: over any run the outputs shown are
/// those in the bytes from the socket, in order, up to the end of the shell.
pub proof fn lemma_received_output_is_shown(s: ClientState, events: Seq<ClientEventView>)
    requires
        fitting(s, events),
        !closing(s.phase),
        crate::protocol::server_message_at(s.held) is None,
    ensures
        all_shown(s, events) == crate::client::output_in(
            crate::client::received(s.held + all_received(s, events)),
        ),
    decreases events.len(),
{
    let dec = crate::stream::server_decoder();
    crate::stream::lemma_server_decoder_incremental();
    if events.len() == 0 {
        assert(s.held + all_received(s, events) =~= s.held);
        assert(dec(s.held) is None);
        assert(crate::client::received(s.held) =~= Seq::empty());
    } else {
        let event = events[0];
        let (next, action) = crate::client::client_step(s, event);
        let tail = events.drop_first();
        let more = all_received(next, tail);
        let bytes = received_by(s, event);
        let buf = s.held + bytes;
        assert(s.held + all_received(s, events) =~= buf + more);
        if s.phase is ReadingSocket && event matches ClientEventView::Read(Some(_)) {
            let first = crate::client::received(buf);
            crate::stream::lemma_split(dec, buf, more);
            lemma_output_in_concat(
                first,
                crate::client::received(crate::client::unused(buf) + more),
            );
            if crate::client::exit_in(first) is Some {
                lemma_closing_shows_nothing(next, tail);
                assert(all_shown(s, events) =~= crate::client::output_in(first));
            } else {
                crate::stream::lemma_leftover_is_used_up(dec, buf);
                assert(dec(next.held) is None);
                lemma_received_output_is_shown(next, tail);
            }
        } else {
            assert(buf =~= s.held);
            assert(next.held == s.held);
            assert(all_shown(s, events) =~= all_shown(next, tail));
            if closing(next.phase) {
                lemma_closing_shows_nothing(next, tail);
                assert(buf + more =~= s.held);
                assert(dec(s.held) is None);
                assert(crate::client::received(s.held) =~= Seq::empty());
            } else {
                lemma_received_output_is_shown(next, tail);
            }
        }
    }
}

/// How a run ends, if it does.
pub open spec fn end_of(s: ClientState, events: Seq<ClientEventView>) -> Option<ClientEnd>
    decreases events.len(),
{
    if events.len() == 0 {
        None
    } else {
        let (next, action) = crate::client::client_step(s, events[0]);
        match action {
            ClientActionView::Finish(end) => Some(end),
            _ => end_of(next, events.drop_first()),
        }
    }
}

/// A client that ends because the shell has ended does so on the server's word
/// and with the server's code: the one in the bytes from the socket, however
/// the reads cut them.
pub proof fn lemma_exit_code_is_received(s: ClientState, events: Seq<ClientEventView>, code: i32)
    requires
        fitting(s, events),
        !closing(s.phase),
        crate::protocol::server_message_at(s.held) is None,
        end_of(s, events) == Some(ClientEnd::ShellExited { code }),
    ensures
        crate::client::exit_in(crate::client::received(s.held + all_received(s, events))) == Some(
            code,
        ),
    decreases events.len(),
{
    let dec = crate::stream::server_decoder();
    crate::stream::lemma_server_decoder_incremental();
    let event = events[0];
    let (next, action) = crate::client::client_step(s, event);
    let tail = events.drop_first();
    let more = all_received(next, tail);
    let buf = s.held + received_by(s, event);
    assert(s.held + all_received(s, events) =~= buf + more);
    if s.phase is ReadingSocket && event matches ClientEventView::Read(Some(_)) {
        let first = crate::client::received(buf);
        crate::stream::lemma_split(dec, buf, more);
        lemma_output_in_concat(
            first,
            crate::client::received(crate::client::unused(buf) + more),
        );
        if crate::client::exit_in(first) is Some {
            assert(end_of(next, tail) is Some && fitting(next, tail));
            assert(crate::client::answers(next.phase, tail[0]));
            assert(crate::client::client_step(next, tail[0]).1 is Finish);
        } else {
            crate::stream::lemma_leftover_is_used_up(dec, buf);
            assert(dec(next.held) is None);
            lemma_exit_code_is_received(next, tail, code);
        }
    } else {
        assert(buf =~= s.held);
        assert(next.held == s.held);
        lemma_exit_code_is_received(next, tail, code);
    }
}

// ---------------------------------------------------------------------------
// What the messages of the server come to
// ---------------------------------------------------------------------------

/// The first message that tells of the shell's end gives the exit code, and
/// only what stands before it is shown: every output as it is, in order.
pub proof fn lemma_messages_up_to_the_end(
    outputs: Seq<ServerMessageView>,
    code: i32,
    rest: Seq<ServerMessageView>,
)
    requires
        forall|i: int| 0 <= i < outputs.len() ==> #[trigger] outputs[i] is Output,
    ensures
        ({
            let ended = outputs.push(ServerMessageView::ShellExited { code }) + rest;
            &&& crate::client::exit_in(outputs) is None
            &&& crate::client::exit_in(ended) == Some(code)
            &&& crate::client::output_in(ended) == crate::client::output_in(outputs)
            &&& crate::client::output_in(outputs).len() == outputs.len()
        }),
        forall|i: int|
            0 <= i < outputs.len() ==> #[trigger] outputs[i] == ServerMessageView::Output(
                crate::client::output_in(outputs)[i],
            ),
    decreases outputs.len(),
{
    let ended = outputs.push(ServerMessageView::ShellExited { code }) + rest;
    if outputs.len() > 0 {
        let tail = outputs.drop_first();
        assert(ended.drop_first() =~= tail.push(ServerMessageView::ShellExited { code }) + rest);
        assert(ended[0] == outputs[0]);
        assert forall|i: int| 0 <= i < tail.len() implies #[trigger] tail[i] is Output by {
            assert(tail[i] == outputs[i + 1]);
        }
        lemma_messages_up_to_the_end(tail, code, rest);
        assert forall|i: int| 0 <= i < outputs.len() implies #[trigger] outputs[i]
            == ServerMessageView::Output(crate::client::output_in(outputs)[i]) by {
            if i > 0 {
                assert(tail[i - 1] == outputs[i]);
            }
        }
    } else {
        assert(ended[0] == (ServerMessageView::ShellExited { code }));
        assert(crate::client::output_in(ended) =~= crate::client::output_in(outputs));
    }
}

/// An exit code is found exactly where a message tells of the shell's end.
pub proof fn lemma_exit_is_found(msgs: Seq<ServerMessageView>)
    ensures
        crate::client::exit_in(msgs) is Some <==> exists|i: int|
            0 <= i < msgs.len() && #[trigger] msgs[i] is ShellExited,
    decreases msgs.len(),
{
    if msgs.len() > 0 {
        let rest = msgs.drop_first();
        lemma_exit_is_found(rest);
        if exists|i: int| 0 <= i < rest.len() && #[trigger] rest[i] is ShellExited {
            let i = choose|i: int| 0 <= i < rest.len() && #[trigger] rest[i] is ShellExited;
            assert(msgs[i + 1] is ShellExited);
        }
        if exists|i: int| 0 <= i < msgs.len() && #[trigger] msgs[i] is ShellExited {
            let i = choose|i: int| 0 <= i < msgs.len() && #[trigger] msgs[i] is ShellExited;
            if i > 0 {
                assert(rest[i - 1] is ShellExited);
            } else {
                assert(msgs[0] is ShellExited);
            }
        }
    }
}

// ---------------------------------------------------------------------------
// One round of the relay
// ---------------------------------------------------------------------------

/// The poll that says the same of the terminal and the socket, and nothing of a
/// new size.
pub open spec fn only(ends: Ends) -> ClientEventView {
    let resized = crate::poll::Readiness { readable: false, closed: false };
    ClientEventView::Polled(ClientPoll::Ready { ends, resized })
}

/// The same ends once the terminal has been read.
pub open spec fn keys_read(ends: Ends) -> Ends {
    Ends { stdin: crate::poll::Readiness { readable: false, ..ends.stdin }, ..ends }
}

/// The order of a round without a new size: keys are read first; a terminal
/// that is gone and has none ends the client; then a socket that can be read is
/// read, even where it has hung up; and only a hangup with nothing to read ends
/// the client. With nothing to do the client polls again.
pub proof fn lemma_order_of_a_round(
    s: ClientState,
    ends: Ends,
    resized: crate::poll::Readiness,
)
    requires
        s.phase is Polling,
        !resized.readable,
    ensures
        ({
            let (next, action) = crate::client::client_step(
                s,
                ClientEventView::Polled(ClientPoll::Ready { ends, resized }),
            );
            let keys = ends.stdin.readable;
            let gone = !keys && ends.stdin.closed;
            let output = !keys && !gone && ends.socket.readable;
            let hung_up = !keys && !gone && !output && ends.socket.closed;
            &&& keys ==> action == ClientActionView::ReadStdin && next == ClientState {
                phase: ClientPhase::ReadingStdin { rest: ends },
                ..s
            }
            &&& output ==> action == ClientActionView::ReadSocket && next == ClientState {
                phase: ClientPhase::ReadingSocket { closed: ends.socket.closed },
                ..s
            }
            &&& gone || hung_up ==> action == ClientActionView::Finish(ClientEnd::Closed)
            &&& !keys && !gone && !output && !hung_up ==> (next, action) == (
                s,
                ClientActionView::Poll,
            )
        }),
{
}

/// What the server wrote before it hung up is read: in every round in which the
/// socket can be read and the terminal is not gone, the socket is read, whether
/// or not it is closed too, and whether or not there were keys before it.
pub proof fn lemma_readable_socket_is_read(
    s: ClientState,
    ends: Ends,
    resized: crate::poll::Readiness,
    typed: Seq<u8>,
)
    requires
        s.phase is Polling,
        !resized.readable,
        ends.socket.readable,
        !ends.stdin.closed,
        !crate::keys::interpret(s.pending, typed).detach,
    ensures
        ({
            let (s1, a1) = crate::client::client_step(
                s,
                ClientEventView::Polled(ClientPoll::Ready { ends, resized }),
            );
            let (s2, a2) = crate::client::client_step(s1, ClientEventView::Read(Some(typed)));
            let (s3, a3) = crate::client::client_step(s2, ClientEventView::Sent(true));
            &&& !ends.stdin.readable ==> a1 is ReadSocket
            &&& ends.stdin.readable ==> {
                &&& a1 is ReadStdin
                &&& if crate::keys::interpret(s.pending, typed).forward.len() > 0 {
                    a2 is Send && a3 is ReadSocket
                } else {
                    a2 is ReadSocket
                }
            }
        }),
{
}

/// A new size comes before all else in a round, and then the round goes on as
/// if there had been none. It does so, too, where the size cannot be had or
/// cannot be sent.
pub proof fn lemma_round_goes_on_after_size(
    s: ClientState,
    ends: Ends,
    resized: crate::poll::Readiness,
    rows: u16,
    cols: u16,
    ok: bool,
)
    requires
        s.phase is Polling,
        resized.readable,
    ensures
        ({
            let (s1, a1) = crate::client::client_step(
                s,
                ClientEventView::Polled(ClientPoll::Ready { ends, resized }),
            );
            let (s2, a2) = crate::client::client_step(s1, ClientEventView::Discarded);
            let (s3, a3) = crate::client::client_step(s2, ClientEventView::Size(Some((rows, cols))));
            let without = crate::client::client_step(s, only(ends));
            &&& a1 == ClientActionView::DiscardResize
            &&& a2 == ClientActionView::AskSize
            &&& a3 == ClientActionView::Send(
                crate::protocol::client_frame(ClientMessageView::Resize { rows, cols }),
            )
            &&& crate::client::client_step(s3, ClientEventView::Sent(ok)) == without
            &&& crate::client::client_step(s2, ClientEventView::Size(None)) == without
        }),
{
}

/// The first thing that a client tells is its size; then it polls, whatever
/// came of that.
pub proof fn lemma_first_size_is_told(s: ClientState, rows: u16, cols: u16, ok: bool)
    requires
        s.phase == (ClientPhase::AskingSize { resume: None }),
    ensures
        ({
            let (s1, a1) = crate::client::client_step(s, ClientEventView::Size(Some((rows, cols))));
            let polls = (ClientState { phase: ClientPhase::Polling, ..s }, ClientActionView::Poll);
            &&& a1 == ClientActionView::Send(
                crate::protocol::client_frame(ClientMessageView::Resize { rows, cols }),
            )
            &&& crate::client::client_step(s1, ClientEventView::Sent(ok)) == polls
            &&& crate::client::client_step(s, ClientEventView::Size(None)) == polls
        }),
{
}

/// Keys that ask for no detach: what is meant for the shell is sent in one
/// message, and then, or at once where there is nothing to send, the round goes
/// on as if there had been no keys.
pub proof fn lemma_round_goes_on_after_keys(s: ClientState, rest: Ends, typed: Seq<u8>)
    requires
        s.phase == (ClientPhase::ReadingStdin { rest }),
        !crate::keys::interpret(s.pending, typed).detach,
    ensures
        ({
            let keys = crate::keys::interpret(s.pending, typed);
            let polling = ClientState {
                phase: ClientPhase::Polling,
                pending: keys.pending,
                held: s.held,
            };
            let without = crate::client::client_step(polling, only(keys_read(rest)));
            let (s1, a1) = crate::client::client_step(s, ClientEventView::Read(Some(typed)));
            if keys.forward.len() > 0 {
                &&& a1 == ClientActionView::Send(
                    crate::protocol::client_frame(ClientMessageView::Input(keys.forward)),
                )
                &&& crate::client::client_step(s1, ClientEventView::Sent(true)) == without
            } else {
                (s1, a1) == without
            }
        }),
{
}

/// A lost terminal, a lost server, and input or output that cannot be written
/// end the client; so does a failed poll.
pub proof fn lemma_losses_end_the_client(s: ClientState)
    ensures
        s.phase is ReadingStdin || s.phase is ReadingSocket ==> crate::client::client_step(
            s,
            ClientEventView::Read(None),
        ).1 == ClientActionView::Finish(ClientEnd::Closed),
        s.phase is SendingInput ==> crate::client::client_step(s, ClientEventView::Sent(false)).1
            == ClientActionView::Finish(ClientEnd::Closed),
        s.phase is Showing ==> crate::client::client_step(s, ClientEventView::Shown(false)).1
            == ClientActionView::Finish(ClientEnd::Closed),
        s.phase is Polling ==> crate::client::client_step(
            s,
            ClientEventView::Polled(ClientPoll::Failed),
        ).1 == ClientActionView::Finish(ClientEnd::Closed),
{
}

/// What arrives from the server is shown, whether or not the socket has hung up
/// since. Then the shell's end, if it was told, ends the client with its code;
/// a hangup ends it without one; and otherwise it polls again and keeps the
/// bytes that are no whole message yet.
pub proof fn lemma_what_arrives_is_shown(s: ClientState, closed: bool, bytes: Seq<u8>)
    requires
        s.phase == (ClientPhase::ReadingSocket { closed }),
    ensures
        ({
            let msgs = crate::stream::messages(crate::stream::server_decoder(), s.held + bytes);
            let left = crate::stream::leftover(crate::stream::server_decoder(), s.held + bytes);
            let (s1, a1) = crate::client::client_step(s, ClientEventView::Read(Some(bytes)));
            let (s2, a2) = crate::client::client_step(s1, ClientEventView::Shown(true));
            &&& a1 == ClientActionView::Show(crate::client::output_in(msgs))
            &&& match crate::client::exit_in(msgs) {
                Some(code) => a2 == ClientActionView::Finish(ClientEnd::ShellExited { code }),
                None => if closed {
                    a2 == ClientActionView::Finish(ClientEnd::Closed)
                } else {
                    &&& a2 == ClientActionView::Poll
                    &&& s2 == ClientState { phase: ClientPhase::Polling, held: left, ..s }
                },
            }
        }),
{
}

/// Whatever comes of an action is expected, and nothing else is.
#[verifier::spinoff_prover]
#[verifier::rlimit(60)]
pub proof fn lemma_every_outcome_is_expected(s: ClientState, event: ClientEventView)
    requires
        crate::client::answers(s.phase, event),
    ensures
        ({
            let (next, action) = crate::client::client_step(s, event);
            forall|e: ClientEventView| #[trigger]
                crate::client::answers(next.phase, e) <==> match action {
                    ClientActionView::AskSize => e is Size,
                    ClientActionView::Send(_) => e is Sent,
                    ClientActionView::Poll => e is Polled,
                    ClientActionView::DiscardResize => e is Discarded,
                    ClientActionView::ReadStdin => e is Read,
                    ClientActionView::ReadSocket => e is Read,
                    ClientActionView::Show(_) => e is Shown,
                    ClientActionView::Finish(_) => false,
                }
        }),
        forall|e: ClientEventView| #[trigger]
            crate::client::answers(ClientPhase::AskingSize { resume: None }, e) <==> e is Size,
{
}

/// Events and actions say what they hold.
pub proof fn lemma_events_and_actions_say_what_they_hold(
    size: Option<(u16, u16)>,
    ok: bool,
    poll: ClientPoll,
    read: crate::poll::ReadOutcome,
    frame: Vec<u8>,
    outputs: Vec<Vec<u8>>,
    end: ClientEnd,
)
    ensures
        crate::client::ClientEvent::Size(size)@ == ClientEventView::Size(size),
        crate::client::ClientEvent::Sent(ok)@ == ClientEventView::Sent(ok),
        crate::client::ClientEvent::Polled(poll)@ == ClientEventView::Polled(poll),
        crate::client::ClientEvent::Discarded@ == ClientEventView::Discarded,
        crate::client::ClientEvent::Read(read)@ == ClientEventView::Read(read.arrived()),
        crate::client::ClientEvent::Shown(ok)@ == ClientEventView::Shown(ok),
        crate::client::ClientAction::AskSize@ == ClientActionView::AskSize,
        crate::client::ClientAction::Send(frame)@ == ClientActionView::Send(frame@),
        crate::client::ClientAction::Poll@ == ClientActionView::Poll,
        crate::client::ClientAction::DiscardResize@ == ClientActionView::DiscardResize,
        crate::client::ClientAction::ReadStdin@ == ClientActionView::ReadStdin,
        crate::client::ClientAction::ReadSocket@ == ClientActionView::ReadSocket,
        crate::client::ClientAction::Finish(end)@ == ClientActionView::Finish(end),
        crate::client::ClientAction::Show(outputs)@ matches ClientActionView::Show(shown)
            && shown.len() == outputs@.len() && forall|i: int|
            0 <= i < outputs@.len() ==> #[trigger] shown[i] == outputs@[i]@,
{
}

} // verus!
