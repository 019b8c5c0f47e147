//! What holds of a server over its whole run.

use crate::protocol::{ClientMessageView, ServerMessageView};
use crate::server::{
    ServerActionView, ServerEnd, ServerEventView, ServerPhase, ServerPoll, ServerState,
    ShellRequestView, Sides, REPLAY_BUFFER_BYTES,
};
use vstd::prelude::*;

verus! {

/// Whether every event answers what the server asked for at that point.
pub open spec fn fitting(s: ServerState, events: Seq<ServerEventView>) -> bool
    decreases events.len(),
{
    events.len() > 0 ==> {
        &&& crate::server::answers(s.phase, events[0])
        &&& fitting(crate::server::server_step(s, events[0]).0, events.drop_first())
    }
}

/// The state after all the events.
pub open spec fn state_after(s: ServerState, events: Seq<ServerEventView>) -> ServerState
    decreases events.len(),
{
    if events.len() == 0 {
        s
    } else {
        state_after(crate::server::server_step(s, events[0]).0, events.drop_first())
    }
}

/// Whether a client is connected.
pub open spec fn attached(phase: ServerPhase) -> bool {
    match phase {
        ServerPhase::Replaying | ServerPhase::Serving => true,
        ServerPhase::ServeReading { .. } | ServerPhase::SendingOutput { .. } => true,
        ServerPhase::ReadingClient { .. } | ServerPhase::Applying { .. } => true,
        ServerPhase::Leaving | ServerPhase::ReapingForClient => true,
        ServerPhase::Notifying | ServerPhase::LeavingLast => true,
        _ => false,
    }
}

/// Whether the same client is connected from `s` on through all the events.
pub open spec fn stays_attached(s: ServerState, events: Seq<ServerEventView>) -> bool
    decreases events.len(),
{
    &&& attached(s.phase)
    &&& events.len() > 0 ==> stays_attached(
        crate::server::server_step(s, events[0]).0,
        events.drop_first(),
    )
}

/// Whether nothing more is read from the shell or the client that is
/// connected.
pub open spec fn closing(phase: ServerPhase) -> bool {
    match phase {
        ServerPhase::Applying { detached, .. } => detached,
        ServerPhase::Leaving | ServerPhase::ReapingForClient => true,
        ServerPhase::Notifying | ServerPhase::LeavingLast => true,
        _ => false,
    }
}

/// Whether the shell has been started and is not known to have ended.
pub open spec fn shell_alive(phase: ServerPhase) -> bool {
    match phase {
        ServerPhase::Waiting | ServerPhase::WaitReading { .. } => true,
        ServerPhase::Accepting | ServerPhase::Opening => true,
        ServerPhase::Dropping | ServerPhase::Reporting => true,
        ServerPhase::Replaying | ServerPhase::Serving => true,
        ServerPhase::ServeReading { .. } | ServerPhase::SendingOutput { .. } => true,
        ServerPhase::ReadingClient { .. } | ServerPhase::Applying { .. } => true,
        ServerPhase::Leaving => true,
        _ => false,
    }
}

/// Whether an event shows that the shell has ended: its output is at an end,
/// or its terminal hung up and has nothing more to read now.
pub open spec fn shows_shell_gone(s: ServerState, event: ServerEventView) -> bool {
    match (s.phase, event) {
        (ServerPhase::Waiting, ServerEventView::Polled(ServerPoll::Ready(sides))) => {
            !sides.shell.readable && sides.shell.closed
        },
        (ServerPhase::Serving, ServerEventView::Polled(ServerPoll::Ready(sides))) => {
            !sides.shell.readable && sides.shell.closed
        },
        (ServerPhase::WaitReading { .. }, ServerEventView::Read(None)) => true,
        (ServerPhase::ServeReading { .. }, ServerEventView::Read(None)) => true,
        (ServerPhase::WaitReading { sides }, ServerEventView::Read(Some(_))) => sides.shell.closed,
        (ServerPhase::SendingOutput { sides }, ServerEventView::Sent(true)) => sides.shell.closed,
        _ => false,
    }
}

/// Whether the server cannot wait for clients any more.
pub open spec fn shows_listener_gone(s: ServerState, event: ServerEventView) -> bool {
    match (s.phase, event) {
        (ServerPhase::Waiting, ServerEventView::Polled(ServerPoll::Failed)) => true,
        (ServerPhase::Accepting, ServerEventView::Accepted(false)) => true,
        _ => false,
    }
}

/// The bytes that an event brings from the shell.
pub open spec fn output_by(s: ServerState, event: ServerEventView) -> Seq<u8> {
    match (s.phase, event) {
        (ServerPhase::WaitReading { .. }, ServerEventView::Read(Some(bytes))) => bytes,
        (ServerPhase::ServeReading { .. }, ServerEventView::Read(Some(bytes))) => bytes,
        _ => Seq::empty(),
    }
}

/// All bytes from the shell.
pub open spec fn all_output(s: ServerState, events: Seq<ServerEventView>) -> Seq<u8>
    decreases events.len(),
{
    if events.len() == 0 {
        Seq::empty()
    } else {
        output_by(s, events[0]) + all_output(
            crate::server::server_step(s, events[0]).0,
            events.drop_first(),
        )
    }
}

/// The message that the server sends in answer to an event.
pub open spec fn sent_by(s: ServerState, event: ServerEventView) -> Seq<ServerMessageView> {
    match (s.phase, event) {
        (ServerPhase::Opening, ServerEventView::Opened(true)) => if s.recent.len() > 0 {
            seq![ServerMessageView::Output(s.recent)]
        } else {
            Seq::empty()
        },
        (ServerPhase::ServeReading { .. }, ServerEventView::Read(Some(bytes))) => seq![
            ServerMessageView::Output(bytes),
        ],
        (ServerPhase::ReapingForClient, ServerEventView::Reaped(Some(code))) => seq![
            ServerMessageView::ShellExited { code },
        ],
        (ServerPhase::ReapingForClient, ServerEventView::Reaped(None)) => seq![
            ServerMessageView::ShellExited { code: -1i32 },
        ],
        _ => Seq::empty(),
    }
}

/// All messages that the server sends.
pub open spec fn all_sent(s: ServerState, events: Seq<ServerEventView>) -> Seq<ServerMessageView>
    decreases events.len(),
{
    if events.len() == 0 {
        Seq::empty()
    } else {
        sent_by(s, events[0]) + all_sent(
            crate::server::server_step(s, events[0]).0,
            events.drop_first(),
        )
    }
}

/// The bytes that an action writes to the client.
pub open spec fn written_by(action: ServerActionView) -> Seq<u8> {
    match action {
        ServerActionView::Send(frame) => frame,
        _ => Seq::empty(),
    }
}

/// All bytes written to clients.
pub open spec fn all_written(s: ServerState, events: Seq<ServerEventView>) -> Seq<u8>
    decreases events.len(),
{
    if events.len() == 0 {
        Seq::empty()
    } else {
        let (next, action) = crate::server::server_step(s, events[0]);
        written_by(action) + all_written(next, events.drop_first())
    }
}

/// The bytes that an event brings from the client.
pub open spec fn received_by(s: ServerState, event: ServerEventView) -> Seq<u8> {
    match (s.phase, event) {
        (ServerPhase::ReadingClient { .. }, ServerEventView::Read(Some(bytes))) => bytes,
        _ => Seq::empty(),
    }
}

/// All bytes from clients.
pub open spec fn all_received(s: ServerState, events: Seq<ServerEventView>) -> Seq<u8>
    decreases events.len(),
{
    if events.len() == 0 {
        Seq::empty()
    } else {
        received_by(s, events[0]) + all_received(
            crate::server::server_step(s, events[0]).0,
            events.drop_first(),
        )
    }
}

/// The requests that an action carries out.
pub open spec fn applied_by(action: ServerActionView) -> Seq<ShellRequestView> {
    match action {
        ServerActionView::Apply(requests) => requests,
        _ => Seq::empty(),
    }
}

/// All requests carried out.
pub open spec fn all_applied(s: ServerState, events: Seq<ServerEventView>) -> Seq<ShellRequestView>
    decreases events.len(),
{
    if events.len() == 0 {
        Seq::empty()
    } else {
        let (next, action) = crate::server::server_step(s, events[0]);
        applied_by(action) + all_applied(next, events.drop_first())
    }
}

/// The output of the shell in these messages.
pub open spec fn output_bytes(msgs: Seq<ServerMessageView>) -> Seq<u8>
    decreases msgs.len(),
{
    if msgs.len() == 0 {
        Seq::empty()
    } else {
        let head = match msgs[0] {
            ServerMessageView::Output(bytes) => bytes,
            ServerMessageView::ShellExited { .. } => Seq::empty(),
        };
        head + output_bytes(msgs.drop_first())
    }
}

/// How many of these messages tell of the shell's end.
pub open spec fn exits_told(msgs: Seq<ServerMessageView>) -> nat
    decreases msgs.len(),
{
    if msgs.len() == 0 {
        0
    } else {
        let head: nat = if msgs[0] is ShellExited {
            1
        } else {
            0
        };
        head + exits_told(msgs.drop_first())
    }
}

// ---------------------------------------------------------------------------
// The last output
// ---------------------------------------------------------------------------

/// What is kept never exceeds the limit, is the end of what the shell wrote,
/// and is all of it while that fits.
pub proof fn lemma_remembered_is_the_end(buffer: Seq<u8>, bytes: Seq<u8>)
    ensures
        crate::server::remembered(buffer, bytes).len() <= REPLAY_BUFFER_BYTES,
        crate::server::remembered(buffer, bytes).is_suffix_of(buffer + bytes),
        buffer.len() + bytes.len() <= REPLAY_BUFFER_BYTES ==> crate::server::remembered(
            buffer,
            bytes,
        ) == buffer + bytes,
        buffer.len() + bytes.len() > REPLAY_BUFFER_BYTES ==> crate::server::remembered(
            buffer,
            bytes,
        ).len() == REPLAY_BUFFER_BYTES,
{
}

/// It does not matter in how many reads the output came.
pub proof fn lemma_reads_do_not_matter(buffer: Seq<u8>, a: Seq<u8>, b: Seq<u8>)
    ensures
        crate::server::remembered(crate::server::remembered(buffer, a), b)
            == crate::server::remembered(buffer, a + b),
{
    let n = REPLAY_BUFFER_BYTES as nat;
    let kept = crate::server::remembered(buffer, a);
    let whole = buffer + (a + b);
    assert(whole =~= (buffer + a) + b);
    assert(crate::server::remembered(kept, b) =~= crate::server::remembered(buffer, a + b));
}

/// At any time the server remembers the end of all that the shell has written,
/// with or without clients.
pub proof fn lemma_recent_is_the_end(s: ServerState, events: Seq<ServerEventView>)
    requires
        fitting(s, events),
        s.recent.len() <= REPLAY_BUFFER_BYTES,
    ensures
        state_after(s, events).recent == crate::server::remembered(
            s.recent,
            all_output(s, events),
        ),
        state_after(s, events).recent.len() <= REPLAY_BUFFER_BYTES,
    decreases events.len(),
{
    if events.len() == 0 {
        assert(s.recent + all_output(s, events) =~= s.recent);
    } else {
        let next = crate::server::server_step(s, events[0]).0;
        let tail = events.drop_first();
        let bytes = output_by(s, events[0]);
        lemma_reads_do_not_matter(s.recent, bytes, all_output(next, tail));
        assert(next.recent == crate::server::remembered(s.recent, bytes)) by {
            if next.recent == s.recent && bytes.len() == 0 {
                assert(s.recent + bytes =~= s.recent);
            }
        }
        lemma_recent_is_the_end(next, tail);
    }
}

// ---------------------------------------------------------------------------
// Output to the client
// ---------------------------------------------------------------------------

/// The bytes written to a client are the frames of the messages that were
/// sent, one after the other.
pub proof fn lemma_socket_carries_messages(s: ServerState, events: Seq<ServerEventView>)
    requires
        fitting(s, events),
    ensures
        all_written(s, events) == crate::stream::encoded(
            crate::stream::server_encoder(),
            all_sent(s, events),
        ),
    decreases events.len(),
{
    if events.len() > 0 {
        let (next, action) = crate::server::server_step(s, events[0]);
        let tail = events.drop_first();
        let enc = crate::stream::server_encoder();
        lemma_socket_carries_messages(next, tail);
        let now = sent_by(s, events[0]);
        let later = all_sent(next, tail);
        if now.len() == 0 {
            assert(now + later =~= later);
            assert(written_by(action) =~= Seq::empty());
            assert(all_written(s, events) =~= all_written(next, tail));
        } else {
            assert((now + later).drop_first() =~= later);
            assert(written_by(action) == enc(now[0]));
        }
    }
}

/// At most one message at the head of others.
proof fn lemma_head_of_messages(now: Seq<ServerMessageView>, later: Seq<ServerMessageView>)
    requires
        now.len() <= 1,
    ensures
        output_bytes(now + later) == output_bytes(now) + output_bytes(later),
        exits_told(now + later) == exits_told(now) + exits_told(later),
        now.len() == 1 ==> output_bytes(now) == (match now[0] {
            ServerMessageView::Output(bytes) => bytes,
            ServerMessageView::ShellExited { .. } => Seq::empty(),
        }),
        now.len() == 1 ==> exits_told(now) == (if now[0] is ShellExited {
            1nat
        } else {
            0nat
        }),
{
    if now.len() == 0 {
        assert(now + later =~= later);
        assert(output_bytes(now) + output_bytes(later) =~= output_bytes(later));
    } else {
        assert((now + later).drop_first() =~= later);
        assert(now.drop_first().len() == 0);
        assert(output_bytes(now.drop_first()) =~= Seq::empty());
        assert(exits_told(now.drop_first()) == 0);
        assert(output_bytes(now) =~= match now[0] {
            ServerMessageView::Output(bytes) => bytes,
            ServerMessageView::ShellExited { .. } => Seq::empty(),
        });
    }
}

/// While a client is connected it gets all that the shell writes, in order,
/// nothing left out and nothing twice.
pub proof fn lemma_output_is_sent(s: ServerState, events: Seq<ServerEventView>)
    requires
        fitting(s, events),
        stays_attached(s, events),
    ensures
        output_bytes(all_sent(s, events)) == all_output(s, events),
    decreases events.len(),
{
    if events.len() > 0 {
        let next = crate::server::server_step(s, events[0]).0;
        let tail = events.drop_first();
        lemma_output_is_sent(next, tail);
        lemma_head_of_messages(sent_by(s, events[0]), all_sent(next, tail));
        assert(output_bytes(sent_by(s, events[0])) =~= output_by(s, events[0]));
    }
}

/// A client that attaches first gets the last output of the shell, and then
/// all that the shell writes while it is connected.
pub proof fn lemma_attaching_shows_the_screen(s: ServerState, events: Seq<ServerEventView>)
    requires
        s.phase is Opening,
        fitting(s, seq![ServerEventView::Opened(true)] + events),
        stays_attached(
            crate::server::server_step(s, ServerEventView::Opened(true)).0,
            events,
        ),
    ensures
        output_bytes(all_sent(s, seq![ServerEventView::Opened(true)] + events)) == s.recent
            + all_output(s, seq![ServerEventView::Opened(true)] + events),
{
    let all = seq![ServerEventView::Opened(true)] + events;
    let next = crate::server::server_step(s, ServerEventView::Opened(true)).0;
    assert(all[0] == ServerEventView::Opened(true));
    assert(all.drop_first() =~= events);
    lemma_output_is_sent(next, events);
    lemma_head_of_messages(sent_by(s, all[0]), all_sent(next, events));
    assert(output_by(s, all[0]) =~= Seq::empty());
    assert(all_output(s, all) =~= all_output(next, events));
    assert(output_bytes(sent_by(s, all[0])) =~= s.recent);
}

/// The end of the shell is told at most once in the life of a server.
pub proof fn lemma_exit_is_told_once(s: ServerState, events: Seq<ServerEventView>)
    requires
        fitting(s, events),
    ensures
        exits_told(all_sent(s, events)) <= 1,
        told_or_silent(s.phase) ==> exits_told(all_sent(s, events)) == 0,
    decreases events.len(),
{
    if events.len() > 0 {
        let next = crate::server::server_step(s, events[0]).0;
        let tail = events.drop_first();
        lemma_exit_is_told_once(next, tail);
        lemma_head_of_messages(sent_by(s, events[0]), all_sent(next, tail));
    }
}

/// The exit code of the shell, as the server learns it while a client is
/// connected, or -1 where the shell did not exit by itself.
pub open spec fn exit_learned(s: ServerState, events: Seq<ServerEventView>) -> Option<i32>
    decreases events.len(),
{
    if events.len() == 0 {
        None
    } else {
        match (s.phase, events[0]) {
            (ServerPhase::ReapingForClient, ServerEventView::Reaped(Some(code))) => Some(code),
            (ServerPhase::ReapingForClient, ServerEventView::Reaped(None)) => Some(-1i32),
            _ => exit_learned(crate::server::server_step(s, events[0]).0, events.drop_first()),
        }
    }
}

/// The code that the server tells is the one that it has learned.
pub proof fn lemma_exit_code_is_told(s: ServerState, events: Seq<ServerEventView>)
    requires
        fitting(s, events),
    ensures
        crate::client::exit_in(all_sent(s, events)) == exit_learned(s, events),
    decreases events.len(),
{
    if events.len() > 0 {
        let next = crate::server::server_step(s, events[0]).0;
        let tail = events.drop_first();
        let now = sent_by(s, events[0]);
        let later = all_sent(next, tail);
        lemma_exit_code_is_told(next, tail);
        if now.len() == 0 {
            assert(now + later =~= later);
        } else {
            assert((now + later).drop_first() =~= later);
        }
    }
}

/// Whether the end of the shell has been told, or will not be because nobody
/// was there.
pub open spec fn told_or_silent(phase: ServerPhase) -> bool {
    match phase {
        ServerPhase::Notifying | ServerPhase::LeavingLast => true,
        ServerPhase::Reaping | ServerPhase::ClosingShell => true,
        ServerPhase::RemovingSocket | ServerPhase::Finished => true,
        _ => false,
    }
}

// ---------------------------------------------------------------------------
// Input from the client
// ---------------------------------------------------------------------------

/// Requests in two runs of messages.
proof fn lemma_requests_in_concat(a: Seq<ClientMessageView>, b: Seq<ClientMessageView>)
    ensures
        crate::server::detach_in(a) ==> crate::server::requests_in(a + b)
            == crate::server::requests_in(a),
        !crate::server::detach_in(a) ==> crate::server::requests_in(a + b)
            == crate::server::requests_in(a) + crate::server::requests_in(b),
    decreases a.len(),
{
    if a.len() == 0 {
        assert(a + b =~= b);
        assert(crate::server::requests_in(a) + crate::server::requests_in(b)
            =~= crate::server::requests_in(b));
    } else {
        let rest = a.drop_first();
        assert((a + b).drop_first() =~= rest + b);
        lemma_requests_in_concat(rest, b);
        if a[0] !is Detach {
            if crate::server::detach_in(a) {
                let i = a.index_of(ClientMessageView::Detach);
                assert(rest[i - 1] == ClientMessageView::Detach);
            }
            if crate::server::detach_in(rest) {
                let i = rest.index_of(ClientMessageView::Detach);
                assert(a[i + 1] == ClientMessageView::Detach);
            }
            assert(!crate::server::detach_in(a) ==> crate::server::requests_in(a + b)
                =~= crate::server::requests_in(a) + crate::server::requests_in(b));
        }
    }
}

/// A server that is done with a client does nothing more for it.
proof fn lemma_closing_applies_nothing(s: ServerState, events: Seq<ServerEventView>)
    requires
        fitting(s, events),
        stays_attached(s, events),
        closing(s.phase),
    ensures
        all_received(s, events) == Seq::<u8>::empty(),
        all_applied(s, events) == Seq::<ShellRequestView>::empty(),
    decreases events.len(),
{
    if events.len() > 0 {
        let next = crate::server::server_step(s, events[0]).0;
        let tail = events.drop_first();
        assert(stays_attached(next, tail));
        assert(closing(next.phase));
        lemma_closing_applies_nothing(next, tail);
        assert(all_received(s, events) =~= Seq::empty());
        assert(all_applied(s, events) =~= Seq::empty());
    }
}

/// What a client asks for is done: while it is connected, the requests carried
/// out are those in the bytes from it, in order, up to a request to detach,
/// however the socket cuts the stream.
pub proof fn lemma_client_requests_are_applied(s: ServerState, events: Seq<ServerEventView>)
    requires
        fitting(s, events),
        stays_attached(s, events),
        !closing(s.phase),
        crate::protocol::client_message_at(s.held) is None,
    ensures
        all_applied(s, events) == crate::server::requests_in(
            crate::server::received(s.held + all_received(s, events)),
        ),
    decreases events.len(),
{
    let dec = crate::stream::client_decoder();
    crate::stream::lemma_client_decoder_incremental();
    if events.len() == 0 {
        assert(s.held + all_received(s, events) =~= s.held);
        assert(dec(s.held) is None);
        assert(crate::server::received(s.held) =~= Seq::empty());
    } else {
        let event = events[0];
        let (next, action) = crate::server::server_step(s, event);
        let tail = events.drop_first();
        let more = all_received(next, tail);
        let bytes = received_by(s, event);
        let buf = s.held + bytes;
        assert(s.held + all_received(s, events) =~= buf + more);
        if s.phase is ReadingClient && event matches ServerEventView::Read(Some(_)) {
            let first = crate::server::received(buf);
            crate::stream::lemma_split(dec, buf, more);
            lemma_requests_in_concat(
                first,
                crate::server::received(crate::server::unused(buf) + more),
            );
            if crate::server::detach_in(first) {
                lemma_closing_applies_nothing(next, tail);
                assert(all_applied(s, events) =~= crate::server::requests_in(first));
            } else {
                crate::stream::lemma_leftover_is_used_up(dec, buf);
                assert(dec(next.held) is None);
                lemma_client_requests_are_applied(next, tail);
            }
        } else {
            assert(attached(next.phase));
            assert(buf =~= s.held);
            assert(next.held == s.held);
            assert(all_applied(s, events) =~= all_applied(next, tail));
            if closing(next.phase) {
                lemma_closing_applies_nothing(next, tail);
                assert(buf + more =~= s.held);
                assert(dec(s.held) is None);
                assert(crate::server::received(s.held) =~= Seq::empty());
            } else {
                lemma_client_requests_are_applied(next, tail);
            }
        }
    }
}

// ---------------------------------------------------------------------------
// The life of the shell
// ---------------------------------------------------------------------------

/// The shell outlives its clients: nothing but its own end, or the loss of the
/// listening socket, ends the session. No client can, whether it detaches, is
/// lost or sends something senseless.
pub proof fn lemma_shell_outlives_clients(s: ServerState, event: ServerEventView)
    requires
        crate::server::answers(s.phase, event),
        shell_alive(s.phase),
    ensures
        shell_alive(crate::server::server_step(s, event).0.phase) <==> !shows_shell_gone(s, event)
            && !shows_listener_gone(s, event),
        attached(s.phase) ==> !shows_listener_gone(s, event),
{
}

/// A request to detach is obeyed: what the client asked for before it is done,
/// the connection is closed, and the server waits for the next client with the
/// same shell and the same remembered output.
pub proof fn lemma_detach_is_obeyed(s: ServerState, closed: bool, bytes: Seq<u8>)
    requires
        s.phase == (ServerPhase::ReadingClient { closed }),
        crate::server::detach_in(crate::server::received(s.held + bytes)),
    ensures
        ({
            let (s1, a1) = crate::server::server_step(s, ServerEventView::Read(Some(bytes)));
            let (s2, a2) = crate::server::server_step(s1, ServerEventView::Done);
            let (s3, a3) = crate::server::server_step(s2, ServerEventView::Done);
            &&& a1 == ServerActionView::Apply(
                crate::server::requests_in(crate::server::received(s.held + bytes)),
            )
            &&& a2 == ServerActionView::CloseClient
            &&& a3 == ServerActionView::PollListener
            &&& s3.phase is Waiting
            &&& s3.recent == s.recent
        }),
{
}

/// A client that has left makes room for the next one, and what the shell
/// wrote last stays remembered for it.
pub proof fn lemma_next_client_is_waited_for(s: ServerState)
    requires
        s.phase is Leaving,
    ensures
        crate::server::server_step(s, ServerEventView::Done) == (
            ServerState { phase: ServerPhase::Waiting, ..s },
            ServerActionView::PollListener,
        ),
{
}

/// Without a client the shell is read all the same, and what it writes is
/// remembered.
pub proof fn lemma_shell_is_read_without_client(s: ServerState, sides: Sides, bytes: Seq<u8>)
    requires
        s.phase is Waiting,
        sides.shell.readable,
        !sides.shell.closed,
        !sides.peer.readable,
    ensures
        ({
            let (s1, a1) = crate::server::server_step(
                s,
                ServerEventView::Polled(ServerPoll::Ready(sides)),
            );
            let (s2, a2) = crate::server::server_step(s1, ServerEventView::Read(Some(bytes)));
            &&& a1 == ServerActionView::ReadShell
            &&& a2 == ServerActionView::PollListener
            &&& s2 == ServerState { recent: crate::server::remembered(s.recent, bytes), ..s }
        }),
{
}

/// The end of the shell, seen while a client is connected, is told to the
/// client, and then everything is cleaned up. Nothing on the way can stop it.
pub proof fn lemma_end_of_shell_with_client(
    s: ServerState,
    event: ServerEventView,
    code: Option<i32>,
    ok: bool,
    late: Option<i32>,
)
    requires
        crate::server::answers(s.phase, event),
        attached(s.phase),
        shows_shell_gone(s, event),
    ensures
        ({
            let (s1, a1) = crate::server::server_step(s, event);
            let (s2, a2) = crate::server::server_step(s1, ServerEventView::Reaped(code));
            let (s3, a3) = crate::server::server_step(s2, ServerEventView::Sent(ok));
            let (s4, a4) = crate::server::server_step(s3, ServerEventView::Done);
            &&& a1 == ServerActionView::ReapShell
            &&& a2 == ServerActionView::Send(
                crate::protocol::server_frame(
                    ServerMessageView::ShellExited {
                        code: match code {
                            Some(code) => code,
                            None => -1i32,
                        },
                    },
                ),
            )
            &&& a3 == ServerActionView::CloseClient
            &&& a4 == ServerActionView::ReapShell
            &&& cleans_up(s4, late)
        }),
{
}

/// The end of the shell, seen while nobody is attached, is cleaned up after.
pub proof fn lemma_end_of_shell_without_client(
    s: ServerState,
    event: ServerEventView,
    code: Option<i32>,
)
    requires
        crate::server::answers(s.phase, event),
        !attached(s.phase),
        shows_shell_gone(s, event),
    ensures
        crate::server::server_step(s, event).1 == ServerActionView::ReapShell,
        cleans_up(crate::server::server_step(s, event).0, code),
{
}

/// Whether the server, once the shell's process has ended, closes its
/// terminal, removes its socket and finishes, in this order.
pub open spec fn cleans_up(s: ServerState, code: Option<i32>) -> bool {
    let (s1, a1) = crate::server::server_step(s, ServerEventView::Reaped(code));
    let (s2, a2) = crate::server::server_step(s1, ServerEventView::Done);
    let (s3, a3) = crate::server::server_step(s2, ServerEventView::Done);
    &&& a1 == ServerActionView::CloseShell
    &&& a2 == ServerActionView::RemoveSocket
    &&& a3 == ServerActionView::Finish(ServerEnd::ShellExited)
}

/// The socket of a session is removed only where nobody answered on it, or
/// once the session is over. A server that finds its session taken leaves the
/// socket of the other one alone.
pub proof fn lemma_only_dead_sockets_are_removed(s: ServerState, event: ServerEventView)
    requires
        crate::server::answers(s.phase, event),
    ensures
        crate::server::server_step(s, event).1 is RemoveSocket <==> (s.phase is ClosingShell || (
        s.phase is Probing && event == ServerEventView::Probed(false))),
{
}

/// A signal that interrupts a poll neither ends a connection nor changes
/// anything.
pub proof fn lemma_interruption_changes_nothing(s: ServerState)
    requires
        s.phase is Waiting || s.phase is Serving,
    ensures
        crate::server::server_step(s, ServerEventView::Polled(ServerPoll::Interrupted)) == (
            s,
            if s.phase is Waiting {
                ServerActionView::PollListener
            } else {
                ServerActionView::PollClient
            },
        ),
{
}

/// The server finishes exactly when it says so, and is then done for good.
pub proof fn lemma_finish_is_final(s: ServerState, event: ServerEventView)
    requires
        crate::server::answers(s.phase, event),
    ensures
        crate::server::server_step(s, event).0.phase is Finished
            <==> crate::server::server_step(s, event).1 is Finish,
        forall|later: ServerEventView|
            crate::server::server_step(s, event).1 is Finish
                ==> !#[trigger] crate::server::answers(
                crate::server::server_step(s, event).0.phase,
                later,
            ),
{
}

// ---------------------------------------------------------------------------
// What the messages of a client come to
// ---------------------------------------------------------------------------

/// Every message before a request to detach is one request: input is written as
/// it is, and a size is given as it is, the rows as rows and the columns as
/// columns. What follows the request to detach is passed over.
pub proof fn lemma_messages_up_to_detach(
    msgs: Seq<ClientMessageView>,
    rest: Seq<ClientMessageView>,
)
    requires
        forall|i: int| 0 <= i < msgs.len() ==> #[trigger] msgs[i] !is Detach,
    ensures
        !crate::server::detach_in(msgs),
        crate::server::detach_in(msgs.push(ClientMessageView::Detach) + rest),
        crate::server::requests_in(msgs.push(ClientMessageView::Detach) + rest)
            == crate::server::requests_in(msgs),
        crate::server::requests_in(msgs).len() == msgs.len(),
        forall|i: int|
            0 <= i < msgs.len() ==> match #[trigger] msgs[i] {
                ClientMessageView::Input(bytes) => crate::server::requests_in(msgs)[i]
                    == ShellRequestView::Write(bytes),
                ClientMessageView::Resize { rows, cols } => crate::server::requests_in(msgs)[i] == (
                ShellRequestView::Resize { rows, cols }),
                ClientMessageView::Detach => false,
            },
    decreases msgs.len(),
{
    let all = msgs.push(ClientMessageView::Detach) + rest;
    assert(all[msgs.len() as int] == ClientMessageView::Detach);
    if msgs.len() > 0 {
        let tail = msgs.drop_first();
        assert(all.drop_first() =~= tail.push(ClientMessageView::Detach) + rest);
        assert(all[0] == msgs[0]);
        assert forall|i: int| 0 <= i < tail.len() implies #[trigger] tail[i] !is Detach by {
            assert(tail[i] == msgs[i + 1]);
        }
        lemma_messages_up_to_detach(tail, rest);
        let requests = crate::server::requests_in(msgs);
        assert(requests.drop_first() =~= crate::server::requests_in(tail));
        assert forall|i: int| 0 <= i < msgs.len() implies match #[trigger] msgs[i] {
            ClientMessageView::Input(bytes) => requests[i] == ShellRequestView::Write(bytes),
            ClientMessageView::Resize { rows, cols } => requests[i] == (ShellRequestView::Resize {
                rows,
                cols,
            }),
            ClientMessageView::Detach => false,
        } by {
            if i > 0 {
                assert(tail[i - 1] == msgs[i]);
                assert(requests[i] == crate::server::requests_in(tail)[i - 1]);
            }
        }
    } else {
        assert(all[0] == ClientMessageView::Detach);
        assert(crate::server::requests_in(all) =~= crate::server::requests_in(msgs));
    }
}

// ---------------------------------------------------------------------------
// One round of the server
// ---------------------------------------------------------------------------

/// The poll that says this of the two sides.
pub open spec fn polled(sides: Sides) -> ServerEventView {
    ServerEventView::Polled(ServerPoll::Ready(sides))
}

/// The same sides once the shell has been read.
pub open spec fn shell_read(sides: Sides) -> Sides {
    Sides { shell: crate::poll::Readiness { readable: false, ..sides.shell }, ..sides }
}

/// A server comes up step by step: a socket that nobody answers on is removed
/// first, then the server listens, then it starts the shell, and then it waits
/// for clients. What fails on the way ends it.
pub proof fn lemma_server_comes_up(s: ServerState)
    ensures
        s.phase is Probing ==> {
            &&& crate::server::server_step(s, ServerEventView::Probed(true)) == (
                ServerState { phase: ServerPhase::Binding, ..s },
                ServerActionView::Bind,
            )
            &&& crate::server::server_step(s, ServerEventView::Probed(false)) == (
                ServerState { phase: ServerPhase::RemovingStale, ..s },
                ServerActionView::RemoveSocket,
            )
        },
        s.phase is RemovingStale ==> crate::server::server_step(s, ServerEventView::Done) == (
            ServerState { phase: ServerPhase::Binding, ..s },
            ServerActionView::Bind,
        ),
        s.phase is Binding ==> {
            &&& crate::server::server_step(s, ServerEventView::Bound(true)) == (
                ServerState { phase: ServerPhase::Spawning, ..s },
                ServerActionView::SpawnShell,
            )
            &&& crate::server::server_step(s, ServerEventView::Bound(false)).1
                == ServerActionView::Finish(ServerEnd::Failed)
        },
        s.phase is Spawning ==> {
            &&& crate::server::server_step(s, ServerEventView::Spawned(true)) == (
                ServerState { phase: ServerPhase::Waiting, ..s },
                ServerActionView::PollListener,
            )
            &&& crate::server::server_step(s, ServerEventView::Spawned(false)).1
                == ServerActionView::Finish(ServerEnd::Failed)
        },
{
}

/// The order of a round without a client: the shell is read first, even where
/// its terminal has hung up; a hangup with nothing to read is its end; and only
/// a shell that lives is given a client.
pub proof fn lemma_order_of_a_waiting_round(s: ServerState, sides: Sides)
    requires
        s.phase is Waiting,
    ensures
        ({
            let (next, action) = crate::server::server_step(s, polled(sides));
            let output = sides.shell.readable;
            let ended = !output && sides.shell.closed;
            let client = !output && !ended && sides.peer.readable;
            &&& output ==> action == ServerActionView::ReadShell && next == ServerState {
                phase: ServerPhase::WaitReading { sides },
                ..s
            }
            &&& ended ==> action == ServerActionView::ReapShell && next == ServerState {
                phase: ServerPhase::Reaping,
                ..s
            }
            &&& client ==> action == ServerActionView::Accept && next == ServerState {
                phase: ServerPhase::Accepting,
                ..s
            }
            &&& !output && !ended && !client ==> (next, action) == (
                s,
                ServerActionView::PollListener,
            )
        }),
        crate::server::server_step(s, ServerEventView::Polled(ServerPoll::Failed)).1
            == ServerActionView::Finish(ServerEnd::Failed),
{
}

/// Output without a client is remembered, and then the round goes on as if
/// there had been none. The end of the output is the end of the shell.
pub proof fn lemma_waiting_round_goes_on(s: ServerState, sides: Sides, bytes: Seq<u8>)
    requires
        s.phase == (ServerPhase::WaitReading { sides }),
    ensures
        crate::server::server_step(s, ServerEventView::Read(Some(bytes)))
            == crate::server::server_step(
            ServerState {
                phase: ServerPhase::Waiting,
                recent: crate::server::remembered(s.recent, bytes),
                held: s.held,
            },
            polled(shell_read(sides)),
        ),
        crate::server::server_step(s, ServerEventView::Read(None)) == (
            ServerState { phase: ServerPhase::Reaping, ..s },
            ServerActionView::ReapShell,
        ),
{
}

/// A client that knocks is let in and gets, before anything else, what the
/// shell wrote last, if it wrote anything. Nothing of an earlier client's
/// messages is left. A connection that cannot be used is closed and reported,
/// and the wait goes on.
pub proof fn lemma_clients_are_let_in(s: ServerState)
    ensures
        s.phase is Accepting ==> {
            &&& crate::server::server_step(s, ServerEventView::Accepted(true)) == (
                ServerState { phase: ServerPhase::Opening, ..s },
                ServerActionView::OpenClient,
            )
            &&& crate::server::server_step(s, ServerEventView::Accepted(false)).1
                == ServerActionView::Finish(ServerEnd::Failed)
        },
        s.phase is Opening ==> {
            &&& s.recent.len() > 0 ==> crate::server::server_step(s, ServerEventView::Opened(true))
                == (
                ServerState { phase: ServerPhase::Replaying, held: Seq::empty(), ..s },
                ServerActionView::Send(
                    crate::protocol::server_frame(ServerMessageView::Output(s.recent)),
                ),
            )
            &&& s.recent.len() == 0 ==> crate::server::server_step(s, ServerEventView::Opened(true))
                == (
                ServerState { phase: ServerPhase::Serving, held: Seq::empty(), ..s },
                ServerActionView::PollClient,
            )
            &&& crate::server::server_step(s, ServerEventView::Opened(false)) == (
                ServerState { phase: ServerPhase::Dropping, ..s },
                ServerActionView::CloseClient,
            )
        },
        s.phase is Dropping ==> crate::server::server_step(s, ServerEventView::Done) == (
            ServerState { phase: ServerPhase::Reporting, ..s },
            ServerActionView::ReportClientError,
        ),
        s.phase is Reporting || s.phase is Leaving ==> crate::server::server_step(
            s,
            ServerEventView::Done,
        ) == (
            ServerState { phase: ServerPhase::Waiting, ..s },
            ServerActionView::PollListener,
        ),
        s.phase is Replaying ==> crate::server::server_step(s, ServerEventView::Sent(true)) == (
            ServerState { phase: ServerPhase::Serving, ..s },
            ServerActionView::PollClient,
        ),
{
}

/// The order of a round with a client: the shell is read first, even where its
/// terminal has hung up; a hangup with nothing to read is its end; then a client
/// that can be read is read, even where it has hung up; and only a hangup with
/// nothing to read is taken for its leaving.
pub proof fn lemma_order_of_a_serving_round(s: ServerState, sides: Sides)
    requires
        s.phase is Serving,
    ensures
        ({
            let (next, action) = crate::server::server_step(s, polled(sides));
            let output = sides.shell.readable;
            let ended = !output && sides.shell.closed;
            let input = !output && !ended && sides.peer.readable;
            let left = !output && !ended && !input && sides.peer.closed;
            &&& output ==> action == ServerActionView::ReadShell && next == ServerState {
                phase: ServerPhase::ServeReading { sides },
                ..s
            }
            &&& ended ==> action == ServerActionView::ReapShell && next == ServerState {
                phase: ServerPhase::ReapingForClient,
                ..s
            }
            &&& input ==> action == ServerActionView::ReadClient && next == ServerState {
                phase: ServerPhase::ReadingClient { closed: sides.peer.closed },
                ..s
            }
            &&& left ==> action == ServerActionView::CloseClient && next == ServerState {
                phase: ServerPhase::Leaving,
                ..s
            }
            &&& !output && !ended && !input && !left ==> (next, action) == (
                s,
                ServerActionView::PollClient,
            )
        }),
{
}

/// Output with a client is remembered and sent as it is, and then the round
/// goes on as if there had been none. The end of the output is the end of the
/// shell.
pub proof fn lemma_serving_round_goes_on(s: ServerState, sides: Sides, bytes: Seq<u8>)
    requires
        s.phase == (ServerPhase::ServeReading { sides }),
    ensures
        ({
            let (s1, a1) = crate::server::server_step(s, ServerEventView::Read(Some(bytes)));
            let serving = ServerState {
                phase: ServerPhase::Serving,
                recent: crate::server::remembered(s.recent, bytes),
                held: s.held,
            };
            &&& a1 == ServerActionView::Send(
                crate::protocol::server_frame(ServerMessageView::Output(bytes)),
            )
            &&& s1.recent == serving.recent && s1.held == s.held
            &&& crate::server::server_step(s1, ServerEventView::Sent(true))
                == crate::server::server_step(serving, polled(shell_read(sides)))
        }),
        crate::server::server_step(s, ServerEventView::Read(None)) == (
            ServerState { phase: ServerPhase::ReapingForClient, ..s },
            ServerActionView::ReapShell,
        ),
{
}

/// What a client sends is carried out, whether or not it has hung up since.
/// Then one that asked to detach, or has hung up, has left; from any other the
/// server keeps the bytes that are no whole message yet.
pub proof fn lemma_what_arrives_is_applied(s: ServerState, closed: bool, bytes: Seq<u8>)
    requires
        s.phase == (ServerPhase::ReadingClient { closed }),
    ensures
        ({
            let msgs = crate::stream::messages(crate::stream::client_decoder(), s.held + bytes);
            let left = crate::stream::leftover(crate::stream::client_decoder(), s.held + bytes);
            let detached = msgs.contains(ClientMessageView::Detach);
            let (s1, a1) = crate::server::server_step(s, ServerEventView::Read(Some(bytes)));
            let (s2, a2) = crate::server::server_step(s1, ServerEventView::Done);
            &&& a1 == ServerActionView::Apply(crate::server::requests_in(msgs))
            &&& s2.recent == s.recent
            &&& detached || closed ==> s2.phase is Leaving && a2 == ServerActionView::CloseClient
            &&& !detached && !closed ==> (s2, a2) == (
                ServerState { phase: ServerPhase::Serving, held: left, ..s },
                ServerActionView::PollClient,
            )
        }),
{
}

/// A client that is lost in any way has left, and takes nothing with it.
pub proof fn lemma_lost_clients_have_left(s: ServerState)
    ensures
        ({
            let left = (
                ServerState { phase: ServerPhase::Leaving, ..s },
                ServerActionView::CloseClient,
            );
            &&& s.phase is ReadingClient ==> crate::server::server_step(
                s,
                ServerEventView::Read(None),
            ) == left
            &&& s.phase is Replaying || s.phase is SendingOutput ==> crate::server::server_step(
                s,
                ServerEventView::Sent(false),
            ) == left
            &&& s.phase is Serving ==> crate::server::server_step(
                s,
                ServerEventView::Polled(ServerPoll::Failed),
            ) == left
        }),
{
}

/// A shell that exited by itself is reported with its own code, whatever it is,
/// and only one that did not is reported as -1.
pub proof fn lemma_exit_code_is_the_shells(s: ServerState, code: i32)
    requires
        s.phase is ReapingForClient,
    ensures
        crate::server::server_step(s, ServerEventView::Reaped(Some(code))).1
            == ServerActionView::Send(
            crate::protocol::server_frame(ServerMessageView::ShellExited { code }),
        ),
        crate::server::server_step(s, ServerEventView::Reaped(None)).1 == ServerActionView::Send(
            crate::protocol::server_frame(ServerMessageView::ShellExited { code: -1i32 }),
        ),
{
}

/// Whatever comes of an action is expected, and nothing else is.
#[verifier::spinoff_prover]
#[verifier::rlimit(60)]
pub proof fn lemma_every_outcome_is_expected(s: ServerState, event: ServerEventView)
    requires
        crate::server::answers(s.phase, event),
    ensures
        ({
            let (next, action) = crate::server::server_step(s, event);
            forall|e: ServerEventView| #[trigger]
                crate::server::answers(next.phase, e) <==> match action {
                    ServerActionView::ProbeSocket => e is Probed,
                    ServerActionView::Bind => e is Bound,
                    ServerActionView::SpawnShell => e is Spawned,
                    ServerActionView::PollListener => e is Polled,
                    ServerActionView::PollClient => e is Polled,
                    ServerActionView::ReadShell => e is Read,
                    ServerActionView::ReadClient => e is Read,
                    ServerActionView::Accept => e is Accepted,
                    ServerActionView::OpenClient => e is Opened,
                    ServerActionView::Send(_) => e is Sent,
                    ServerActionView::ReapShell => e is Reaped,
                    ServerActionView::Finish(_) => false,
                    _ => e is Done,
                }
        }),
        forall|e: ServerEventView| #[trigger]
            crate::server::answers(ServerPhase::Probing, e) <==> e is Probed,
{
}

/// Events, actions and requests say what they hold.
pub proof fn lemma_events_and_actions_say_what_they_hold(
    ok: bool,
    poll: ServerPoll,
    read: crate::poll::ReadOutcome,
    code: Option<i32>,
    bytes: Vec<u8>,
    rows: u16,
    cols: u16,
    requests: Vec<crate::server::ShellRequest>,
    end: ServerEnd,
)
    ensures
        crate::server::ServerEvent::Probed(ok)@ == ServerEventView::Probed(ok),
        crate::server::ServerEvent::Bound(ok)@ == ServerEventView::Bound(ok),
        crate::server::ServerEvent::Spawned(ok)@ == ServerEventView::Spawned(ok),
        crate::server::ServerEvent::Polled(poll)@ == ServerEventView::Polled(poll),
        crate::server::ServerEvent::Read(read)@ == ServerEventView::Read(read.arrived()),
        crate::server::ServerEvent::Accepted(ok)@ == ServerEventView::Accepted(ok),
        crate::server::ServerEvent::Opened(ok)@ == ServerEventView::Opened(ok),
        crate::server::ServerEvent::Sent(ok)@ == ServerEventView::Sent(ok),
        crate::server::ServerEvent::Reaped(code)@ == ServerEventView::Reaped(code),
        crate::server::ServerEvent::Done@ == ServerEventView::Done,
        crate::server::ShellRequest::Write(bytes)@ == ShellRequestView::Write(bytes@),
        (crate::server::ShellRequest::Resize { rows, cols })@ == (ShellRequestView::Resize {
            rows,
            cols,
        }),
        crate::server::ServerAction::ProbeSocket@ == ServerActionView::ProbeSocket,
        crate::server::ServerAction::RemoveSocket@ == ServerActionView::RemoveSocket,
        crate::server::ServerAction::Bind@ == ServerActionView::Bind,
        crate::server::ServerAction::SpawnShell@ == ServerActionView::SpawnShell,
        crate::server::ServerAction::PollListener@ == ServerActionView::PollListener,
        crate::server::ServerAction::PollClient@ == ServerActionView::PollClient,
        crate::server::ServerAction::ReadShell@ == ServerActionView::ReadShell,
        crate::server::ServerAction::Accept@ == ServerActionView::Accept,
        crate::server::ServerAction::OpenClient@ == ServerActionView::OpenClient,
        crate::server::ServerAction::ReportClientError@ == ServerActionView::ReportClientError,
        crate::server::ServerAction::Send(bytes)@ == ServerActionView::Send(bytes@),
        crate::server::ServerAction::ReadClient@ == ServerActionView::ReadClient,
        crate::server::ServerAction::CloseClient@ == ServerActionView::CloseClient,
        crate::server::ServerAction::ReapShell@ == ServerActionView::ReapShell,
        crate::server::ServerAction::CloseShell@ == ServerActionView::CloseShell,
        crate::server::ServerAction::Finish(end)@ == ServerActionView::Finish(end),
        crate::server::ServerAction::Apply(requests)@ matches ServerActionView::Apply(said)
            && said.len() == requests@.len() && forall|i: int|
            0 <= i < requests@.len() ==> #[trigger] said[i] == requests@[i]@,
{
}

} // verus!
