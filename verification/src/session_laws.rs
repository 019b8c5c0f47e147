//! What holds of a client and a server together: what is typed at one end
//! comes out at the other, and back.

use crate::client::{
    ClientActionView, ClientEnd, ClientEventView, ClientPhase, ClientState, Ends,
};
use crate::protocol::{ClientMessageView, ServerMessageView};
use crate::server::{ServerEventView, ServerState, ShellRequestView};
use vstd::prelude::*;

verus! {

/// The bytes that these requests write to the shell.
pub open spec fn bytes_written(requests: Seq<ShellRequestView>) -> Seq<u8>
    decreases requests.len(),
{
    if requests.len() == 0 {
        Seq::empty()
    } else {
        let head = match requests[0] {
            ShellRequestView::Write(bytes) => bytes,
            ShellRequestView::Resize { .. } => Seq::empty(),
        };
        head + bytes_written(requests.drop_first())
    }
}

/// A client that has just connected.
pub open spec fn new_client() -> ClientState {
    ClientState {
        phase: ClientPhase::AskingSize { resume: None },
        held: Seq::empty(),
        pending: false,
    }
}

/// A client sends no input after it has asked to detach, so nothing that it
/// sends is passed over.
proof fn lemma_no_input_after_detach(c: ClientState, events: Seq<ClientEventView>)
    requires
        crate::client_laws::fitting(c, events),
    ensures
        bytes_written(crate::server::requests_in(crate::client_laws::all_sent(c, events)))
            == crate::client_laws::input_in(crate::client_laws::all_sent(c, events)),
    decreases events.len(),
{
    if events.len() > 0 {
        let next = crate::client::client_step(c, events[0]).0;
        let tail = events.drop_first();
        let now = crate::client_laws::sent_by(c, events[0]);
        let later = crate::client_laws::all_sent(next, tail);
        lemma_no_input_after_detach(next, tail);
        if now.len() == 0 {
            assert(now + later =~= later);
        } else {
            assert((now + later).drop_first() =~= later);
            match now[0] {
                ClientMessageView::Detach => {
                    assert(crate::client_laws::leaving(next.phase));
                    crate::client_laws::lemma_leaving_reads_no_keys(next, tail);
                    assert(crate::client_laws::input_in(now + later) =~= Seq::empty());
                },
                _ => {
                    let requests = crate::server::requests_in(now + later);
                    assert(requests.drop_first() =~= crate::server::requests_in(later));
                },
            }
        }
    }
}

/// What a client sends is what the server does: where the server has read all
/// that the client wrote, it carries out the client's input and the client's
/// window sizes, all of them, in order, up to a request to detach. Reads and
/// writes may cut the streams anywhere. Bodies of 4 GiB and more are left out.
pub proof fn lemma_requests_reach_the_shell(
    client_events: Seq<ClientEventView>,
    s: ServerState,
    server_events: Seq<ServerEventView>,
)
    requires
        crate::client_laws::fitting(new_client(), client_events),
        forall|i: int|
            0 <= i < crate::client_laws::all_sent(new_client(), client_events).len() ==> (
            #[trigger] crate::protocol::client_body(
                crate::client_laws::all_sent(new_client(), client_events)[i],
            )).len() <= u32::MAX,
        crate::server_laws::fitting(s, server_events),
        crate::server_laws::stays_attached(s, server_events),
        !crate::server_laws::closing(s.phase),
        s.held == Seq::<u8>::empty(),
        crate::server_laws::all_received(s, server_events) == crate::client_laws::all_written(
            new_client(),
            client_events,
        ),
    ensures
        crate::server_laws::all_applied(s, server_events) == crate::server::requests_in(
            crate::client_laws::all_sent(new_client(), client_events),
        ),
{
    let c = new_client();
    let stream = crate::client_laws::all_written(c, client_events);
    crate::client_laws::lemma_socket_carries_messages(c, client_events);
    crate::stream::lemma_client_stream_read_back(
        crate::client_laws::all_sent(c, client_events),
    );
    assert(s.held + stream =~= stream);
    crate::server_laws::lemma_client_requests_are_applied(s, server_events);
}

/// What is typed reaches the shell: where the server has read all that the
/// client wrote, the bytes that it hands to the shell are those typed, with
/// the prefix commands carried out, no byte more and no byte less. Reads and
/// writes may cut the streams anywhere. Bodies of 4 GiB and more are left out.
pub proof fn lemma_keys_reach_the_shell(
    client_events: Seq<ClientEventView>,
    s: ServerState,
    server_events: Seq<ServerEventView>,
)
    requires
        crate::client_laws::fitting(new_client(), client_events),
        forall|i: int|
            0 <= i < crate::client_laws::all_sent(new_client(), client_events).len() ==> (
            #[trigger] crate::protocol::client_body(
                crate::client_laws::all_sent(new_client(), client_events)[i],
            )).len() <= u32::MAX,
        crate::server_laws::fitting(s, server_events),
        crate::server_laws::stays_attached(s, server_events),
        !crate::server_laws::closing(s.phase),
        s.held == Seq::<u8>::empty(),
        crate::server_laws::all_received(s, server_events) == crate::client_laws::all_written(
            new_client(),
            client_events,
        ),
    ensures
        bytes_written(crate::server_laws::all_applied(s, server_events))
            == crate::keys::interpret(
            false,
            crate::client_laws::all_typed(new_client(), client_events),
        ).forward,
{
    let c = new_client();
    lemma_requests_reach_the_shell(client_events, s, server_events);
    lemma_no_input_after_detach(c, client_events);
    crate::client_laws::lemma_typed_input_is_sent(c, client_events);
}

/// Once the end of the shell has been told nothing more is sent.
proof fn lemma_silent_after_exit(s: ServerState, events: Seq<ServerEventView>)
    requires
        crate::server_laws::fitting(s, events),
        crate::server_laws::told_or_silent(s.phase),
    ensures
        crate::server_laws::all_sent(s, events) == Seq::<ServerMessageView>::empty(),
    decreases events.len(),
{
    if events.len() > 0 {
        let next = crate::server::server_step(s, events[0]).0;
        lemma_silent_after_exit(next, events.drop_first());
        assert(crate::server_laws::all_sent(s, events) =~= Seq::empty());
    }
}

/// The server sends no output after it has told of the shell's end, so nothing
/// that it sends is passed over.
proof fn lemma_no_output_after_exit(s: ServerState, events: Seq<ServerEventView>)
    requires
        crate::server_laws::fitting(s, events),
    ensures
        crate::stream::joined(
            crate::client::output_in(crate::server_laws::all_sent(s, events)),
        ) == crate::server_laws::output_bytes(crate::server_laws::all_sent(s, events)),
    decreases events.len(),
{
    if events.len() > 0 {
        let next = crate::server::server_step(s, events[0]).0;
        let tail = events.drop_first();
        let now = crate::server_laws::sent_by(s, events[0]);
        let later = crate::server_laws::all_sent(next, tail);
        lemma_no_output_after_exit(next, tail);
        if now.len() == 0 {
            assert(now + later =~= later);
        } else {
            assert((now + later).drop_first() =~= later);
            match now[0] {
                ServerMessageView::ShellExited { .. } => {
                    assert(crate::server_laws::told_or_silent(next.phase));
                    lemma_silent_after_exit(next, tail);
                    assert(crate::server_laws::output_bytes(now + later) =~= Seq::empty());
                },
                ServerMessageView::Output(bytes) => {
                    let outputs = crate::client::output_in(now + later);
                    assert(outputs.drop_first() =~= crate::client::output_in(later));
                },
            }
        }
    }
}

/// What the shell writes reaches the terminal: where a client has read all
/// that the server wrote to it since it attached, it shows the output that the
/// server remembered and then all that the shell wrote since, in order,
/// nothing left out and nothing twice. Bodies of 4 GiB and more are left out.
pub proof fn lemma_output_reaches_the_terminal(
    s: ServerState,
    later: Seq<ServerEventView>,
    client_events: Seq<ClientEventView>,
)
    requires
        s.phase is Opening,
        crate::server_laws::fitting(s, seq![ServerEventView::Opened(true)] + later),
        crate::server_laws::stays_attached(
            crate::server::server_step(s, ServerEventView::Opened(true)).0,
            later,
        ),
        forall|i: int|
            0 <= i < crate::server_laws::all_sent(
                s,
                seq![ServerEventView::Opened(true)] + later,
            ).len() ==> (#[trigger] crate::protocol::server_body(
                crate::server_laws::all_sent(s, seq![ServerEventView::Opened(true)] + later)[i],
            )).len() <= u32::MAX,
        crate::client_laws::fitting(new_client(), client_events),
        crate::client_laws::all_received(new_client(), client_events)
            == crate::server_laws::all_written(s, seq![ServerEventView::Opened(true)] + later),
    ensures
        crate::stream::joined(crate::client_laws::all_shown(new_client(), client_events))
            == s.recent + crate::server_laws::all_output(
            s,
            seq![ServerEventView::Opened(true)] + later,
        ),
{
    let c = new_client();
    let events = seq![ServerEventView::Opened(true)] + later;
    let msgs = crate::server_laws::all_sent(s, events);
    let stream = crate::server_laws::all_written(s, events);
    crate::server_laws::lemma_socket_carries_messages(s, events);
    crate::stream::lemma_server_stream_read_back(msgs);
    assert(c.held + stream =~= stream);
    crate::client_laws::lemma_received_output_is_shown(c, client_events);
    lemma_no_output_after_exit(s, events);
    crate::server_laws::lemma_attaching_shows_the_screen(s, later);
}

/// The exit code of the shell reaches the user: where a client has read all
/// that the server wrote to it, and ends because the shell has ended, it ends
/// with the code that the server learned from the shell. Bodies of 4 GiB and
/// more are left out.
pub proof fn lemma_exit_code_reaches_the_client(
    s: ServerState,
    server_events: Seq<ServerEventView>,
    client_events: Seq<ClientEventView>,
    code: i32,
)
    requires
        crate::server_laws::fitting(s, server_events),
        forall|i: int|
            0 <= i < crate::server_laws::all_sent(s, server_events).len() ==> (
            #[trigger] crate::protocol::server_body(
                crate::server_laws::all_sent(s, server_events)[i],
            )).len() <= u32::MAX,
        crate::client_laws::fitting(new_client(), client_events),
        crate::client_laws::all_received(new_client(), client_events)
            == crate::server_laws::all_written(s, server_events),
        crate::client_laws::end_of(new_client(), client_events) == Some(
            ClientEnd::ShellExited { code },
        ),
    ensures
        crate::server_laws::all_sent(s, server_events).contains(
            ServerMessageView::ShellExited { code },
        ),
        crate::server_laws::exit_learned(s, server_events) == Some(code),
{
    let c = new_client();
    let msgs = crate::server_laws::all_sent(s, server_events);
    let stream = crate::server_laws::all_written(s, server_events);
    crate::server_laws::lemma_socket_carries_messages(s, server_events);
    crate::stream::lemma_server_stream_read_back(msgs);
    assert(c.held + stream =~= stream);
    crate::client_laws::lemma_exit_code_is_received(c, client_events, code);
    crate::server_laws::lemma_exit_code_is_told(s, server_events);
    lemma_exit_stands_in_messages(msgs);
}

/// An exit code found in messages stands in one of them.
proof fn lemma_exit_stands_in_messages(msgs: Seq<ServerMessageView>)
    ensures
        crate::client::exit_in(msgs) matches Some(code) ==> msgs.contains(
            ServerMessageView::ShellExited { code },
        ),
    decreases msgs.len(),
{
    if msgs.len() > 0 {
        let rest = msgs.drop_first();
        lemma_exit_stands_in_messages(rest);
        match msgs[0] {
            ServerMessageView::Output(_) => {
                if let Some(code) = crate::client::exit_in(msgs) {
                    let i = rest.index_of(ServerMessageView::ShellExited { code });
                    assert(msgs[i + 1] == (ServerMessageView::ShellExited { code }));
                }
            },
            ServerMessageView::ShellExited { code } => {
                assert(msgs[0] == (ServerMessageView::ShellExited { code }));
            },
        }
    }
}

/// The sizes that an event brings from the terminal.
pub open spec fn size_by(c: ClientState, event: ClientEventView) -> Seq<(u16, u16)> {
    match (c.phase, event) {
        (ClientPhase::AskingSize { .. }, ClientEventView::Size(Some(size))) => seq![size],
        _ => Seq::empty(),
    }
}

/// All sizes that the terminal told the client, rows first.
pub open spec fn all_sizes(c: ClientState, events: Seq<ClientEventView>) -> Seq<(u16, u16)>
    decreases events.len(),
{
    if events.len() == 0 {
        Seq::empty()
    } else {
        size_by(c, events[0]) + all_sizes(
            crate::client::client_step(c, events[0]).0,
            events.drop_first(),
        )
    }
}

/// The sizes that these requests give to the shell's terminal, rows first.
pub open spec fn sizes_given(requests: Seq<ShellRequestView>) -> Seq<(u16, u16)>
    decreases requests.len(),
{
    if requests.len() == 0 {
        Seq::empty()
    } else {
        let head = match requests[0] {
            ShellRequestView::Write(_) => Seq::empty(),
            ShellRequestView::Resize { rows, cols } => seq![(rows, cols)],
        };
        head + sizes_given(requests.drop_first())
    }
}

/// A client that leaves tells no more sizes.
proof fn lemma_leaving_tells_no_size(c: ClientState, events: Seq<ClientEventView>)
    requires
        crate::client_laws::fitting(c, events),
        crate::client_laws::leaving(c.phase),
    ensures
        all_sizes(c, events) == Seq::<(u16, u16)>::empty(),
    decreases events.len(),
{
    if events.len() > 0 {
        let next = crate::client::client_step(c, events[0]).0;
        assert(crate::client_laws::leaving(next.phase));
        lemma_leaving_tells_no_size(next, events.drop_first());
        assert(all_sizes(c, events) =~= Seq::empty());
    }
}

/// What a client sends gives the sizes that it was told.
proof fn lemma_sizes_are_sent(c: ClientState, events: Seq<ClientEventView>)
    requires
        crate::client_laws::fitting(c, events),
    ensures
        sizes_given(crate::server::requests_in(crate::client_laws::all_sent(c, events)))
            == all_sizes(c, events),
    decreases events.len(),
{
    if events.len() > 0 {
        let next = crate::client::client_step(c, events[0]).0;
        let tail = events.drop_first();
        let now = crate::client_laws::sent_by(c, events[0]);
        let later = crate::client_laws::all_sent(next, tail);
        lemma_sizes_are_sent(next, tail);
        if now.len() == 0 {
            assert(now + later =~= later);
            assert(all_sizes(c, events) =~= all_sizes(next, tail));
        } else {
            assert((now + later).drop_first() =~= later);
            match now[0] {
                ClientMessageView::Detach => {
                    assert(crate::client_laws::leaving(next.phase));
                    lemma_leaving_tells_no_size(next, tail);
                    assert(all_sizes(c, events) =~= Seq::empty());
                },
                _ => {
                    let requests = crate::server::requests_in(now + later);
                    assert(requests.drop_first() =~= crate::server::requests_in(later));
                    assert(sizes_given(requests) =~= all_sizes(c, events));
                },
            }
        }
    }
}

/// The shell's terminal follows the user's: where the server has read all that
/// the client wrote, the sizes that it gives to the shell's terminal are those
/// that the client was told by its own, rows as rows and columns as columns,
/// all of them and in order.
pub proof fn lemma_sizes_reach_the_shell(
    client_events: Seq<ClientEventView>,
    s: ServerState,
    server_events: Seq<ServerEventView>,
)
    requires
        crate::client_laws::fitting(new_client(), client_events),
        forall|i: int|
            0 <= i < crate::client_laws::all_sent(new_client(), client_events).len() ==> (
            #[trigger] crate::protocol::client_body(
                crate::client_laws::all_sent(new_client(), client_events)[i],
            )).len() <= u32::MAX,
        crate::server_laws::fitting(s, server_events),
        crate::server_laws::stays_attached(s, server_events),
        !crate::server_laws::closing(s.phase),
        s.held == Seq::<u8>::empty(),
        crate::server_laws::all_received(s, server_events) == crate::client_laws::all_written(
            new_client(),
            client_events,
        ),
    ensures
        sizes_given(crate::server_laws::all_applied(s, server_events)) == all_sizes(
            new_client(),
            client_events,
        ),
{
    lemma_requests_reach_the_shell(client_events, s, server_events);
    lemma_sizes_are_sent(new_client(), client_events);
}

/// The shell's last words are heard: output and the news of the shell's end
/// that a client can still read from a server that has hung up are all shown,
/// and the client ends with the exit code.
pub proof fn lemma_last_words_are_heard(
    c: ClientState,
    closed: bool,
    outputs: Seq<ServerMessageView>,
    code: i32,
)
    requires
        c.phase is Polling,
        c.held == Seq::<u8>::empty(),
        forall|i: int| 0 <= i < outputs.len() ==> #[trigger] outputs[i] is Output,
        forall|i: int|
            0 <= i < outputs.len() ==> (#[trigger] crate::protocol::server_body(outputs[i])).len()
                <= u32::MAX,
    ensures
        ({
            let quiet = crate::poll::Readiness { readable: false, closed: false };
            let ends = Ends {
                stdin: quiet,
                socket: crate::poll::Readiness { readable: true, closed },
            };
            let bytes = crate::stream::encoded(
                crate::stream::server_encoder(),
                outputs.push(ServerMessageView::ShellExited { code }),
            );
            let (c1, a1) = crate::client::client_step(c, crate::client_laws::only(ends));
            let (c2, a2) = crate::client::client_step(c1, ClientEventView::Read(Some(bytes)));
            let (c3, a3) = crate::client::client_step(c2, ClientEventView::Shown(true));
            &&& a1 is ReadSocket
            &&& a2 matches ClientActionView::Show(shown)
            &&& shown.len() == outputs.len()
            &&& forall|i: int|
                0 <= i < outputs.len() ==> #[trigger] outputs[i] == ServerMessageView::Output(
                    shown[i],
                )
            &&& a3 == ClientActionView::Finish(ClientEnd::ShellExited { code })
        }),
{
    let msgs = outputs.push(ServerMessageView::ShellExited { code });
    let bytes = crate::stream::encoded(crate::stream::server_encoder(), msgs);
    assert forall|i: int| 0 <= i < msgs.len() implies (#[trigger] crate::protocol::server_body(
        msgs[i],
    )).len() <= u32::MAX by {
        if i < outputs.len() {
            assert(msgs[i] == outputs[i]);
            assert(crate::protocol::server_body(outputs[i]).len() <= u32::MAX);
        }
    }
    crate::stream::lemma_server_stream_read_back(msgs);
    assert(c.held + bytes =~= bytes);
    crate::client_laws::lemma_messages_up_to_the_end(outputs, code, Seq::empty());
    assert(msgs + Seq::<ServerMessageView>::empty() =~= msgs);
}

} // verus!
