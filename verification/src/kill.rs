//! Ending a session from outside: the steps of `kill-session`.
//!
//! [`Kill`] decides and the program around it acts. A session ends with its
//! server: when the server's process is gone, the shell's terminal hangs up,
//! and with it end the shell and whatever runs in it. So the attempt finds out
//! which process serves the session, and has it terminated.
//!
//! A server serves one client at a time, and a session that somebody else is
//! attached to is left as it is. To find out, the attempt connects and asks to
//! detach at once. A server that has nobody else to serve obeys and closes the
//! connection; one that is busy stays silent, and the request, when it is read
//! at last, does no harm.

use crate::client::take_output;
use crate::poll::ReadOutcome;
use crate::protocol::{encode_client_message, ClientMessage, ClientMessageView};
use vstd::prelude::*;
use vstd::string::*;

verus! {

/// How long the server may be silent, in milliseconds.
pub const KILL_PATIENCE_MS: u16 = 2000;

/// How often a terminated server is probed before the wait is given up.
pub const GONE_PROBES: u32 = 100;

/// How long to sleep between two probes, in milliseconds.
pub const GONE_INTERVAL_MS: u64 = 20;

/// How a wait for the server ended.
#[derive(Debug, Clone, Copy, PartialEq, Eq, Structural)]
pub enum KillPoll {
    Ready,
    /// A signal arrived before anything was ready.
    Interrupted,
    /// The server was silent for too long.
    TimedOut,
    Failed,
}

/// How an attempt to end a session ends.
#[derive(Debug, Clone, Copy, PartialEq, Eq, Structural)]
pub enum KillEnd {
    /// Nobody serves the session any more.
    Ended,
    /// The session is not running.
    NotRunning,
    /// Somebody else is attached to the session.
    Busy,
    /// The server could not be reached, found or terminated.
    StillRunning,
}

/// What the attempt waits for.
#[derive(Debug, Clone, Copy, PartialEq, Eq, Structural)]
pub enum KillPhase {
    Connecting,
    /// The process behind the connection.
    Identifying,
    /// The end of asking to detach.
    Asking { pid: i32 },
    /// The server's answer.
    Awaiting { pid: i32 },
    Reading { pid: i32 },
    /// The end of terminating the server.
    Terminating,
    /// Whether the server still answers; `left` more probes may follow.
    Probing { left: u32 },
    Sleeping { left: u32 },
    RemovingSocket,
    Finished,
}

/// What came of an action.
#[derive(Debug, PartialEq, Eq)]
pub enum KillEvent {
    /// Whether the server's socket could be connected to.
    Connected(bool),
    /// The process on the other side, where it could be found out.
    Identified(Option<i32>),
    /// Whether the frame was written.
    Sent(bool),
    Polled(KillPoll),
    Read(ReadOutcome),
    /// Whether a server answers.
    Probed(bool),
    /// The end of an action whose outcome does not matter.
    Done,
}

/// What to do next.
#[derive(Debug, PartialEq, Eq)]
pub enum KillAction {
    Connect,
    /// Find out which process is on the other side.
    Identify,
    /// Write this frame to the socket.
    Send(Vec<u8>),
    /// Wait for the server, but not for longer than this many milliseconds.
    Poll { millis: u16 },
    Read,
    /// Ask the system to terminate this process.
    Terminate { pid: i32 },
    /// Try to connect to the session's socket.
    Probe,
    /// Sleep for this many milliseconds.
    Sleep { millis: u64 },
    /// Remove the session's socket from the file system.
    RemoveSocket,
    Finish(KillEnd),
}

/// What a [`KillEvent`] says.
pub enum KillEventView {
    Connected(bool),
    Identified(Option<i32>),
    Sent(bool),
    Polled(KillPoll),
    /// The bytes that arrived, or `None` where the connection is closed.
    Read(Option<Seq<u8>>),
    Probed(bool),
    Done,
}

/// What a [`KillAction`] says.
#[verifier::ext_equal]
pub enum KillActionView {
    Connect,
    Identify,
    Send(Seq<u8>),
    Poll { millis: u16 },
    Read,
    Terminate { pid: i32 },
    Probe,
    Sleep { millis: u64 },
    RemoveSocket,
    Finish(KillEnd),
}

/// What the attempt remembers.
#[verifier::ext_equal]
pub struct KillState {
    pub phase: KillPhase,
    /// The bytes from the server that are not a whole message yet.
    pub held: Seq<u8>,
}

impl View for KillEvent {
    type V = KillEventView;

    open spec fn view(&self) -> KillEventView {
        match self {
            KillEvent::Connected(ok) => KillEventView::Connected(*ok),
            KillEvent::Identified(pid) => KillEventView::Identified(*pid),
            KillEvent::Sent(ok) => KillEventView::Sent(*ok),
            KillEvent::Polled(poll) => KillEventView::Polled(*poll),
            KillEvent::Read(read) => KillEventView::Read(read.arrived()),
            KillEvent::Probed(answered) => KillEventView::Probed(*answered),
            KillEvent::Done => KillEventView::Done,
        }
    }
}

impl View for KillAction {
    type V = KillActionView;

    open spec fn view(&self) -> KillActionView {
        match self {
            KillAction::Connect => KillActionView::Connect,
            KillAction::Identify => KillActionView::Identify,
            KillAction::Send(frame) => KillActionView::Send(frame@),
            KillAction::Poll { millis } => KillActionView::Poll { millis: *millis },
            KillAction::Read => KillActionView::Read,
            KillAction::Terminate { pid } => KillActionView::Terminate { pid: *pid },
            KillAction::Probe => KillActionView::Probe,
            KillAction::Sleep { millis } => KillActionView::Sleep { millis: *millis },
            KillAction::RemoveSocket => KillActionView::RemoveSocket,
            KillAction::Finish(end) => KillActionView::Finish(*end),
        }
    }
}

// ---------------------------------------------------------------------------
// The rules
// ---------------------------------------------------------------------------

/// The attempt in another phase.
pub open spec fn in_phase(s: KillState, phase: KillPhase) -> KillState {
    KillState { phase, ..s }
}

/// The attempt ends.
pub open spec fn finish(s: KillState, end: KillEnd) -> (KillState, KillActionView) {
    (in_phase(s, KillPhase::Finished), KillActionView::Finish(end))
}

/// The attempt waits for the server's answer.
pub open spec fn await_answer(s: KillState, pid: i32) -> (KillState, KillActionView) {
    (
        in_phase(s, KillPhase::Awaiting { pid }),
        KillActionView::Poll { millis: KILL_PATIENCE_MS },
    )
}

/// The next probe of a server that is to go, or the end of the wait.
pub open spec fn await_gone(s: KillState, left: u32) -> (KillState, KillActionView) {
    if left > 0 {
        (in_phase(s, KillPhase::Probing { left: (left - 1) as u32 }), KillActionView::Probe)
    } else {
        finish(s, KillEnd::StillRunning)
    }
}

/// Bytes have arrived from the server. They are output for a screen that
/// nobody looks at, or the news that the shell has ended by itself, and then
/// the server goes without being told.
pub open spec fn on_received(s: KillState, bytes: Seq<u8>, pid: i32) -> (
    KillState,
    KillActionView,
) {
    let buf = s.held + bytes;
    if crate::client::exit_in(crate::client::received(buf)) is Some {
        await_gone(KillState { held: Seq::empty(), ..s }, GONE_PROBES)
    } else {
        await_answer(KillState { held: crate::client::unused(buf), ..s }, pid)
    }
}

/// Whether `event` can come of what the attempt asked for in `phase`.
pub open spec fn answers(phase: KillPhase, event: KillEventView) -> bool {
    match phase {
        KillPhase::Connecting => event is Connected,
        KillPhase::Identifying => event is Identified,
        KillPhase::Asking { .. } => event is Sent,
        KillPhase::Awaiting { .. } => event is Polled,
        KillPhase::Reading { .. } => event is Read,
        KillPhase::Probing { .. } => event is Probed,
        KillPhase::Terminating | KillPhase::RemovingSocket => event is Done,
        KillPhase::Sleeping { .. } => event is Done,
        KillPhase::Finished => false,
    }
}

/// The next state and the next action. An event that does not answer the last
/// action ends the attempt; [`Kill::step`] takes none.
pub open spec fn kill_step(s: KillState, event: KillEventView) -> (KillState, KillActionView) {
    match (s.phase, event) {
        (KillPhase::Connecting, KillEventView::Connected(ok)) => if ok {
            (in_phase(s, KillPhase::Identifying), KillActionView::Identify)
        } else {
            finish(s, KillEnd::NotRunning)
        },
        // Zero and negative numbers stand for groups of processes.
        (KillPhase::Identifying, KillEventView::Identified(found)) => match found {
            Some(pid) => if pid > 0 {
                (
                    in_phase(s, KillPhase::Asking { pid }),
                    KillActionView::Send(
                        crate::protocol::client_frame(ClientMessageView::Detach),
                    ),
                )
            } else {
                finish(s, KillEnd::StillRunning)
            },
            None => finish(s, KillEnd::StillRunning),
        },
        // A server that takes no request may be on its way out.
        (KillPhase::Asking { pid }, KillEventView::Sent(ok)) => if ok {
            await_answer(s, pid)
        } else {
            await_gone(s, GONE_PROBES)
        },
        (KillPhase::Awaiting { pid }, KillEventView::Polled(poll)) => match poll {
            KillPoll::Ready => (in_phase(s, KillPhase::Reading { pid }), KillActionView::Read),
            KillPoll::Interrupted => await_answer(s, pid),
            KillPoll::TimedOut => finish(s, KillEnd::Busy),
            KillPoll::Failed => finish(s, KillEnd::StillRunning),
        },
        (KillPhase::Reading { pid }, KillEventView::Read(read)) => match read {
            Some(bytes) => on_received(s, bytes, pid),
            None => (in_phase(s, KillPhase::Terminating), KillActionView::Terminate { pid }),
        },
        (KillPhase::Terminating, KillEventView::Done) => await_gone(s, GONE_PROBES),
        (KillPhase::Probing { left }, KillEventView::Probed(answered)) => if answered {
            (
                in_phase(s, KillPhase::Sleeping { left }),
                KillActionView::Sleep { millis: GONE_INTERVAL_MS },
            )
        } else {
            (in_phase(s, KillPhase::RemovingSocket), KillActionView::RemoveSocket)
        },
        (KillPhase::Sleeping { left }, KillEventView::Done) => await_gone(s, left),
        (KillPhase::RemovingSocket, KillEventView::Done) => finish(s, KillEnd::Ended),
        _ => finish(s, KillEnd::StillRunning),
    }
}

// ---------------------------------------------------------------------------
// The attempt
// ---------------------------------------------------------------------------

/// An attempt to end a session.
pub struct Kill {
    phase: KillPhase,
    recv_buf: Vec<u8>,
}

impl View for Kill {
    type V = KillState;

    closed spec fn view(&self) -> KillState {
        KillState { phase: self.phase, held: self.recv_buf@ }
    }
}

impl Kill {
    /// The first step: to connect.
    pub fn start() -> (started: (Kill, KillAction))
        ensures
            started.0@ == (KillState { phase: KillPhase::Connecting, held: Seq::empty() }),
            started.1@ == KillActionView::Connect,
    {
        let kill = Kill { phase: KillPhase::Connecting, recv_buf: Vec::new() };
        assert(kill@.held =~= Seq::empty());
        (kill, KillAction::Connect)
    }

    /// Whether `event` can come of what the attempt asked for last.
    pub fn expects(&self, event: &KillEvent) -> (yes: bool)
        ensures
            yes == answers(self@.phase, event@),
    {
        match self.phase {
            KillPhase::Connecting => matches!(event, KillEvent::Connected(_)),
            KillPhase::Identifying => matches!(event, KillEvent::Identified(_)),
            KillPhase::Asking { .. } => matches!(event, KillEvent::Sent(_)),
            KillPhase::Awaiting { .. } => matches!(event, KillEvent::Polled(_)),
            KillPhase::Reading { .. } => matches!(event, KillEvent::Read(_)),
            KillPhase::Probing { .. } => matches!(event, KillEvent::Probed(_)),
            KillPhase::Terminating | KillPhase::RemovingSocket => {
                matches!(event, KillEvent::Done)
            },
            KillPhase::Sleeping { .. } => matches!(event, KillEvent::Done),
            KillPhase::Finished => false,
        }
    }

    /// Takes what came of the last action and names the next one.
    pub fn step(&mut self, event: KillEvent) -> (action: KillAction)
        requires
            answers(old(self)@.phase, event@),
        ensures
            (final(self)@, action@) == kill_step(old(self)@, event@),
    {
        match (self.phase, event) {
            (KillPhase::Connecting, KillEvent::Connected(ok)) => {
                if ok {
                    self.go(KillPhase::Identifying, KillAction::Identify)
                } else {
                    self.finish(KillEnd::NotRunning)
                }
            },
            (KillPhase::Identifying, KillEvent::Identified(found)) => match found {
                Some(pid) => {
                    if pid > 0 {
                        let frame = encode_client_message(&ClientMessage::Detach);
                        self.go(KillPhase::Asking { pid }, KillAction::Send(frame))
                    } else {
                        self.finish(KillEnd::StillRunning)
                    }
                },
                None => self.finish(KillEnd::StillRunning),
            },
            (KillPhase::Asking { pid }, KillEvent::Sent(ok)) => {
                if ok {
                    self.await_answer(pid)
                } else {
                    self.await_gone(GONE_PROBES)
                }
            },
            (KillPhase::Awaiting { pid }, KillEvent::Polled(poll)) => match poll {
                KillPoll::Ready => self.go(KillPhase::Reading { pid }, KillAction::Read),
                KillPoll::Interrupted => self.await_answer(pid),
                KillPoll::TimedOut => self.finish(KillEnd::Busy),
                KillPoll::Failed => self.finish(KillEnd::StillRunning),
            },
            (KillPhase::Reading { pid }, KillEvent::Read(read)) => match read.into_arrived() {
                Some(bytes) => self.on_received(bytes, pid),
                None => self.go(KillPhase::Terminating, KillAction::Terminate { pid }),
            },
            (KillPhase::Terminating, KillEvent::Done) => self.await_gone(GONE_PROBES),
            (KillPhase::Probing { left }, KillEvent::Probed(answered)) => {
                if answered {
                    self.go(
                        KillPhase::Sleeping { left },
                        KillAction::Sleep { millis: GONE_INTERVAL_MS },
                    )
                } else {
                    self.go(KillPhase::RemovingSocket, KillAction::RemoveSocket)
                }
            },
            (KillPhase::Sleeping { left }, KillEvent::Done) => self.await_gone(left),
            (KillPhase::RemovingSocket, KillEvent::Done) => self.finish(KillEnd::Ended),
            _ => self.finish(KillEnd::StillRunning),
        }
    }

    fn go(&mut self, phase: KillPhase, action: KillAction) -> (same: KillAction)
        ensures
            final(self)@ == in_phase(old(self)@, phase),
            same == action,
    {
        self.phase = phase;
        action
    }

    fn finish(&mut self, end: KillEnd) -> (action: KillAction)
        ensures
            (final(self)@, action@) == finish(old(self)@, end),
    {
        self.go(KillPhase::Finished, KillAction::Finish(end))
    }

    fn await_answer(&mut self, pid: i32) -> (action: KillAction)
        ensures
            (final(self)@, action@) == await_answer(old(self)@, pid),
    {
        self.go(KillPhase::Awaiting { pid }, KillAction::Poll { millis: KILL_PATIENCE_MS })
    }

    fn await_gone(&mut self, left: u32) -> (action: KillAction)
        ensures
            (final(self)@, action@) == await_gone(old(self)@, left),
    {
        if left > 0 {
            self.go(KillPhase::Probing { left: left - 1 }, KillAction::Probe)
        } else {
            self.finish(KillEnd::StillRunning)
        }
    }

    fn on_received(&mut self, bytes: Vec<u8>, pid: i32) -> (action: KillAction)
        ensures
            (final(self)@, action@) == on_received(old(self)@, bytes@, pid),
    {
        self.recv_buf.extend_from_slice(bytes.as_slice());
        assert(self.recv_buf@ =~= old(self)@.held + bytes@);
        let (_, exit) = take_output(&mut self.recv_buf);
        if exit.is_some() {
            self.recv_buf = Vec::new();
            assert(self.recv_buf@ =~= Seq::empty());
            self.await_gone(GONE_PROBES)
        } else {
            self.await_answer(pid)
        }
    }
}

/// The exit status of the program: success where the session was ended.
pub fn kill_status(end: KillEnd) -> (status: i32)
    ensures
        status == (if end == KillEnd::Ended {
            0i32
        } else {
            1i32
        }),
{
    match end {
        KillEnd::Ended => 0,
        _ => 1,
    }
}

/// What the user is told, if anything.
pub open spec fn kill_notice_of(end: KillEnd, name: Seq<char>) -> Option<Seq<char>> {
    match end {
        KillEnd::Ended => None,
        KillEnd::NotRunning => Some(
            crate::launch::notice_of(crate::launch::Notice::NotRunning, name, Seq::empty()),
        ),
        KillEnd::Busy => Some(
            "mini-tmux: セッション '"@ + name
                + "' は応答しません (別のターミナルがアタッチ中なら、そちらで exit するか、デタッチしてから実行してください)"@,
        ),
        KillEnd::StillRunning => Some(
            "mini-tmux: セッション '"@ + name + "' を終了できませんでした"@,
        ),
    }
}

/// What the user is told, if anything.
pub fn kill_notice_text(end: KillEnd, session_name: &str) -> (text: Option<String>)
    ensures
        text is Some <==> kill_notice_of(end, session_name@) is Some,
        text matches Some(t) ==> kill_notice_of(end, session_name@) == Some(t@),
{
    match end {
        KillEnd::Ended => None,
        KillEnd::NotRunning => {
            let nothing = String::new();
            assert(nothing@ =~= Seq::empty());
            Some(
                crate::launch::notice_text(
                    crate::launch::Notice::NotRunning,
                    session_name,
                    nothing.as_str(),
                ),
            )
        },
        KillEnd::Busy => {
            let mut text = "mini-tmux: セッション '".to_owned();
            text.append(session_name);
            text.append(
                "' は応答しません (別のターミナルがアタッチ中なら、そちらで exit するか、デタッチしてから実行してください)",
            );
            Some(text)
        },
        KillEnd::StillRunning => {
            let mut text = "mini-tmux: セッション '".to_owned();
            text.append(session_name);
            text.append("' を終了できませんでした");
            Some(text)
        },
    }
}

// ---------------------------------------------------------------------------
// What holds of every attempt
// ---------------------------------------------------------------------------

/// The process that the attempt has found behind its connection.
pub open spec fn target(phase: KillPhase) -> Option<i32> {
    match phase {
        KillPhase::Asking { pid } => Some(pid),
        KillPhase::Awaiting { pid } => Some(pid),
        KillPhase::Reading { pid } => Some(pid),
        _ => None,
    }
}

/// A session that somebody else is attached to is left as it is: a process is
/// terminated exactly where the server has closed the connection, and a server
/// that stays silent is taken for busy.
pub proof fn lemma_busy_session_is_left_alone(s: KillState, event: KillEventView)
    requires
        answers(s.phase, event),
    ensures
        kill_step(s, event).1 is Terminate <==> s.phase is Reading && event
            == KillEventView::Read(None),
        kill_step(s, event).1 == KillActionView::Finish(KillEnd::Busy) <==> s.phase is Awaiting
            && event == KillEventView::Polled(KillPoll::TimedOut),
{
}

/// The process that is terminated is the one that was found behind the
/// connection, and a single one, no group.
pub proof fn lemma_the_server_is_terminated(s: KillState, event: KillEventView)
    requires
        answers(s.phase, event),
        target(s.phase) matches Some(pid) ==> pid > 0,
    ensures
        target(kill_step(s, event).0.phase) matches Some(pid) ==> {
            &&& pid > 0
            &&& target(s.phase) == Some(pid) || event == KillEventView::Identified(Some(pid))
        },
        kill_step(s, event).1 matches KillActionView::Terminate { pid } ==> {
            &&& pid > 0
            &&& target(s.phase) == Some(pid)
        },
{
}

/// Nothing is ever sent but the request to detach.
pub proof fn lemma_only_detach_is_sent(s: KillState, event: KillEventView)
    requires
        answers(s.phase, event),
        kill_step(s, event).1 is Send,
    ensures
        kill_step(s, event).1 == KillActionView::Send(
            crate::protocol::client_frame(ClientMessageView::Detach),
        ),
{
}

/// A server that reads that request, when it has read nothing else from this
/// client, does nothing to the shell, closes the connection and waits for the
/// next client. So a session that nobody is attached to gives the answer that
/// the attempt waits for, whatever its shell has written or not written, and a
/// session that is busy comes to no harm by it later.
pub proof fn lemma_asking_is_answered_and_harmless(
    s: crate::server::ServerState,
    closed: bool,
)
    requires
        s.phase == (crate::server::ServerPhase::ReadingClient { closed }),
        s.held == Seq::<u8>::empty(),
    ensures
        ({
            let frame = crate::protocol::client_frame(ClientMessageView::Detach);
            let (s1, a1) = crate::server::server_step(
                s,
                crate::server::ServerEventView::Read(Some(frame)),
            );
            let (s2, a2) = crate::server::server_step(s1, crate::server::ServerEventView::Done);
            let (s3, a3) = crate::server::server_step(s2, crate::server::ServerEventView::Done);
            &&& a1 == crate::server::ServerActionView::Apply(Seq::empty())
            &&& a2 == crate::server::ServerActionView::CloseClient
            &&& a3 == crate::server::ServerActionView::PollListener
            &&& s3.phase is Waiting
            &&& s3.recent == s.recent
        }),
{
    let frame = crate::protocol::client_frame(ClientMessageView::Detach);
    let msgs = seq![ClientMessageView::Detach];
    let enc = crate::stream::client_encoder();
    assert(msgs.drop_first() =~= Seq::empty());
    assert(crate::stream::encoded(enc, msgs.drop_first()) =~= Seq::empty());
    assert(crate::stream::encoded(enc, msgs) =~= frame);
    crate::stream::lemma_client_stream_read_back(msgs);
    assert(s.held + frame =~= frame);
    assert(crate::server::received(frame) == msgs);
    assert(msgs[0] == ClientMessageView::Detach);
    assert(crate::server::detach_in(msgs));
}

/// A session that nobody is attached to is ended, whatever runs in it: once the
/// server has closed the connection its process is terminated, and when nobody
/// answers any more the socket is removed and the attempt succeeds.
pub proof fn lemma_idle_session_is_ended(s: KillState, pid: i32)
    requires
        s.phase == (KillPhase::Reading { pid }),
    ensures
        ({
            let (s1, a1) = kill_step(s, KillEventView::Read(None));
            let (s2, a2) = kill_step(s1, KillEventView::Done);
            let (s3, a3) = kill_step(s2, KillEventView::Probed(false));
            let (s4, a4) = kill_step(s3, KillEventView::Done);
            &&& a1 == KillActionView::Terminate { pid }
            &&& a2 == KillActionView::Probe
            &&& a3 == KillActionView::RemoveSocket
            &&& a4 == KillActionView::Finish(KillEnd::Ended)
        }),
{
}

/// Success is claimed, and the socket removed, exactly where nobody answers on
/// it any more.
pub proof fn lemma_success_is_silence(s: KillState, event: KillEventView)
    requires
        answers(s.phase, event),
    ensures
        kill_step(s, event).1 is RemoveSocket <==> s.phase is Probing && event
            == KillEventView::Probed(false),
        kill_step(s, event).0.phase is RemovingSocket <==> kill_step(s, event).1 is RemoveSocket,
        kill_step(s, event).1 == KillActionView::Finish(KillEnd::Ended) <==> s.phase
            is RemovingSocket,
{
}

/// How many more actions can follow at most once the server is to go.
pub open spec fn steps_left(phase: KillPhase) -> nat {
    match phase {
        KillPhase::Terminating => (2 * GONE_PROBES + 3) as nat,
        KillPhase::Probing { left } => (2 * left + 3) as nat,
        KillPhase::Sleeping { left } => (2 * left + 2) as nat,
        KillPhase::RemovingSocket => 1,
        _ => 0,
    }
}

/// The wait for a server that is to go comes to an end.
pub proof fn lemma_wait_for_the_end_ends(s: KillState, event: KillEventView)
    requires
        answers(s.phase, event),
        steps_left(s.phase) > 0,
    ensures
        steps_left(kill_step(s, event).0.phase) < steps_left(s.phase),
        steps_left(kill_step(s, event).0.phase) == 0 <==> kill_step(s, event).1 is Finish,
{
}

/// What the server sends while the attempt waits is passed over: it asks for
/// more of the answer, up to its end, and half a message is kept for the rest.
pub proof fn lemma_output_is_passed_over(s: KillState, pid: i32, bytes: Seq<u8>)
    requires
        s.phase == (KillPhase::Reading { pid }),
    ensures
        ({
            let (next, action) = kill_step(s, KillEventView::Read(Some(bytes)));
            let msgs = crate::client::received(s.held + bytes);
            let exited = exists|i: int| 0 <= i < msgs.len() && #[trigger] msgs[i] is ShellExited;
            &&& !exited ==> {
                &&& next.phase == KillPhase::Awaiting { pid }
                &&& next.held == crate::client::unused(s.held + bytes)
                &&& action == KillActionView::Poll { millis: 2000 }
            }
            &&& exited ==> {
                &&& next.phase == KillPhase::Probing { left: 99 }
                &&& action == KillActionView::Probe
            }
        }),
{
    crate::client_laws::lemma_exit_is_found(crate::client::received(s.held + bytes));
}

/// The way to the answer: who is found behind the connection is asked to let go
/// and waited for, and a signal in between changes nothing.
pub proof fn lemma_the_server_is_asked(s: KillState, pid: i32)
    ensures
        s.phase is Connecting ==> {
            &&& kill_step(s, KillEventView::Connected(true)) == (
                KillState { phase: KillPhase::Identifying, ..s },
                KillActionView::Identify,
            )
            &&& kill_step(s, KillEventView::Connected(false)).1 == KillActionView::Finish(
                KillEnd::NotRunning,
            )
        },
        s.phase is Identifying ==> {
            &&& pid > 0 ==> kill_step(s, KillEventView::Identified(Some(pid))) == (
                KillState { phase: KillPhase::Asking { pid }, ..s },
                KillActionView::Send(
                    crate::protocol::client_frame(ClientMessageView::Detach),
                ),
            )
            &&& pid <= 0 ==> kill_step(s, KillEventView::Identified(Some(pid))).1
                == KillActionView::Finish(KillEnd::StillRunning)
            &&& kill_step(s, KillEventView::Identified(None)).1 == KillActionView::Finish(
                KillEnd::StillRunning,
            )
        },
        s.phase == (KillPhase::Asking { pid }) ==> {
            &&& kill_step(s, KillEventView::Sent(true)) == (
                KillState { phase: KillPhase::Awaiting { pid }, ..s },
                KillActionView::Poll { millis: 2000 },
            )
            &&& kill_step(s, KillEventView::Sent(false)) == (
                KillState { phase: KillPhase::Probing { left: 99 }, ..s },
                KillActionView::Probe,
            )
        },
        s.phase == (KillPhase::Awaiting { pid }) ==> {
            &&& kill_step(s, KillEventView::Polled(KillPoll::Ready)) == (
                KillState { phase: KillPhase::Reading { pid }, ..s },
                KillActionView::Read,
            )
            &&& kill_step(s, KillEventView::Polled(KillPoll::Interrupted)) == (
                s,
                KillActionView::Poll { millis: 2000 },
            )
            &&& kill_step(s, KillEventView::Polled(KillPoll::Failed)).1 == KillActionView::Finish(
                KillEnd::StillRunning,
            )
        },
{
}

/// A server that is to go is probed again and again, 20 milliseconds apart, up
/// to the last probe.
pub proof fn lemma_the_server_is_waited_for(s: KillState, left: u32)
    ensures
        s.phase is Terminating ==> kill_step(s, KillEventView::Done) == (
            KillState { phase: KillPhase::Probing { left: 99 }, ..s },
            KillActionView::Probe,
        ),
        s.phase == (KillPhase::Probing { left }) ==> kill_step(s, KillEventView::Probed(true)) == (
            KillState { phase: KillPhase::Sleeping { left }, ..s },
            KillActionView::Sleep { millis: 20 },
        ),
        s.phase == (KillPhase::Sleeping { left }) && left > 0 ==> kill_step(
            s,
            KillEventView::Done,
        ) == (
            KillState { phase: KillPhase::Probing { left: (left - 1) as u32 }, ..s },
            KillActionView::Probe,
        ),
        s.phase == (KillPhase::Sleeping { left: 0 }) ==> kill_step(s, KillEventView::Done).1
            == KillActionView::Finish(KillEnd::StillRunning),
{
}

/// Whatever comes of an action is expected, and nothing else is.
pub proof fn lemma_every_outcome_is_expected(s: KillState, event: KillEventView)
    requires
        answers(s.phase, event),
    ensures
        ({
            let (next, action) = kill_step(s, event);
            forall|e: KillEventView| #[trigger]
                answers(next.phase, e) <==> match action {
                    KillActionView::Connect => e is Connected,
                    KillActionView::Identify => e is Identified,
                    KillActionView::Send(_) => e is Sent,
                    KillActionView::Poll { .. } => e is Polled,
                    KillActionView::Read => e is Read,
                    KillActionView::Probe => e is Probed,
                    KillActionView::Finish(_) => false,
                    _ => e is Done,
                }
        }),
        forall|e: KillEventView| #[trigger] answers(KillPhase::Connecting, e) <==> e is Connected,
{
}

/// An ended session needs no words; every other outcome is told with the name
/// of the session, and only the first is a success.
pub proof fn lemma_kill_notices(name: Seq<char>, end: KillEnd, status: i32)
    requires
        call_ensures(kill_status, (end,), status),
    ensures
        kill_notice_of(end, name) is None <==> end is Ended,
        status == 0 || status == 1,
        status == 0 <==> end is Ended,
        kill_notice_of(KillEnd::NotRunning, name) == Some(
            "mini-tmux: セッション '"@ + name + "' は起動していません (`mini-tmux new -s "@ + name
                + "` で作成してください)"@,
        ),
        kill_notice_of(KillEnd::Busy, name) == Some(
            "mini-tmux: セッション '"@ + name
                + "' は応答しません (別のターミナルがアタッチ中なら、そちらで exit するか、デタッチしてから実行してください)"@,
        ),
        kill_notice_of(KillEnd::StillRunning, name) == Some(
            "mini-tmux: セッション '"@ + name + "' を終了できませんでした"@,
        ),
{
}

/// Events and actions say what they hold.
pub proof fn lemma_events_and_actions_say_what_they_hold(
    ok: bool,
    found: Option<i32>,
    poll: KillPoll,
    read: ReadOutcome,
    frame: Vec<u8>,
    wait: u16,
    sleep: u64,
    pid: i32,
    end: KillEnd,
)
    ensures
        KillEvent::Connected(ok)@ == KillEventView::Connected(ok),
        KillEvent::Identified(found)@ == KillEventView::Identified(found),
        KillEvent::Sent(ok)@ == KillEventView::Sent(ok),
        KillEvent::Polled(poll)@ == KillEventView::Polled(poll),
        KillEvent::Read(read)@ == KillEventView::Read(read.arrived()),
        KillEvent::Probed(ok)@ == KillEventView::Probed(ok),
        KillEvent::Done@ == KillEventView::Done,
        KillAction::Connect@ == KillActionView::Connect,
        KillAction::Identify@ == KillActionView::Identify,
        KillAction::Send(frame)@ == KillActionView::Send(frame@),
        (KillAction::Poll { millis: wait })@ == (KillActionView::Poll { millis: wait }),
        KillAction::Read@ == KillActionView::Read,
        (KillAction::Terminate { pid })@ == (KillActionView::Terminate { pid }),
        KillAction::Probe@ == KillActionView::Probe,
        (KillAction::Sleep { millis: sleep })@ == (KillActionView::Sleep { millis: sleep }),
        KillAction::RemoveSocket@ == KillActionView::RemoveSocket,
        KillAction::Finish(end)@ == KillActionView::Finish(end),
{
}

} // verus!
