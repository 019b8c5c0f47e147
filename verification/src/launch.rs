//! Getting a user into a session: the steps of `new` and `attach`.
//!
//! [`Launch`] decides and the program around it acts. `new` starts a server
//! where none answers and then gives it some time to come up; `attach` wants
//! one that is there.

use vstd::prelude::*;
use vstd::string::*;

verus! {

/// How often a new server is probed before the wait is given up.
pub const READY_PROBES: u32 = 100;

/// How long to sleep between two probes, in milliseconds.
pub const READY_INTERVAL_MS: u64 = 20;

/// What the launch waits for.
#[derive(Debug, Clone, Copy, PartialEq, Eq, Structural)]
pub enum LaunchPhase {
    /// Whether a server answers, before `new`.
    ProbingForNew,
    /// Whether a server answers, before `attach`.
    ProbingForAttach,
    /// The end of starting a server.
    Spawning,
    /// Whether the new server answers; `left` more probes may follow.
    ProbingNew { left: u32 },
    Sleeping { left: u32 },
    /// The end of reporting that the server did not come up in time.
    ReportingTimeout,
    /// The end of the session in this terminal.
    Attaching,
    /// The end of reporting what ended the launch.
    ReportingFailure,
    Finished,
}

/// Something to tell the user.
#[derive(Debug, Clone, Copy, PartialEq, Eq, Structural)]
pub enum Notice {
    /// The session is not running.
    NotRunning,
    /// The new server did not come up in time.
    TimedOut,
    /// The client could not attach; the system says why.
    AttachFailed,
}

/// What came of an action.
#[derive(Debug, Clone, Copy, PartialEq, Eq, Structural)]
pub enum LaunchEvent {
    /// Whether a server answers.
    Probed(bool),
    Spawned,
    Slept,
    Reported,
    /// Whether the client could attach.
    Attached(bool),
}

/// What to do next.
#[derive(Debug, Clone, Copy, PartialEq, Eq, Structural)]
pub enum LaunchAction {
    /// Try to connect to the session's socket.
    Probe,
    /// Start a server for the session in the background.
    SpawnServer,
    /// Sleep for this many milliseconds.
    Sleep { millis: u64 },
    Report(Notice),
    /// Attach to the session and stay until that ends.
    Attach,
    /// End the program with this exit status.
    Exit { status: i32 },
}

/// The next probe of a new server, or the end of the wait.
pub open spec fn await_server(left: u32) -> (LaunchPhase, LaunchAction) {
    if left > 0 {
        (LaunchPhase::ProbingNew { left: (left - 1) as u32 }, LaunchAction::Probe)
    } else {
        (LaunchPhase::ReportingTimeout, LaunchAction::Report(Notice::TimedOut))
    }
}

/// Whether `event` can come of what the launch asked for in `phase`.
pub open spec fn answers(phase: LaunchPhase, event: LaunchEvent) -> bool {
    match phase {
        LaunchPhase::ProbingForNew | LaunchPhase::ProbingForAttach => event is Probed,
        LaunchPhase::ProbingNew { .. } => event is Probed,
        LaunchPhase::Spawning => event is Spawned,
        LaunchPhase::Sleeping { .. } => event is Slept,
        LaunchPhase::ReportingTimeout | LaunchPhase::ReportingFailure => event is Reported,
        LaunchPhase::Attaching => event is Attached,
        LaunchPhase::Finished => false,
    }
}

/// The next phase and the next action. An event that does not answer the last
/// action ends the launch; [`Launch::step`] takes none.
pub open spec fn launch_step(phase: LaunchPhase, event: LaunchEvent) -> (
    LaunchPhase,
    LaunchAction,
) {
    match (phase, event) {
        (LaunchPhase::ProbingForNew, LaunchEvent::Probed(running)) => if running {
            (LaunchPhase::Attaching, LaunchAction::Attach)
        } else {
            (LaunchPhase::Spawning, LaunchAction::SpawnServer)
        },
        (LaunchPhase::ProbingForAttach, LaunchEvent::Probed(running)) => if running {
            (LaunchPhase::Attaching, LaunchAction::Attach)
        } else {
            (LaunchPhase::ReportingFailure, LaunchAction::Report(Notice::NotRunning))
        },
        (LaunchPhase::Spawning, LaunchEvent::Spawned) => await_server(READY_PROBES),
        (LaunchPhase::ProbingNew { left }, LaunchEvent::Probed(running)) => if running {
            (LaunchPhase::Attaching, LaunchAction::Attach)
        } else {
            (LaunchPhase::Sleeping { left }, LaunchAction::Sleep { millis: READY_INTERVAL_MS })
        },
        (LaunchPhase::Sleeping { left }, LaunchEvent::Slept) => await_server(left),
        // A server that is late may still be there in time for the client.
        (LaunchPhase::ReportingTimeout, LaunchEvent::Reported) => (
            LaunchPhase::Attaching,
            LaunchAction::Attach,
        ),
        (LaunchPhase::Attaching, LaunchEvent::Attached(ok)) => if ok {
            (LaunchPhase::Finished, LaunchAction::Exit { status: 0 })
        } else {
            (LaunchPhase::ReportingFailure, LaunchAction::Report(Notice::AttachFailed))
        },
        _ => (LaunchPhase::Finished, LaunchAction::Exit { status: 1 }),
    }
}

/// The way into a session.
pub struct Launch {
    phase: LaunchPhase,
}

impl View for Launch {
    type V = LaunchPhase;

    closed spec fn view(&self) -> LaunchPhase {
        self.phase
    }
}

impl Launch {
    /// The steps of `new`.
    pub fn start_new() -> (started: (Launch, LaunchAction))
        ensures
            started.0@ == LaunchPhase::ProbingForNew,
            started.1 == LaunchAction::Probe,
    {
        (Launch { phase: LaunchPhase::ProbingForNew }, LaunchAction::Probe)
    }

    /// The steps of `attach`.
    pub fn start_attach() -> (started: (Launch, LaunchAction))
        ensures
            started.0@ == LaunchPhase::ProbingForAttach,
            started.1 == LaunchAction::Probe,
    {
        (Launch { phase: LaunchPhase::ProbingForAttach }, LaunchAction::Probe)
    }

    /// Whether `event` can come of what the launch asked for last.
    pub fn expects(&self, event: &LaunchEvent) -> (yes: bool)
        ensures
            yes == answers(self@, *event),
    {
        match self.phase {
            LaunchPhase::ProbingForNew | LaunchPhase::ProbingForAttach => {
                matches!(event, LaunchEvent::Probed(_))
            },
            LaunchPhase::ProbingNew { .. } => matches!(event, LaunchEvent::Probed(_)),
            LaunchPhase::Spawning => matches!(event, LaunchEvent::Spawned),
            LaunchPhase::Sleeping { .. } => matches!(event, LaunchEvent::Slept),
            LaunchPhase::ReportingTimeout | LaunchPhase::ReportingFailure => {
                matches!(event, LaunchEvent::Reported)
            },
            LaunchPhase::Attaching => matches!(event, LaunchEvent::Attached(_)),
            LaunchPhase::Finished => false,
        }
    }

    /// Takes what came of the last action and names the next one.
    pub fn step(&mut self, event: LaunchEvent) -> (action: LaunchAction)
        requires
            answers(old(self)@, event),
        ensures
            (final(self)@, action) == launch_step(old(self)@, event),
    {
        match (self.phase, event) {
            (LaunchPhase::ProbingForNew, LaunchEvent::Probed(running)) => {
                if running {
                    self.go(LaunchPhase::Attaching, LaunchAction::Attach)
                } else {
                    self.go(LaunchPhase::Spawning, LaunchAction::SpawnServer)
                }
            },
            (LaunchPhase::ProbingForAttach, LaunchEvent::Probed(running)) => {
                if running {
                    self.go(LaunchPhase::Attaching, LaunchAction::Attach)
                } else {
                    self.go(LaunchPhase::ReportingFailure, LaunchAction::Report(Notice::NotRunning))
                }
            },
            (LaunchPhase::Spawning, LaunchEvent::Spawned) => self.await_server(READY_PROBES),
            (LaunchPhase::ProbingNew { left }, LaunchEvent::Probed(running)) => {
                if running {
                    self.go(LaunchPhase::Attaching, LaunchAction::Attach)
                } else {
                    self.go(
                        LaunchPhase::Sleeping { left },
                        LaunchAction::Sleep { millis: READY_INTERVAL_MS },
                    )
                }
            },
            (LaunchPhase::Sleeping { left }, LaunchEvent::Slept) => self.await_server(left),
            (LaunchPhase::ReportingTimeout, LaunchEvent::Reported) => self.go(
                LaunchPhase::Attaching,
                LaunchAction::Attach,
            ),
            (LaunchPhase::Attaching, LaunchEvent::Attached(ok)) => {
                if ok {
                    self.go(LaunchPhase::Finished, LaunchAction::Exit { status: 0 })
                } else {
                    self.go(
                        LaunchPhase::ReportingFailure,
                        LaunchAction::Report(Notice::AttachFailed),
                    )
                }
            },
            _ => self.go(LaunchPhase::Finished, LaunchAction::Exit { status: 1 }),
        }
    }

    fn go(&mut self, phase: LaunchPhase, action: LaunchAction) -> (same: LaunchAction)
        ensures
            final(self)@ == phase,
            same == action,
    {
        self.phase = phase;
        action
    }

    fn await_server(&mut self, left: u32) -> (action: LaunchAction)
        ensures
            (final(self)@, action) == await_server(left),
    {
        if left > 0 {
            self.go(LaunchPhase::ProbingNew { left: left - 1 }, LaunchAction::Probe)
        } else {
            self.go(LaunchPhase::ReportingTimeout, LaunchAction::Report(Notice::TimedOut))
        }
    }
}

/// What the user is told. Where the client could not attach, `error` says why.
pub open spec fn notice_of(notice: Notice, name: Seq<char>, error: Seq<char>) -> Seq<char> {
    match notice {
        Notice::NotRunning => "mini-tmux: セッション '"@ + name
            + "' は起動していません (`mini-tmux new -s "@ + name + "` で作成してください)"@,
        Notice::TimedOut => "mini-tmux: セッション '"@ + name
            + "' の起動待ちがタイムアウトしました"@,
        Notice::AttachFailed => "mini-tmux: "@ + error,
    }
}

/// What the user is told.
pub fn notice_text(notice: Notice, session_name: &str, error: &str) -> (text: String)
    ensures
        text@ == notice_of(notice, session_name@, error@),
{
    match notice {
        Notice::NotRunning => {
            let mut text = "mini-tmux: セッション '".to_owned();
            text.append(session_name);
            text.append("' は起動していません (`mini-tmux new -s ");
            text.append(session_name);
            text.append("` で作成してください)");
            text
        },
        Notice::TimedOut => {
            let mut text = "mini-tmux: セッション '".to_owned();
            text.append(session_name);
            text.append("' の起動待ちがタイムアウトしました");
            text
        },
        Notice::AttachFailed => crate::cli::error_text(error),
    }
}

// ---------------------------------------------------------------------------
// What holds of every launch
// ---------------------------------------------------------------------------

/// How many more actions can follow at most.
pub open spec fn steps_left(phase: LaunchPhase) -> nat {
    match phase {
        LaunchPhase::ProbingForNew => (2 * READY_PROBES + 6) as nat,
        LaunchPhase::Spawning => (2 * READY_PROBES + 5) as nat,
        LaunchPhase::ProbingNew { left } => (2 * left + 5) as nat,
        LaunchPhase::Sleeping { left } => (2 * left + 4) as nat,
        LaunchPhase::ReportingTimeout => 3,
        LaunchPhase::ProbingForAttach => 3,
        LaunchPhase::Attaching => 2,
        LaunchPhase::ReportingFailure => 1,
        LaunchPhase::Finished => 0,
    }
}

/// A launch comes to an end: every event brings it closer, and only a launch
/// that has ended takes no event.
pub proof fn lemma_launch_ends(phase: LaunchPhase, event: LaunchEvent)
    requires
        answers(phase, event),
    ensures
        steps_left(launch_step(phase, event).0) < steps_left(phase),
        steps_left(phase) > 0,
        launch_step(phase, event).0 is Finished <==> launch_step(phase, event).1 is Exit,
{
}

/// A server is started only by `new`, and only where none answered.
pub proof fn lemma_server_is_started_only_where_none_answers(
    phase: LaunchPhase,
    event: LaunchEvent,
)
    requires
        answers(phase, event),
    ensures
        launch_step(phase, event).1 is SpawnServer <==> phase is ProbingForNew && event
            == LaunchEvent::Probed(false),
        !(launch_step(phase, event).0 is ProbingForNew),
{
}

/// The phase of a launch whose new server has been probed `probes` times
/// without an answer, with a sleep after each.
pub open spec fn after_silence(probes: nat) -> (LaunchPhase, LaunchAction)
    decreases probes,
{
    if probes == 0 {
        launch_step(LaunchPhase::Spawning, LaunchEvent::Spawned)
    } else {
        let before = after_silence((probes - 1) as nat).0;
        let asleep = launch_step(before, LaunchEvent::Probed(false)).0;
        launch_step(asleep, LaunchEvent::Slept)
    }
}

/// A new server is probed as often as promised. Where it never answers the
/// user is told, and the client tries to attach all the same.
pub proof fn lemma_new_server_gets_its_time(probes: nat)
    requires
        probes <= READY_PROBES,
    ensures
        probes < READY_PROBES ==> after_silence(probes) == (
            LaunchPhase::ProbingNew { left: (READY_PROBES - probes - 1) as u32 },
            LaunchAction::Probe,
        ),
        probes == READY_PROBES ==> {
            &&& after_silence(probes) == (
                LaunchPhase::ReportingTimeout,
                LaunchAction::Report(Notice::TimedOut),
            )
            &&& launch_step(after_silence(probes).0, LaunchEvent::Reported).1
                == LaunchAction::Attach
        },
    decreases probes,
{
    if probes > 0 {
        lemma_new_server_gets_its_time((probes - 1) as nat);
    }
}

/// Whoever is not let into the session is told why and the program says so in
/// its exit status; whoever is, leaves with success.
pub proof fn lemma_exit_status_tells(phase: LaunchPhase, event: LaunchEvent)
    requires
        answers(phase, event),
    ensures
        launch_step(phase, event).1 == (LaunchAction::Exit { status: 0 }) <==> phase is Attaching
            && event == LaunchEvent::Attached(true),
        launch_step(phase, event).1 == (LaunchAction::Exit { status: 1 }) <==> phase
            is ReportingFailure,
        launch_step(phase, event).0 is ReportingFailure ==> launch_step(phase, event).1 is Report,
{
}

/// Whoever answers is attached to, at whatever probe.
pub proof fn lemma_an_answer_is_attached_to(phase: LaunchPhase)
    requires
        answers(phase, LaunchEvent::Probed(true)),
    ensures
        launch_step(phase, LaunchEvent::Probed(true)) == (
            LaunchPhase::Attaching,
            LaunchAction::Attach,
        ),
{
}

/// Where nobody answers, `new` starts a server and `attach` says that there is
/// none; a server that was just started is given 20 milliseconds more, and the
/// sleep costs it no probe.
pub proof fn lemma_silence_is_answered(left: u32)
    ensures
        launch_step(LaunchPhase::ProbingForNew, LaunchEvent::Probed(false)) == (
            LaunchPhase::Spawning,
            LaunchAction::SpawnServer,
        ),
        launch_step(LaunchPhase::ProbingForAttach, LaunchEvent::Probed(false)) == (
            LaunchPhase::ReportingFailure,
            LaunchAction::Report(Notice::NotRunning),
        ),
        launch_step(LaunchPhase::ProbingNew { left }, LaunchEvent::Probed(false)) == (
            LaunchPhase::Sleeping { left },
            LaunchAction::Sleep { millis: 20 },
        ),
        left > 0 ==> launch_step(LaunchPhase::Sleeping { left }, LaunchEvent::Slept) == (
            LaunchPhase::ProbingNew { left: (left - 1) as u32 },
            LaunchAction::Probe,
        ),
        launch_step(LaunchPhase::Sleeping { left: 0 }, LaunchEvent::Slept) == (
            LaunchPhase::ReportingTimeout,
            LaunchAction::Report(Notice::TimedOut),
        ),
        launch_step(LaunchPhase::Spawning, LaunchEvent::Spawned) == (
            LaunchPhase::ProbingNew { left: 99 },
            LaunchAction::Probe,
        ),
{
}

/// A client that could not attach is said to have failed, and then the program
/// ends with failure; one that could ends with success.
pub proof fn lemma_the_client_decides()
    ensures
        launch_step(LaunchPhase::ReportingTimeout, LaunchEvent::Reported) == (
            LaunchPhase::Attaching,
            LaunchAction::Attach,
        ),
        launch_step(LaunchPhase::Attaching, LaunchEvent::Attached(true)) == (
            LaunchPhase::Finished,
            LaunchAction::Exit { status: 0 },
        ),
        launch_step(LaunchPhase::Attaching, LaunchEvent::Attached(false)) == (
            LaunchPhase::ReportingFailure,
            LaunchAction::Report(Notice::AttachFailed),
        ),
        launch_step(LaunchPhase::ReportingFailure, LaunchEvent::Reported) == (
            LaunchPhase::Finished,
            LaunchAction::Exit { status: 1 },
        ),
{
}

/// Whatever comes of an action is expected, and nothing else is.
pub proof fn lemma_every_outcome_is_expected(phase: LaunchPhase, event: LaunchEvent)
    requires
        answers(phase, event),
    ensures
        ({
            let (next, action) = launch_step(phase, event);
            forall|e: LaunchEvent| #[trigger]
                answers(next, e) <==> match action {
                    LaunchAction::Probe => e is Probed,
                    LaunchAction::SpawnServer => e is Spawned,
                    LaunchAction::Sleep { .. } => e is Slept,
                    LaunchAction::Report(_) => e is Reported,
                    LaunchAction::Attach => e is Attached,
                    LaunchAction::Exit { .. } => false,
                }
        }),
        forall|e: LaunchEvent| #[trigger] answers(LaunchPhase::ProbingForNew, e) <==> e is Probed,
        forall|e: LaunchEvent| #[trigger]
            answers(LaunchPhase::ProbingForAttach, e) <==> e is Probed,
{
}

/// Every notice names the session or gives the error, unchanged.
pub proof fn lemma_notices(name: Seq<char>, error: Seq<char>)
    ensures
        notice_of(Notice::NotRunning, name, error) == "mini-tmux: セッション '"@ + name
            + "' は起動していません (`mini-tmux new -s "@ + name + "` で作成してください)"@,
        notice_of(Notice::TimedOut, name, error) == "mini-tmux: セッション '"@ + name
            + "' の起動待ちがタイムアウトしました"@,
        notice_of(Notice::AttachFailed, name, error) == "mini-tmux: "@ + error,
{
}

} // verus!
