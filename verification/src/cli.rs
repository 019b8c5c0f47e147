//! The command line and what the program says to its user.

use crate::client::ClientEnd;
use crate::text::{decimal_text, same_text};
use vstd::prelude::*;
use vstd::string::*;

verus! {

/// What the user asks for.
#[derive(Debug, PartialEq, Eq)]
pub enum Command {
    /// Attach to a session, which is made first where there is none.
    New { name: String },
    /// Attach to a session that is there.
    Attach { name: String },
    /// List the running sessions.
    Ls,
    /// End a session.
    KillSession { name: String },
    /// Anything else: show how the program is used.
    Usage,
}

/// What a [`Command`] says.
pub enum CommandView {
    New { name: Seq<char> },
    Attach { name: Seq<char> },
    Ls,
    KillSession { name: Seq<char> },
    Usage,
}

impl View for Command {
    type V = CommandView;

    open spec fn view(&self) -> CommandView {
        match self {
            Command::New { name } => CommandView::New { name: name@ },
            Command::Attach { name } => CommandView::Attach { name: name@ },
            Command::Ls => CommandView::Ls,
            Command::KillSession { name } => CommandView::KillSession { name: name@ },
            Command::Usage => CommandView::Usage,
        }
    }
}

/// The argument after the first `-s`, if both are there.
pub open spec fn name_in(args: Seq<Seq<char>>) -> Option<Seq<char>>
    decreases args.len(),
{
    if args.len() == 0 {
        None
    } else if args[0] != "-s"@ {
        name_in(args.drop_first())
    } else if args.len() > 1 {
        Some(args[1])
    } else {
        None
    }
}

/// The session that the arguments name, or the default one.
pub open spec fn named_session(args: Seq<Seq<char>>) -> Seq<char> {
    match name_in(args) {
        Some(name) => name,
        None => "default"@,
    }
}

/// The command in the arguments. The first argument is the name of the program
/// and the second picks the command.
pub open spec fn command_in(args: Seq<Seq<char>>) -> CommandView {
    if args.len() < 2 {
        CommandView::Usage
    } else if args[1] == "new"@ {
        CommandView::New { name: named_session(args) }
    } else if args[1] == "attach"@ {
        CommandView::Attach { name: named_session(args) }
    } else if args[1] == "ls"@ {
        CommandView::Ls
    } else if args[1] == "kill-session"@ {
        CommandView::KillSession { name: named_session(args) }
    } else {
        CommandView::Usage
    }
}

/// The argument after the first `-s`.
pub fn parse_session_name(args: &[String]) -> (name: Option<String>)
    ensures
        name is Some <==> name_in(crate::text::texts(args@)) is Some,
        name matches Some(n) ==> name_in(crate::text::texts(args@)) == Some(n@),
{
    let ghost all = crate::text::texts(args@);
    let mut i: usize = 0;
    assert(all.skip(0) =~= all);
    while i < args.len()
        invariant
            i <= args@.len(),
            all == crate::text::texts(args@),
            name_in(all) == name_in(all.skip(i as int)),
        decreases args@.len() - i,
    {
        if same_text(args[i].as_str(), "-s") {
            return if i + 1 < args.len() {
                Some(args[i + 1].clone())
            } else {
                None
            };
        }
        assert(all.skip(i as int).drop_first() =~= all.skip(i + 1));
        i = i + 1;
    }
    None
}

/// The session that the arguments name, or the default one.
fn session_name_or_default(args: &[String]) -> (name: String)
    ensures
        name@ == named_session(crate::text::texts(args@)),
{
    match parse_session_name(args) {
        Some(name) => name,
        None => "default".to_owned(),
    }
}

/// The command in the arguments.
pub fn parse_command(args: &[String]) -> (command: Command)
    ensures
        command@ == command_in(crate::text::texts(args@)),
{
    if args.len() < 2 {
        return Command::Usage;
    }
    let verb = args[1].as_str();
    if same_text(verb, "new") {
        Command::New { name: session_name_or_default(args) }
    } else if same_text(verb, "attach") {
        Command::Attach { name: session_name_or_default(args) }
    } else if same_text(verb, "ls") {
        Command::Ls
    } else if same_text(verb, "kill-session") {
        Command::KillSession { name: session_name_or_default(args) }
    } else {
        Command::Usage
    }
}

/// A name that stands behind `-s` before any other `-s` is the one that counts,
/// whatever follows it.
pub proof fn lemma_first_name_counts(
    before: Seq<Seq<char>>,
    name: Seq<char>,
    after: Seq<Seq<char>>,
)
    requires
        !before.contains("-s"@),
    ensures
        name_in(before + seq!["-s"@, name] + after) == Some(name),
        name_in(before) is None,
    decreases before.len(),
{
    let args = before + seq!["-s"@, name] + after;
    if before.len() > 0 {
        let rest = before.drop_first();
        assert(args.drop_first() =~= rest + seq!["-s"@, name] + after);
        assert(before.contains(before[0]));
        assert forall|i: int| 0 <= i < rest.len() implies rest[i] != "-s"@ by {
            assert(before.contains(before[i + 1]));
        }
        lemma_first_name_counts(rest, name, after);
    }
}

/// How the program is used.
pub fn usage_text() -> (text: String)
    ensures
        text@ == "usage: mini-tmux <new|attach|ls|kill-session> [-s <session-name>]"@,
{
    "usage: mini-tmux <new|attach|ls|kill-session> [-s <session-name>]".to_owned()
}

/// The shell to start: the one that the user has chosen, or the one that is
/// always there.
pub fn shell_or_default(chosen: Option<String>) -> (shell: String)
    ensures
        shell@ == (match chosen {
            Some(shell) => shell@,
            None => "/bin/sh"@,
        }),
{
    match chosen {
        Some(shell) => shell,
        None => "/bin/sh".to_owned(),
    }
}

/// A report of something that went wrong.
pub fn error_text(error: &str) -> (text: String)
    ensures
        text@ == "mini-tmux: "@ + error@,
{
    let mut text = "mini-tmux: ".to_owned();
    text.append(error);
    text
}

/// Why a client could not connect to the session.
pub fn connect_error_text(session_name: &str, error: &str) -> (text: String)
    ensures
        text@ == "セッション '"@ + session_name@ + "' に接続できませんでした("@ + error@
            + ")。`mini-tmux new -s "@ + session_name@ + "` で先に作成してください"@,
{
    let mut text = "セッション '".to_owned();
    text.append(session_name);
    text.append("' に接続できませんでした(");
    text.append(error);
    text.append(")。`mini-tmux new -s ");
    text.append(session_name);
    text.append("` で先に作成してください");
    text
}

/// That the server could not use the connection of a client.
pub fn client_error_text(error: &str) -> (text: String)
    ensures
        text@ == "mini-tmux: クライアントとの通信でエラー: "@ + error@,
{
    let mut text = "mini-tmux: クライアントとの通信でエラー: ".to_owned();
    text.append(error);
    text
}

/// The lines that list these sessions.
pub open spec fn listing(sessions: Seq<Seq<char>>) -> Seq<Seq<char>> {
    if sessions.len() == 0 {
        seq!["起動中のセッションはありません"@]
    } else {
        sessions
    }
}

/// The lines that list these sessions: one for each, or one that says that
/// there is none.
pub fn ls_lines(sessions: Vec<String>) -> (lines: Vec<String>)
    ensures
        crate::text::texts(lines@) == listing(crate::text::texts(sessions@)),
{
    if sessions.len() == 0 {
        let mut lines: Vec<String> = Vec::new();
        lines.push("起動中のセッションはありません".to_owned());
        assert(crate::text::texts(lines@) =~= seq!["起動中のセッションはありません"@]);
        lines
    } else {
        sessions
    }
}

/// What a client says when it ends. The terminal is in raw mode then, so the
/// message brings its own carriage returns. A client whose terminal or server
/// is gone says nothing.
pub open spec fn farewell_of(end: ClientEnd) -> Option<Seq<char>> {
    match end {
        ClientEnd::Detached => Some("\r\n[mini-tmux] デタッチしました\r\n"@),
        ClientEnd::ShellExited { code } => Some(
            "\r\n[mini-tmux] シェルが終了しました (code="@ + crate::text::signed_decimal(
                code as int,
            ) + ")\n"@,
        ),
        ClientEnd::Closed => None,
    }
}

/// What a client says when it ends.
pub fn farewell(end: ClientEnd) -> (text: Option<String>)
    ensures
        text is Some <==> farewell_of(end) is Some,
        text matches Some(t) ==> farewell_of(end) == Some(t@),
{
    match end {
        ClientEnd::Detached => Some("\r\n[mini-tmux] デタッチしました\r\n".to_owned()),
        ClientEnd::ShellExited { code } => {
            let mut text = "\r\n[mini-tmux] シェルが終了しました (code=".to_owned();
            let digits = decimal_text(code);
            text.append(digits.as_str());
            text.append(")\n");
            Some(text)
        },
        ClientEnd::Closed => None,
    }
}

/// A `-s` with nothing behind it names no session.
pub proof fn lemma_flag_alone_names_nothing(before: Seq<Seq<char>>)
    requires
        !before.contains("-s"@),
    ensures
        name_in(before.push("-s"@)) is None,
    decreases before.len(),
{
    let args = before.push("-s"@);
    if before.len() > 0 {
        let rest = before.drop_first();
        assert(args.drop_first() =~= rest.push("-s"@));
        assert(before.contains(before[0]));
        assert forall|i: int| 0 <= i < rest.len() implies rest[i] != "-s"@ by {
            assert(before.contains(before[i + 1]));
        }
        lemma_flag_alone_names_nothing(rest);
    }
}

/// The word after the program's name picks the command, and nothing else does.
/// The three commands that want a session take the one that is named, or the
/// one called `default`.
pub proof fn lemma_the_verb_picks_the_command(args: Seq<Seq<char>>)
    ensures
        args.len() >= 2 && args[1] == "new"@ ==> (command_in(args) matches CommandView::New { name }
            && name == name_in(args).unwrap_or("default"@)),
        args.len() >= 2 && args[1] == "attach"@ ==> (command_in(
            args,
        ) matches CommandView::Attach { name } && name == name_in(args).unwrap_or("default"@)),
        args.len() >= 2 && args[1] == "kill-session"@ ==> (command_in(
            args,
        ) matches CommandView::KillSession { name } && name == name_in(args).unwrap_or(
            "default"@,
        )),
        command_in(args) is Ls <==> args.len() >= 2 && args[1] == "ls"@,
        command_in(args) is Usage <==> args.len() < 2 || (args[1] != "new"@ && args[1] != "attach"@
            && args[1] != "ls"@ && args[1] != "kill-session"@),
{
    reveal_strlit("new");
    reveal_strlit("attach");
    reveal_strlit("ls");
    reveal_strlit("kill-session");
    assert("new"@.len() == 3 && "attach"@.len() == 6 && "ls"@.len() == 2 && "kill-session"@.len()
        == 12);
}

/// Sessions are listed by their names, one line for each in order, and the
/// notice that there is none stands exactly where there is none.
pub proof fn lemma_listing_is_the_names(sessions: Seq<Seq<char>>)
    ensures
        sessions.len() > 0 ==> listing(sessions) == sessions,
        sessions.len() == 0 ==> listing(sessions) == seq!["起動中のセッションはありません"@],
{
}

/// One more session is one more line, and changes no other.
pub proof fn lemma_one_more_session_is_one_more_line(sessions: Seq<Seq<char>>, name: Seq<char>)
    ensures
        listing(sessions.push(name)).len() == sessions.len() + 1,
        listing(sessions.push(name)).last() == name,
        sessions.len() > 0 ==> listing(sessions.push(name)) == listing(sessions).push(name),
{
}

/// A client that detaches says so, one whose shell has ended gives the code in
/// decimal, and one that was cut off says nothing.
pub proof fn lemma_farewells(code: i32)
    ensures
        farewell_of(ClientEnd::Detached) == Some("\r\n[mini-tmux] デタッチしました\r\n"@),
        farewell_of(ClientEnd::Closed) is None,
        code >= 0 ==> farewell_of(ClientEnd::ShellExited { code }) == Some(
            "\r\n[mini-tmux] シェルが終了しました (code="@ + crate::text::decimal(code as nat)
                + ")\n"@,
        ),
        code < 0 ==> farewell_of(ClientEnd::ShellExited { code }) == Some(
            "\r\n[mini-tmux] シェルが終了しました (code="@ + (seq!['-'] + crate::text::decimal(
                (-code) as nat,
            )) + ")\n"@,
        ),
{
    if code < 0 {
        crate::text::lemma_minus_sign((-code) as nat);
    }
}

/// A shell that the user has chosen is the one that is started.
pub proof fn lemma_the_chosen_shell_is_started(chosen: String, a: String, b: String)
    requires
        call_ensures(shell_or_default, (Some(chosen),), a),
        call_ensures(shell_or_default, (None,), b),
    ensures
        a@ == chosen@,
        b@ == "/bin/sh"@,
{
}

/// What the system says stands unchanged in the report of it.
pub proof fn lemma_reports_hold_the_error(name: &str, error: &str, a: String, b: String, c: String)
    requires
        call_ensures(error_text, (error,), a),
        call_ensures(client_error_text, (error,), b),
        call_ensures(connect_error_text, (name, error), c),
    ensures
        a@ == "mini-tmux: "@ + error@,
        b@ == "mini-tmux: クライアントとの通信でエラー: "@ + error@,
        c@ == "セッション '"@ + name@ + "' に接続できませんでした("@ + error@
            + ")。`mini-tmux new -s "@ + name@ + "` で先に作成してください"@,
{
}

/// Whoever asks for the list of some sessions is told their names.
pub proof fn lemma_ls_tells_the_names(sessions: Vec<String>, lines: Vec<String>)
    requires
        call_ensures(ls_lines, (sessions,), lines),
    ensures
        sessions@.len() > 0 ==> lines@.len() == sessions@.len() && forall|i: int|
            0 <= i < sessions@.len() ==> (#[trigger] lines@[i])@ == sessions@[i]@,
        sessions@.len() == 0 ==> lines@.len() == 1 && lines@[0]@
            == "起動中のセッションはありません"@,
{
    let told = crate::text::texts(lines@);
    let names = crate::text::texts(sessions@);
    assert(told.len() == lines@.len() && names.len() == sessions@.len());
    assert forall|i: int| 0 <= i < lines@.len() implies (#[trigger] lines@[i])@ == told[i] by {}
    assert forall|i: int| 0 <= i < sessions@.len() implies (#[trigger] sessions@[i])@
        == names[i] by {}
}

/// A command says which it is and which session it wants.
pub proof fn lemma_commands_say_what_they_want(name: String)
    ensures
        (Command::New { name })@ == (CommandView::New { name: name@ }),
        (Command::Attach { name })@ == (CommandView::Attach { name: name@ }),
        (Command::KillSession { name })@ == (CommandView::KillSession { name: name@ }),
        Command::Ls@ == CommandView::Ls,
        Command::Usage@ == CommandView::Usage,
{
}

} // verus!
