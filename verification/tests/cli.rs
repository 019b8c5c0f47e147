use mini_tmux::cli::{
    client_error_text, connect_error_text, error_text, farewell, parse_command,
    parse_session_name, shell_or_default, usage_text, Command,
};
use mini_tmux::client::ClientEnd;
use mini_tmux::text::{decimal_text, same_text};

fn args(words: &[&str]) -> Vec<String> {
    words.iter().map(|word| word.to_string()).collect()
}

#[test]
fn the_name_stands_behind_the_first_flag() {
    assert_eq!(
        parse_session_name(&args(&["mini-tmux", "new", "-s", "work"])),
        Some("work".to_string())
    );
    assert_eq!(
        parse_session_name(&args(&["mini-tmux", "new", "-s", "a", "-s", "b"])),
        Some("a".to_string())
    );
    assert_eq!(parse_session_name(&args(&["-s", "-s", "b"])), Some("-s".to_string()));
}

#[test]
fn no_flag_or_nothing_behind_it_is_no_name() {
    assert_eq!(parse_session_name(&args(&[])), None);
    assert_eq!(parse_session_name(&args(&["mini-tmux", "new"])), None);
    assert_eq!(parse_session_name(&args(&["mini-tmux", "new", "-s"])), None);
    assert_eq!(parse_session_name(&args(&["mini-tmux", "new", "-session", "x"])), None);
}

#[test]
fn commands_are_told_apart() {
    let work = || "work".to_string();
    let default = || "default".to_string();
    assert_eq!(
        parse_command(&args(&["mini-tmux", "new", "-s", "work"])),
        Command::New { name: work() }
    );
    assert_eq!(parse_command(&args(&["mini-tmux", "new"])), Command::New { name: default() });
    assert_eq!(
        parse_command(&args(&["mini-tmux", "attach", "-s", "work"])),
        Command::Attach { name: work() }
    );
    assert_eq!(
        parse_command(&args(&["mini-tmux", "attach"])),
        Command::Attach { name: default() }
    );
    assert_eq!(parse_command(&args(&["mini-tmux", "ls"])), Command::Ls);
    assert_eq!(
        parse_command(&args(&["mini-tmux", "kill-session", "-s", "work"])),
        Command::KillSession { name: work() }
    );
}

#[test]
fn anything_else_asks_for_usage() {
    for words in [&[][..], &["mini-tmux"][..], &["mini-tmux", "list"][..], &["mini-tmux", "NEW"][..],
        &["mini-tmux", "-s", "new"][..]]
    {
        assert_eq!(parse_command(&args(words)), Command::Usage);
    }
    assert_eq!(
        usage_text(),
        "usage: mini-tmux <new|attach|ls|kill-session> [-s <session-name>]"
    );
}

#[test]
fn the_shell_has_a_default() {
    assert_eq!(shell_or_default(Some("/bin/zsh".to_string())), "/bin/zsh");
    assert_eq!(shell_or_default(None), "/bin/sh");
}

#[test]
fn errors_are_put_into_words() {
    assert_eq!(error_text("oops"), "mini-tmux: oops");
    assert_eq!(client_error_text("oops"), "mini-tmux: クライアントとの通信でエラー: oops");
    assert_eq!(
        connect_error_text("work", "refused"),
        "セッション 'work' に接続できませんでした(refused)。`mini-tmux new -s work` で先に作成してください"
    );
}

#[test]
fn clients_say_why_they_end() {
    assert_eq!(
        farewell(ClientEnd::Detached),
        Some("\r\n[mini-tmux] デタッチしました\r\n".to_string())
    );
    assert_eq!(
        farewell(ClientEnd::ShellExited { code: 0 }),
        Some("\r\n[mini-tmux] シェルが終了しました (code=0)\n".to_string())
    );
    assert_eq!(
        farewell(ClientEnd::ShellExited { code: -1 }),
        Some("\r\n[mini-tmux] シェルが終了しました (code=-1)\n".to_string())
    );
    assert_eq!(farewell(ClientEnd::Closed), None);
}

#[test]
fn numbers_are_written_in_decimal() {
    for n in [0i32, 7, 9, 10, 127, 100_200, -1, -128, i32::MAX, i32::MIN] {
        assert_eq!(decimal_text(n), format!("{n}"));
    }
}

#[test]
fn texts_are_the_same_letter_for_letter() {
    assert!(same_text("-s", "-s"));
    assert!(same_text("", ""));
    assert!(!same_text("-s", "-S"));
    assert!(!same_text("-s", "-s "));
}
