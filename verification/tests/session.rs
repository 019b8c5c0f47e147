use mini_tmux::cli::ls_lines;
use mini_tmux::session::{list_sessions, session_name_of, socket_file_name, SocketEntry};

fn entry(file_name: &str, running: bool) -> SocketEntry {
    SocketEntry { file_name: file_name.to_string(), running }
}

#[test]
fn sockets_are_named_after_their_session() {
    assert_eq!(socket_file_name("work"), "mini-tmux-work.sock");
    assert_eq!(socket_file_name("default"), "mini-tmux-default.sock");
    assert_eq!(socket_file_name(""), "mini-tmux-.sock");
    assert_eq!(socket_file_name("仕事"), "mini-tmux-仕事.sock");
}

#[test]
fn names_are_read_back_from_sockets() {
    for name in ["work", "", "a.sock", "mini-tmux-", "仕事", "with space"] {
        assert_eq!(session_name_of(&socket_file_name(name)), Some(name.to_string()));
    }
}

#[test]
fn other_files_belong_to_no_session() {
    for file in ["", "mini-tmux-", ".sock", "mini-tmux.sock", "mini-tmux-work", "work.sock",
        "Mini-tmux-work.sock", "mini-tmux-work.sock~", "xmini-tmux-work.sock", "日本語"]
    {
        assert_eq!(session_name_of(file), None);
    }
}

#[test]
fn running_sessions_are_listed_in_order() {
    let entries: Vec<SocketEntry> = vec![
        entry("mini-tmux-work.sock", true),
        entry("unrelated.txt", true),
        entry("mini-tmux-stale.sock", false),
        entry("mini-tmux-play.sock", true),
    ];
    assert_eq!(list_sessions(&entries), vec!["work".to_string(), "play".to_string()]);
    assert_eq!(list_sessions(&[]), Vec::<String>::new());
    assert_eq!(list_sessions(&entries[1..3]), Vec::<String>::new());
}

#[test]
fn a_listing_has_a_line_for_each_session_or_says_that_there_is_none() {
    let names: Vec<String> = vec!["work".to_string(), "play".to_string()];
    assert_eq!(ls_lines(names), vec!["work".to_string(), "play".to_string()]);
    assert_eq!(ls_lines(Vec::new()), vec!["起動中のセッションはありません".to_string()]);
}
