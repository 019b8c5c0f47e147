//! The names of sessions and of the sockets that belong to them.
//!
//! The socket of a session has a file name made of the session's name, in one
//! directory for all of them. So the sessions can be listed from the names of
//! the files in it.

use crate::text::same_text;
use vstd::prelude::*;
use vstd::string::*;

verus! {

/// The head of the file name of a session's socket.
pub open spec fn socket_prefix() -> Seq<char> {
    "mini-tmux-"@
}

/// The tail of it.
pub open spec fn socket_suffix() -> Seq<char> {
    ".sock"@
}

/// The file name of the socket of the session called `name`.
pub open spec fn socket_name(name: Seq<char>) -> Seq<char> {
    socket_prefix() + name + socket_suffix()
}

/// The name of the session whose socket has this file name, if there is one.
pub open spec fn session_of(file: Seq<char>) -> Option<Seq<char>> {
    let from = socket_prefix().len() as int;
    let to = file.len() - socket_suffix().len();
    if from <= to && file.take(from) == socket_prefix() && file.skip(to) == socket_suffix() {
        Some(file.subrange(from, to))
    } else {
        None
    }
}

/// A file in the directory of the sockets.
#[derive(Debug, PartialEq, Eq)]
pub struct SocketEntry {
    pub file_name: String,
    /// Whether a server answers on it.
    pub running: bool,
}

/// The names of the sessions among these files on whose socket a server
/// answers.
pub open spec fn running_sessions(entries: Seq<SocketEntry>) -> Seq<Seq<char>>
    decreases entries.len(),
{
    if entries.len() == 0 {
        Seq::empty()
    } else {
        let before = running_sessions(entries.drop_last());
        match session_of(entries.last().file_name@) {
            Some(name) => if entries.last().running {
                before.push(name)
            } else {
                before
            },
            None => before,
        }
    }
}

/// The file name of the socket of a session.
pub fn socket_file_name(session_name: &str) -> (file: String)
    ensures
        file@ == socket_name(session_name@),
{
    let mut file = "mini-tmux-".to_owned();
    file.append(session_name);
    file.append(".sock");
    file
}

/// The name of the session whose socket has this file name, if there is one.
pub fn session_name_of(file_name: &str) -> (name: Option<String>)
    ensures
        name is Some <==> session_of(file_name@) is Some,
        name matches Some(n) ==> session_of(file_name@) == Some(n@),
{
    let len: usize = file_name.unicode_len();
    let from: usize = "mini-tmux-".unicode_len();
    let tail: usize = ".sock".unicode_len();
    if len < tail || len - tail < from {
        return None;
    }
    let to: usize = len - tail;
    let head = file_name.substring_char(0, from);
    let end = file_name.substring_char(to, len);
    assert(head@ =~= file_name@.take(from as int));
    assert(end@ =~= file_name@.skip(to as int));
    if same_text(head, "mini-tmux-") && same_text(end, ".sock") {
        Some(file_name.substring_char(from, to).to_owned())
    } else {
        None
    }
}

/// The names of the running sessions, in the order of the files.
pub fn list_sessions(entries: &[SocketEntry]) -> (names: Vec<String>)
    ensures
        crate::text::texts(names@) == running_sessions(entries@),
{
    let mut names: Vec<String> = Vec::new();
    assert(crate::text::texts(names@) =~= running_sessions(entries@.take(0)));
    for i in 0..entries.len()
        invariant
            crate::text::texts(names@) == running_sessions(entries@.take(i as int)),
    {
        let ghost seen = entries@.take(i + 1);
        let ghost before = crate::text::texts(names@);
        assert(seen.drop_last() =~= entries@.take(i as int));
        assert(seen.last() == entries@[i as int]);
        if let Some(name) = session_name_of(entries[i].file_name.as_str()) {
            if entries[i].running {
                names.push(name);
                assert(crate::text::texts(names@) =~= before.push(name@));
            }
        }
    }
    assert(entries@.take(entries@.len() as int) =~= entries@);
    names
}

/// A session's name can be had back from the file name of its socket, and only
/// from that one.
pub proof fn lemma_socket_name_reads_back(name: Seq<char>, file: Seq<char>)
    ensures
        session_of(socket_name(name)) == Some(name),
        session_of(file) == Some(name) <==> file == socket_name(name),
{
    let made = socket_name(name);
    let from = socket_prefix().len() as int;
    let to = made.len() - socket_suffix().len();
    assert(made.take(from) =~= socket_prefix());
    assert(made.skip(to) =~= socket_suffix());
    assert(made.subrange(from, to) =~= name);
    if session_of(file) == Some(name) {
        let end = file.len() - socket_suffix().len();
        assert(file =~= file.take(from) + file.subrange(from, end) + file.skip(end));
    }
}

/// Different sessions have different sockets.
pub proof fn lemma_sockets_are_distinct(a: Seq<char>, b: Seq<char>)
    ensures
        socket_name(a) == socket_name(b) <==> a == b,
{
    lemma_socket_name_reads_back(a, socket_name(b));
    lemma_socket_name_reads_back(b, socket_name(a));
}

/// A session is listed exactly if a server answers on its socket.
pub proof fn lemma_running_sessions_are_listed(entries: Seq<SocketEntry>, name: Seq<char>)
    ensures
        running_sessions(entries).contains(name) <==> exists|i: int|
            0 <= i < entries.len() && (#[trigger] entries[i]).running && entries[i].file_name@
                == socket_name(name),
    decreases entries.len(),
{
    if entries.len() > 0 {
        let head = entries.drop_last();
        let before = running_sessions(head);
        let all = running_sessions(entries);
        let n = entries.len() - 1;
        lemma_running_sessions_are_listed(head, name);
        lemma_socket_name_reads_back(name, entries.last().file_name@);
        assert forall|i: int| 0 <= i < n implies head[i] == #[trigger] entries[i] by {}
        if before.contains(name) {
            let j = before.index_of(name);
            assert(all[j] == name);
        }
        if entries[n].running && entries[n].file_name@ == socket_name(name) {
            assert(all[all.len() - 1] == name);
        }
        if all.contains(name) && !before.contains(name) {
            let j = all.index_of(name);
            assert(j < before.len() ==> before[j] == all[j]);
            assert(entries[n].running);
        }
        if exists|i: int|
            0 <= i < entries.len() && (#[trigger] entries[i]).running && entries[i].file_name@
                == socket_name(name) {
            let i = choose|i: int|
                0 <= i < entries.len() && (#[trigger] entries[i]).running && entries[i].file_name@
                    == socket_name(name);
            if i < n {
                assert(head[i].running);
            }
        }
    }
}

/// A socket's file name is the session's name, unchanged, between a fixed head
/// and a fixed tail.
pub proof fn lemma_socket_name_holds_the_name(name: Seq<char>)
    ensures
        socket_name(name) == "mini-tmux-"@ + name + ".sock"@,
{
}

/// Every file counts for itself: the sessions of two lists are those of the
/// first and then those of the second, each as often as it stands there.
pub proof fn lemma_listing_goes_file_by_file(a: Seq<SocketEntry>, b: Seq<SocketEntry>)
    ensures
        running_sessions(a + b) == running_sessions(a) + running_sessions(b),
    decreases b.len(),
{
    if b.len() == 0 {
        assert(a + b =~= a);
        assert(running_sessions(a) + running_sessions(b) =~= running_sessions(a));
    } else {
        assert((a + b).drop_last() =~= a + b.drop_last());
        assert((a + b).last() == b.last());
        lemma_listing_goes_file_by_file(a, b.drop_last());
        assert(running_sessions(a + b) =~= running_sessions(a) + running_sessions(b));
    }
}

/// One file is listed under the name in it, where it is the socket of a running
/// session, and otherwise not at all.
pub proof fn lemma_one_file_is_listed(entry: SocketEntry, name: Seq<char>)
    ensures
        entry.running && entry.file_name@ == "mini-tmux-"@ + name + ".sock"@ ==> running_sessions(
            seq![entry],
        ) == seq![name],
        !entry.running ==> running_sessions(seq![entry]).len() == 0,
        (forall|n: Seq<char>| entry.file_name@ != "mini-tmux-"@ + #[trigger] (n + ".sock"@))
            ==> running_sessions(seq![entry]).len() == 0,
        running_sessions(Seq::empty()).len() == 0,
{
    let one = seq![entry];
    assert(one.drop_last() =~= Seq::empty());
    assert(one.last() == entry);
    let file = entry.file_name@;
    lemma_socket_name_reads_back(name, file);
    assert(running_sessions(one.drop_last()) =~= Seq::empty());
    assert(Seq::<Seq<char>>::empty().push(name) =~= seq![name]);
    if let Some(n) = session_of(file) {
        lemma_socket_name_reads_back(n, file);
        assert(socket_name(n) =~= "mini-tmux-"@ + (n + ".sock"@));
    }
}

} // verus!
