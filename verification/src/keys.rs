//! What the keys mean that a user types into an attached terminal.
//!
//! Everything goes to the shell as it is, except what follows the prefix key:
//! `Ctrl-b d` detaches, and `Ctrl-b Ctrl-b` sends one `Ctrl-b`.

use vstd::prelude::*;

verus! {

/// The prefix key, `Ctrl-b`: the byte after it is a command to the
/// multiplexer and no input to the shell. Pressed twice, it is sent once.
pub const PREFIX_KEY: u8 = 0x02;

/// The key that detaches when it follows the prefix key.
pub const DETACH_KEY: u8 = 0x64;

/// What some typed bytes come to.
#[verifier::ext_equal]
pub struct Keys {
    /// What goes to the shell.
    pub forward: Seq<u8>,
    /// Whether a prefix key waits for the byte after it.
    pub pending: bool,
    /// Whether the user asked to detach.
    pub detach: bool,
}

/// The same keys with `head` before what goes to the shell.
pub open spec fn after(head: Seq<u8>, keys: Keys) -> Keys {
    Keys { forward: head + keys.forward, ..keys }
}

/// What `typed` comes to; `pending` says whether the byte before it was a
/// prefix key that still waits. Nothing after a request to detach counts.
pub open spec fn interpret(pending: bool, typed: Seq<u8>) -> Keys
    decreases typed.len(),
{
    if typed.len() == 0 {
        Keys { forward: Seq::empty(), pending, detach: false }
    } else {
        let key = typed[0];
        let rest = typed.drop_first();
        if !pending {
            if key == PREFIX_KEY {
                interpret(true, rest)
            } else {
                after(seq![key], interpret(false, rest))
            }
        } else if key == DETACH_KEY {
            Keys { forward: Seq::empty(), pending: false, detach: true }
        } else if key == PREFIX_KEY {
            after(seq![PREFIX_KEY], interpret(false, rest))
        } else {
            after(seq![PREFIX_KEY, key], interpret(false, rest))
        }
    }
}

/// Puts typed bytes through the prefix key: what goes to the shell, and
/// whether the user asked to detach. `prefix_pending` lasts from one read to
/// the next, since `Ctrl-b` and the key after it may arrive apart; until that
/// key is there, the prefix is held back.
pub fn process_input(chunk: &[u8], prefix_pending: &mut bool) -> (result: (Vec<u8>, bool))
    ensures
        (Keys { forward: result.0@, pending: *final(prefix_pending), detach: result.1 })
            == interpret(*old(prefix_pending), chunk@),
{
    let mut forward: Vec<u8> = Vec::new();
    let ghost start = *prefix_pending;
    let mut i: usize = 0;
    assert(chunk@.skip(0) =~= chunk@);
    assert(after(forward@, interpret(start, chunk@)) =~= interpret(start, chunk@));
    while i < chunk.len()
        invariant
            i <= chunk@.len(),
            start == *old(prefix_pending),
            interpret(start, chunk@) == after(
                forward@,
                interpret(*prefix_pending, chunk@.skip(i as int)),
            ),
        decreases chunk@.len() - i,
    {
        let byte: u8 = chunk[i];
        let ghost rest = chunk@.skip(i as int);
        let ghost before = forward@;
        assert(rest.drop_first() =~= chunk@.skip(i + 1));
        i += 1;
        if *prefix_pending {
            *prefix_pending = false;
            if byte == DETACH_KEY {
                assert(before + Seq::<u8>::empty() =~= before);
                return (forward, true);
            } else if byte == PREFIX_KEY {
                forward.push(PREFIX_KEY);
                assert(after(forward@, interpret(false, chunk@.skip(i as int))) =~= after(
                    before,
                    interpret(true, rest),
                ));
            } else {
                forward.push(PREFIX_KEY);
                forward.push(byte);
                assert(after(forward@, interpret(false, chunk@.skip(i as int))) =~= after(
                    before,
                    interpret(true, rest),
                ));
            }
        } else if byte == PREFIX_KEY {
            *prefix_pending = true;
        } else {
            forward.push(byte);
            assert(after(forward@, interpret(false, chunk@.skip(i as int))) =~= after(
                before,
                interpret(false, rest),
            ));
        }
    }
    assert(forward@ + Seq::<u8>::empty() =~= forward@);
    (forward, false)
}

/// Whether the prefix key waits when the key at `i` is read: the key before it
/// is a prefix key that was not itself the second of a pair.
pub open spec fn armed(pending: bool, typed: Seq<u8>, i: int) -> bool
    decreases i,
{
    if i <= 0 {
        pending
    } else {
        typed[i - 1] == PREFIX_KEY && !armed(pending, typed, i - 1)
    }
}

/// `text` with every prefix key doubled.
pub open spec fn doubled(text: Seq<u8>) -> Seq<u8>
    decreases text.len(),
{
    if text.len() == 0 {
        Seq::empty()
    } else {
        let head = if text[0] == PREFIX_KEY {
            seq![PREFIX_KEY, PREFIX_KEY]
        } else {
            seq![text[0]]
        };
        head + doubled(text.drop_first())
    }
}

/// What the pieces come to when they are read one after the other.
pub open spec fn interpret_pieces(pending: bool, pieces: Seq<Seq<u8>>) -> Keys
    decreases pieces.len(),
{
    if pieces.len() == 0 {
        Keys { forward: Seq::empty(), pending, detach: false }
    } else {
        let first = interpret(pending, pieces[0]);
        if first.detach {
            first
        } else {
            after(first.forward, interpret_pieces(first.pending, pieces.drop_first()))
        }
    }
}

/// Input is read in two parts as it is in one.
pub proof fn lemma_interpret_split(pending: bool, a: Seq<u8>, b: Seq<u8>)
    ensures
        interpret(pending, a).detach ==> interpret(pending, a + b) == interpret(pending, a),
        !interpret(pending, a).detach ==> interpret(pending, a + b) == after(
            interpret(pending, a).forward,
            interpret(interpret(pending, a).pending, b),
        ),
    decreases a.len(),
{
    if a.len() == 0 {
        assert(a + b =~= b);
        assert(after(Seq::empty(), interpret(pending, b)) =~= interpret(pending, b));
    } else {
        let rest = a.drop_first();
        assert((a + b).drop_first() =~= rest + b);
        let next = if pending {
            false
        } else {
            a[0] == PREFIX_KEY
        };
        lemma_interpret_split(next, rest, b);
        let whole = interpret(pending, a + b);
        let part = interpret(pending, a);
        if part.detach {
            assert(whole =~= part);
        } else {
            assert(whole =~= after(part.forward, interpret(part.pending, b)));
        }
    }
}

/// The cuts between reads do not matter: keys that arrive apart, even a prefix
/// key and the key after it, come to the same as keys that arrive together.
pub proof fn lemma_reads_do_not_matter(pending: bool, pieces: Seq<Seq<u8>>)
    ensures
        interpret_pieces(pending, pieces) == interpret(pending, crate::stream::joined(pieces)),
    decreases pieces.len(),
{
    if pieces.len() > 0 {
        let tail = pieces.drop_first();
        let first = interpret(pending, pieces[0]);
        lemma_interpret_split(pending, pieces[0], crate::stream::joined(tail));
        lemma_reads_do_not_matter(first.pending, tail);
    }
}

/// Input without a prefix key passes through unchanged.
pub proof fn lemma_plain_input_passes(typed: Seq<u8>)
    requires
        !typed.contains(PREFIX_KEY),
    ensures
        interpret(false, typed) == (Keys { forward: typed, pending: false, detach: false }),
    decreases typed.len(),
{
    if typed.len() > 0 {
        let rest = typed.drop_first();
        assert(typed[0] != PREFIX_KEY);
        assert forall|i: int| 0 <= i < rest.len() implies rest[i] != PREFIX_KEY by {
            assert(rest[i] == typed[i + 1]);
        }
        lemma_plain_input_passes(rest);
        assert(seq![typed[0]] + rest =~= typed);
    } else {
        assert(typed =~= Seq::empty());
    }
}

/// Every byte sequence can be typed: with its prefix keys doubled it reaches
/// the shell as it is.
pub proof fn lemma_doubling_sends_anything(text: Seq<u8>)
    ensures
        interpret(false, doubled(text)) == (Keys {
            forward: text,
            pending: false,
            detach: false,
        }),
    decreases text.len(),
{
    if text.len() > 0 {
        let rest = text.drop_first();
        lemma_doubling_sends_anything(rest);
        let typed = doubled(text);
        if text[0] == PREFIX_KEY {
            assert(typed.drop_first().drop_first() =~= doubled(rest));
            assert(seq![PREFIX_KEY] + rest =~= text);
            assert(typed.drop_first()[0] == PREFIX_KEY);
            assert(interpret(false, typed) == interpret(true, typed.drop_first()));
        } else {
            assert(typed.drop_first() =~= doubled(rest));
            assert(seq![text[0]] + rest =~= text);
        }
    } else {
        assert(text =~= Seq::empty());
    }
}

/// `armed` read from the second key on.
proof fn lemma_armed_shift(pending: bool, typed: Seq<u8>, i: int)
    requires
        typed.len() > 0,
        0 <= i <= typed.drop_first().len(),
    ensures
        armed(pending, typed, i + 1) == armed(
            typed[0] == PREFIX_KEY && !pending,
            typed.drop_first(),
            i,
        ),
    decreases i,
{
    reveal_with_fuel(armed, 2);
    if i > 0 {
        lemma_armed_shift(pending, typed, i - 1);
        assert(typed.drop_first()[i - 1] == typed[i]);
    }
}

/// The user has asked to detach exactly where the detach key directly follows
/// a prefix key that waits for a command. Without such a request the prefix
/// waits at the end exactly where it would for one more key.
pub proof fn lemma_detach_is_prefix_then_key(pending: bool, typed: Seq<u8>)
    ensures
        interpret(pending, typed).detach <==> exists|i: int|
            0 <= i < typed.len() && typed[i] == DETACH_KEY && #[trigger] armed(pending, typed, i),
        !interpret(pending, typed).detach ==> interpret(pending, typed).pending == armed(
            pending,
            typed,
            typed.len() as int,
        ),
    decreases typed.len(),
{
    if typed.len() > 0 {
        let rest = typed.drop_first();
        let next = typed[0] == PREFIX_KEY && !pending;
        lemma_detach_is_prefix_then_key(next, rest);
        lemma_armed_shift(pending, typed, rest.len() as int);
        assert(armed(pending, typed, 0) == pending);
        assert forall|i: int| 0 <= i < rest.len() && rest[i] == DETACH_KEY && #[trigger] armed(
            next,
            rest,
            i,
        ) implies typed[i + 1] == DETACH_KEY && armed(pending, typed, i + 1) by {
            lemma_armed_shift(pending, typed, i);
        }
        assert forall|i: int|
            0 < i < typed.len() && typed[i] == DETACH_KEY && #[trigger] armed(
                pending,
                typed,
                i,
            ) implies rest[i - 1] == DETACH_KEY && armed(next, rest, i - 1) by {
            lemma_armed_shift(pending, typed, i - 1);
        }
        if interpret(next, rest).detach {
            let i = choose|i: int|
                0 <= i < rest.len() && rest[i] == DETACH_KEY && #[trigger] armed(next, rest, i);
            assert(armed(pending, typed, i + 1));
        }
    }
}

/// What one key does, before whatever is typed after it. A plain key is sent. A
/// prefix key waits. After a waiting prefix, another prefix key is sent once,
/// the detach key asks to detach, and any other key is sent with the prefix
/// before it.
pub proof fn lemma_one_key(key: u8, rest: Seq<u8>)
    ensures
        ({
            let idle = interpret(false, seq![key] + rest);
            let waiting = interpret(true, seq![key] + rest);
            let later = interpret(false, rest);
            &&& key == PREFIX_KEY ==> idle == interpret(true, rest)
            &&& key != PREFIX_KEY ==> idle == Keys {
                forward: seq![key] + later.forward,
                ..later
            }
            &&& key == PREFIX_KEY ==> waiting == Keys {
                forward: seq![key] + later.forward,
                ..later
            }
            &&& key == DETACH_KEY ==> waiting == Keys {
                forward: Seq::empty(),
                pending: false,
                detach: true,
            }
            &&& key != PREFIX_KEY && key != DETACH_KEY ==> waiting == Keys {
                forward: seq![PREFIX_KEY, key] + later.forward,
                ..later
            }
        }),
{
    let typed = seq![key] + rest;
    assert(typed.drop_first() =~= rest);
    assert(typed[0] == key);
}

/// Nothing typed is nothing sent, and a prefix that waits goes on waiting.
pub proof fn lemma_no_keys(pending: bool)
    ensures
        interpret(pending, Seq::empty()) == (Keys {
            forward: Seq::empty(),
            pending,
            detach: false,
        }),
{
}

/// Everything but a doubled prefix and a request to detach passes as it was
/// typed: where no prefix key is followed by another or by the detach key, and
/// none stands last, the shell gets every byte, the prefix keys among them.
pub proof fn lemma_all_other_keys_pass(typed: Seq<u8>)
    requires
        forall|i: int|
            0 <= i < typed.len() && #[trigger] typed[i] == PREFIX_KEY ==> {
                &&& i + 1 < typed.len()
                &&& typed[i + 1] != PREFIX_KEY
                &&& typed[i + 1] != DETACH_KEY
            },
    ensures
        interpret(false, typed) == (Keys { forward: typed, pending: false, detach: false }),
    decreases typed.len(),
{
    if typed.len() == 0 {
        assert(typed =~= Seq::empty());
    } else {
        let rest = typed.drop_first();
        if typed[0] == PREFIX_KEY {
            let tail = typed.skip(2);
            assert(tail =~= rest.drop_first());
            assert forall|i: int|
                0 <= i < tail.len() && #[trigger] tail[i] == PREFIX_KEY implies i + 1 < tail.len()
                && tail[i + 1] != PREFIX_KEY && tail[i + 1] != DETACH_KEY by {
                assert(typed[i + 2] == tail[i]);
            }
            lemma_all_other_keys_pass(tail);
            assert(rest[0] == typed[1]);
            assert(interpret(false, typed) == interpret(true, rest));
            assert(seq![PREFIX_KEY, typed[1]] + tail =~= typed);
        } else {
            assert forall|i: int|
                0 <= i < rest.len() && #[trigger] rest[i] == PREFIX_KEY implies i + 1 < rest.len()
                && rest[i + 1] != PREFIX_KEY && rest[i + 1] != DETACH_KEY by {
                assert(typed[i + 1] == rest[i]);
            }
            lemma_all_other_keys_pass(rest);
            assert(seq![typed[0]] + rest =~= typed);
        }
    }
}

/// A prefix that waits counts like one typed just now.
pub proof fn lemma_waiting_prefix_is_a_prefix(typed: Seq<u8>)
    ensures
        interpret(true, typed) == interpret(false, seq![PREFIX_KEY] + typed),
{
    assert((seq![PREFIX_KEY] + typed).drop_first() =~= typed);
}

} // verus!
