//! Reading messages out of a byte stream that arrives in pieces.
//!
//! A reader keeps the bytes that it has not used yet, appends every piece
//! that arrives, and takes messages off the head for as long as one is there.
//! This module says what such a reader gets, for any decoder that does not
//! look past the message that it decodes, and shows that the cuts between the
//! pieces do not matter.

use crate::protocol::{ClientMessageView, ServerMessageView};
use vstd::prelude::*;

verus! {

/// A decoder takes the message at the head of a buffer and says how many
/// bytes it took, or `None` where it cannot take one.
pub type Decoder<M> = spec_fn(Seq<u8>) -> Option<(M, nat)>;

/// Whether every message that `dec` takes has some bytes, lies in the buffer,
/// and does not depend on what stands behind it.
pub open spec fn incremental<M>(dec: Decoder<M>) -> bool {
    &&& forall|buf: Seq<u8>| #[trigger]
        dec(buf) is Some ==> 0 < dec(buf).unwrap().1 <= buf.len()
    &&& forall|buf: Seq<u8>, more: Seq<u8>|
        dec(buf) is Some ==> #[trigger] dec(buf + more) == dec(buf)
}

/// The messages that can be taken off the head of `buf`, one after the other.
pub open spec fn messages<M>(dec: Decoder<M>, buf: Seq<u8>) -> Seq<M>
    decreases buf.len(),
{
    match dec(buf) {
        Some((msg, n)) => if 0 < n <= buf.len() {
            seq![msg] + messages(dec, buf.skip(n as int))
        } else {
            Seq::empty()
        },
        None => Seq::empty(),
    }
}

/// The bytes that are left once those messages have been taken.
pub open spec fn leftover<M>(dec: Decoder<M>, buf: Seq<u8>) -> Seq<u8>
    decreases buf.len(),
{
    match dec(buf) {
        Some((msg, n)) => if 0 < n <= buf.len() {
            leftover(dec, buf.skip(n as int))
        } else {
            buf
        },
        None => buf,
    }
}

/// All pieces one after the other.
pub open spec fn joined(pieces: Seq<Seq<u8>>) -> Seq<u8>
    decreases pieces.len(),
{
    if pieces.len() == 0 {
        Seq::empty()
    } else {
        pieces[0] + joined(pieces.drop_first())
    }
}

/// What a reader that holds `held` gets from the pieces: after each of them
/// it takes every message that it can.
pub open spec fn read_pieces<M>(dec: Decoder<M>, held: Seq<u8>, pieces: Seq<Seq<u8>>) -> Seq<M>
    decreases pieces.len(),
{
    if pieces.len() == 0 {
        Seq::empty()
    } else {
        let buf = held + pieces[0];
        messages(dec, buf) + read_pieces(dec, leftover(dec, buf), pieces.drop_first())
    }
}

/// The bytes of all messages one after the other.
pub open spec fn encoded<M>(enc: spec_fn(M) -> Seq<u8>, msgs: Seq<M>) -> Seq<u8>
    decreases msgs.len(),
{
    if msgs.len() == 0 {
        Seq::empty()
    } else {
        enc(msgs[0]) + encoded(enc, msgs.drop_first())
    }
}

/// Nothing more can be taken off what is left.
pub proof fn lemma_leftover_is_used_up<M>(dec: Decoder<M>, buf: Seq<u8>)
    requires
        incremental(dec),
    ensures
        dec(leftover(dec, buf)) is None,
    decreases buf.len(),
{
    if let Some((_, n)) = dec(buf) {
        lemma_leftover_is_used_up(dec, buf.skip(n as int));
    }
}

/// Taking messages early, before the rest of the stream has arrived, gives
/// the same messages and leaves the same bytes.
pub proof fn lemma_split<M>(dec: Decoder<M>, a: Seq<u8>, b: Seq<u8>)
    requires
        incremental(dec),
    ensures
        messages(dec, a + b) == messages(dec, a) + messages(dec, leftover(dec, a) + b),
        leftover(dec, a + b) == leftover(dec, leftover(dec, a) + b),
    decreases a.len(),
{
    match dec(a) {
        Some((msg, n)) => {
            let rest = a.skip(n as int);
            assert(dec(a + b) == dec(a));
            assert((a + b).skip(n as int) =~= rest + b);
            lemma_split(dec, rest, b);
            assert(messages(dec, a + b) =~= messages(dec, a) + messages(
                dec,
                leftover(dec, a) + b,
            ));
        },
        None => {
            assert(messages(dec, a + b) =~= messages(dec, a) + messages(
                dec,
                leftover(dec, a) + b,
            ));
        },
    }
}

/// However a stream is cut into pieces, a reader gets the messages of the
/// stream as a whole, in order.
pub proof fn lemma_cuts_do_not_matter<M>(dec: Decoder<M>, held: Seq<u8>, pieces: Seq<Seq<u8>>)
    requires
        incremental(dec),
        dec(held) is None,
    ensures
        read_pieces(dec, held, pieces) == messages(dec, held + joined(pieces)),
    decreases pieces.len(),
{
    if pieces.len() == 0 {
        assert(held + joined(pieces) =~= held);
        assert(messages(dec, held) =~= Seq::<M>::empty());
    } else {
        let buf = held + pieces[0];
        let tail = pieces.drop_first();
        assert(held + joined(pieces) =~= buf + joined(tail));
        lemma_split(dec, buf, joined(tail));
        lemma_leftover_is_used_up(dec, buf);
        lemma_cuts_do_not_matter(dec, leftover(dec, buf), tail);
    }
}

/// Where each message can be read back whatever follows it, a stream of
/// messages is read back whole and nothing is left.
pub proof fn lemma_stream_read_back<M>(
    enc: spec_fn(M) -> Seq<u8>,
    dec: Decoder<M>,
    msgs: Seq<M>,
)
    requires
        incremental(dec),
        forall|i: int, rest: Seq<u8>|
            0 <= i < msgs.len() ==> #[trigger] dec(enc(msgs[i]) + rest) == Some(
                (msgs[i], enc(msgs[i]).len()),
            ),
    ensures
        messages(dec, encoded(enc, msgs)) == msgs,
        leftover(dec, encoded(enc, msgs)) == Seq::<u8>::empty(),
    decreases msgs.len(),
{
    if msgs.len() > 0 {
        let tail = msgs.drop_first();
        let rest = encoded(enc, tail);
        let buf = encoded(enc, msgs);
        assert(dec(enc(msgs[0]) + rest) == Some((msgs[0], enc(msgs[0]).len())));
        assert(buf.skip(enc(msgs[0]).len() as int) =~= rest);
        assert forall|i: int, r: Seq<u8>| 0 <= i < tail.len() implies #[trigger] dec(
            enc(tail[i]) + r,
        ) == Some((tail[i], enc(tail[i]).len())) by {
            assert(tail[i] == msgs[i + 1]);
        }
        lemma_stream_read_back(enc, dec, tail);
        assert(messages(dec, buf) =~= msgs);
    } else {
        let nothing = Seq::<u8>::empty();
        assert(dec(nothing) is None);
        assert(messages(dec, nothing) =~= msgs);
    }
}

// ---------------------------------------------------------------------------
// The two streams of a session
// ---------------------------------------------------------------------------

/// The decoder of the stream from a client to the server.
pub open spec fn client_decoder() -> Decoder<ClientMessageView> {
    |buf: Seq<u8>| crate::protocol::client_message_at(buf)
}

/// The encoder of that stream.
pub open spec fn client_encoder() -> spec_fn(ClientMessageView) -> Seq<u8> {
    |msg: ClientMessageView| crate::protocol::client_frame(msg)
}

/// The decoder of the stream from the server to a client.
pub open spec fn server_decoder() -> Decoder<ServerMessageView> {
    |buf: Seq<u8>| crate::protocol::server_message_at(buf)
}

/// The encoder of that stream.
pub open spec fn server_encoder() -> spec_fn(ServerMessageView) -> Seq<u8> {
    |msg: ServerMessageView| crate::protocol::server_frame(msg)
}

/// The server's decoder of client messages is incremental.
pub proof fn lemma_client_decoder_incremental()
    ensures
        incremental(client_decoder()),
{
    let dec = client_decoder();
    assert forall|buf: Seq<u8>| #[trigger] dec(buf) is Some implies 0 < dec(buf).unwrap().1
        <= buf.len() by {
        crate::protocol::lemma_client_message_stable(buf, Seq::empty());
    }
    assert forall|buf: Seq<u8>, more: Seq<u8>| dec(buf) is Some implies #[trigger] dec(buf + more)
        == dec(buf) by {
        crate::protocol::lemma_client_message_stable(buf, more);
    }
}

/// The client's decoder of server messages is incremental.
pub proof fn lemma_server_decoder_incremental()
    ensures
        incremental(server_decoder()),
{
    let dec = server_decoder();
    assert forall|buf: Seq<u8>| #[trigger] dec(buf) is Some implies 0 < dec(buf).unwrap().1
        <= buf.len() by {
        crate::protocol::lemma_server_message_stable(buf, Seq::empty());
    }
    assert forall|buf: Seq<u8>, more: Seq<u8>| dec(buf) is Some implies #[trigger] dec(buf + more)
        == dec(buf) by {
        crate::protocol::lemma_server_message_stable(buf, more);
    }
}

/// The bytes that a client sends hold its messages, in order, and nothing else.
/// Bodies of 4 GiB and more are left out.
pub proof fn lemma_client_stream_read_back(msgs: Seq<ClientMessageView>)
    requires
        forall|i: int|
            0 <= i < msgs.len() ==> (#[trigger] crate::protocol::client_body(msgs[i])).len()
                <= u32::MAX,
    ensures
        messages(client_decoder(), encoded(client_encoder(), msgs)) == msgs,
        leftover(client_decoder(), encoded(client_encoder(), msgs)) == Seq::<u8>::empty(),
{
    let dec = client_decoder();
    let enc = client_encoder();
    lemma_client_decoder_incremental();
    assert forall|i: int, rest: Seq<u8>| 0 <= i < msgs.len() implies #[trigger] dec(
        enc(msgs[i]) + rest,
    ) == Some((msgs[i], enc(msgs[i]).len())) by {
        assert(crate::protocol::client_body(msgs[i]).len() <= u32::MAX);
        crate::protocol::lemma_client_message_read_back(msgs[i], rest);
    }
    lemma_stream_read_back(enc, dec, msgs);
}

/// The messages that a client sends are the messages that the server reads,
/// in order and however the socket cuts the stream. Bodies of 4 GiB and more
/// are left out.
pub proof fn lemma_client_messages_arrive(
    msgs: Seq<ClientMessageView>,
    pieces: Seq<Seq<u8>>,
)
    requires
        forall|i: int|
            0 <= i < msgs.len() ==> (#[trigger] crate::protocol::client_body(msgs[i])).len()
                <= u32::MAX,
        joined(pieces) == encoded(client_encoder(), msgs),
    ensures
        read_pieces(client_decoder(), Seq::empty(), pieces) == msgs,
{
    lemma_client_decoder_incremental();
    lemma_client_stream_read_back(msgs);
    lemma_cuts_do_not_matter(client_decoder(), Seq::empty(), pieces);
    assert(Seq::<u8>::empty() + joined(pieces) =~= joined(pieces));
}

/// The bytes that the server sends hold its messages, in order, and nothing
/// else.
pub proof fn lemma_server_stream_read_back(msgs: Seq<ServerMessageView>)
    requires
        forall|i: int|
            0 <= i < msgs.len() ==> (#[trigger] crate::protocol::server_body(msgs[i])).len()
                <= u32::MAX,
    ensures
        messages(server_decoder(), encoded(server_encoder(), msgs)) == msgs,
        leftover(server_decoder(), encoded(server_encoder(), msgs)) == Seq::<u8>::empty(),
{
    let dec = server_decoder();
    let enc = server_encoder();
    lemma_server_decoder_incremental();
    assert forall|i: int, rest: Seq<u8>| 0 <= i < msgs.len() implies #[trigger] dec(
        enc(msgs[i]) + rest,
    ) == Some((msgs[i], enc(msgs[i]).len())) by {
        assert(crate::protocol::server_body(msgs[i]).len() <= u32::MAX);
        crate::protocol::lemma_server_message_read_back(msgs[i], rest);
    }
    lemma_stream_read_back(enc, dec, msgs);
}

/// The messages that the server sends are the messages that a client reads,
/// in order and however the socket cuts the stream.
pub proof fn lemma_server_messages_arrive(
    msgs: Seq<ServerMessageView>,
    pieces: Seq<Seq<u8>>,
)
    requires
        forall|i: int|
            0 <= i < msgs.len() ==> (#[trigger] crate::protocol::server_body(msgs[i])).len()
                <= u32::MAX,
        joined(pieces) == encoded(server_encoder(), msgs),
    ensures
        read_pieces(server_decoder(), Seq::empty(), pieces) == msgs,
{
    lemma_server_decoder_incremental();
    lemma_server_stream_read_back(msgs);
    lemma_cuts_do_not_matter(server_decoder(), Seq::empty(), pieces);
    assert(Seq::<u8>::empty() + joined(pieces) =~= joined(pieces));
}

} // verus!
