//! The messages that a client and a server exchange over a session's socket.
//!
//! A frame is one tag byte, the length of the body as four little-endian
//! bytes, and the body. A socket is a stream, so a read may end in the middle
//! of a frame: decoding answers `None` until the whole frame at the head of
//! the buffer has arrived, and otherwise says how many bytes the frame took,
//! so that the caller can drop them and try again.

use crate::bytes::{
    push_i32_le, push_u16_le, push_u32_le, read_i32_le, read_u16_le, read_u32_le,
};
use vstd::prelude::*;
use vstd::slice::{slice_subrange, slice_to_vec};

verus! {

/// A message from a client to the server.
#[derive(Debug, PartialEq, Eq)]
pub enum ClientMessage {
    /// Raw bytes to hand to the shell as they are.
    Input(Vec<u8>),
    /// The client's terminal now has this size.
    Resize { rows: u16, cols: u16 },
    /// The client leaves; the shell keeps running.
    Detach,
}

/// A message from the server to a client.
#[derive(Debug, PartialEq, Eq)]
pub enum ServerMessage {
    /// Raw bytes that the shell wrote.
    Output(Vec<u8>),
    /// The shell has ended.
    ShellExited { code: i32 },
}

/// What a [`ClientMessage`] says.
pub enum ClientMessageView {
    Input(Seq<u8>),
    Resize { rows: u16, cols: u16 },
    Detach,
}

/// What a [`ServerMessage`] says.
pub enum ServerMessageView {
    Output(Seq<u8>),
    ShellExited { code: i32 },
}

impl View for ClientMessage {
    type V = ClientMessageView;

    open spec fn view(&self) -> ClientMessageView {
        match self {
            ClientMessage::Input(bytes) => ClientMessageView::Input(bytes@),
            ClientMessage::Resize { rows, cols } => ClientMessageView::Resize {
                rows: *rows,
                cols: *cols,
            },
            ClientMessage::Detach => ClientMessageView::Detach,
        }
    }
}

impl View for ServerMessage {
    type V = ServerMessageView;

    open spec fn view(&self) -> ServerMessageView {
        match self {
            ServerMessage::Output(bytes) => ServerMessageView::Output(bytes@),
            ServerMessage::ShellExited { code } => ServerMessageView::ShellExited { code: *code },
        }
    }
}

pub const TAG_INPUT: u8 = 1;

pub const TAG_RESIZE: u8 = 2;

pub const TAG_DETACH: u8 = 3;

pub const TAG_OUTPUT: u8 = 1;

pub const TAG_SHELL_EXITED: u8 = 2;

/// The size of what stands before the body of a frame.
pub const HEADER_BYTES: usize = 5;

// ---------------------------------------------------------------------------
// The format
// ---------------------------------------------------------------------------

/// The length field of a frame with this body: four bytes hold it, so a body
/// of 4 GiB or more is announced by its length modulo 2^32.
pub open spec fn length_field(body: Seq<u8>) -> u32 {
    (body.len() % 0x1_0000_0000) as u32
}

/// The bytes of a frame.
pub open spec fn frame(tag: u8, body: Seq<u8>) -> Seq<u8> {
    seq![tag] + crate::bytes::u32_le(length_field(body)) + body
}

/// The length of the body that the header at the head of `buf` announces.
pub open spec fn announced(buf: Seq<u8>) -> nat {
    crate::bytes::u32_value(buf.skip(1))
}

/// Whether a whole frame stands at the head of `buf`.
pub open spec fn frame_complete(buf: Seq<u8>) -> bool {
    buf.len() >= HEADER_BYTES && buf.len() >= HEADER_BYTES + announced(buf)
}

/// The body of the whole frame at the head of `buf`.
pub open spec fn body_at(buf: Seq<u8>) -> Seq<u8> {
    buf.subrange(HEADER_BYTES as int, HEADER_BYTES + announced(buf))
}

/// The tag of a client's message.
pub open spec fn client_tag(msg: ClientMessageView) -> u8 {
    match msg {
        ClientMessageView::Input(_) => TAG_INPUT,
        ClientMessageView::Resize { .. } => TAG_RESIZE,
        ClientMessageView::Detach => TAG_DETACH,
    }
}

/// The body of a client's message.
pub open spec fn client_body(msg: ClientMessageView) -> Seq<u8> {
    match msg {
        ClientMessageView::Input(bytes) => bytes,
        ClientMessageView::Resize { rows, cols } => crate::bytes::u16_le(rows)
            + crate::bytes::u16_le(cols),
        ClientMessageView::Detach => Seq::empty(),
    }
}

/// The bytes of a client's message.
pub open spec fn client_frame(msg: ClientMessageView) -> Seq<u8> {
    frame(client_tag(msg), client_body(msg))
}

/// The client's message with this tag and body, where there is one.
pub open spec fn client_message(tag: u8, body: Seq<u8>) -> Option<ClientMessageView> {
    if tag == TAG_INPUT {
        Some(ClientMessageView::Input(body))
    } else if tag == TAG_RESIZE && body.len() == 4 {
        Some(
            ClientMessageView::Resize {
                rows: crate::bytes::u16_value(body) as u16,
                cols: crate::bytes::u16_value(body.skip(2)) as u16,
            },
        )
    } else if tag == TAG_DETACH {
        Some(ClientMessageView::Detach)
    } else {
        None
    }
}

/// The client's message at the head of `buf`, with the bytes that it takes.
pub open spec fn client_message_at(buf: Seq<u8>) -> Option<(ClientMessageView, nat)> {
    if frame_complete(buf) {
        match client_message(buf[0], body_at(buf)) {
            Some(msg) => Some((msg, HEADER_BYTES as nat + announced(buf))),
            None => None,
        }
    } else {
        None
    }
}

/// The tag of a server's message.
pub open spec fn server_tag(msg: ServerMessageView) -> u8 {
    match msg {
        ServerMessageView::Output(_) => TAG_OUTPUT,
        ServerMessageView::ShellExited { .. } => TAG_SHELL_EXITED,
    }
}

/// The body of a server's message.
pub open spec fn server_body(msg: ServerMessageView) -> Seq<u8> {
    match msg {
        ServerMessageView::Output(bytes) => bytes,
        ServerMessageView::ShellExited { code } => crate::bytes::u32_le(crate::bytes::i32_bits(code)),
    }
}

/// The bytes of a server's message.
pub open spec fn server_frame(msg: ServerMessageView) -> Seq<u8> {
    frame(server_tag(msg), server_body(msg))
}

/// The server's message with this tag and body, where there is one.
pub open spec fn server_message(tag: u8, body: Seq<u8>) -> Option<ServerMessageView> {
    if tag == TAG_OUTPUT {
        Some(ServerMessageView::Output(body))
    } else if tag == TAG_SHELL_EXITED && body.len() == 4 {
        Some(ServerMessageView::ShellExited { code: crate::bytes::i32_of_bits(crate::bytes::u32_value(body)) })
    } else {
        None
    }
}

/// The server's message at the head of `buf`, with the bytes that it takes.
pub open spec fn server_message_at(buf: Seq<u8>) -> Option<(ServerMessageView, nat)> {
    if frame_complete(buf) {
        match server_message(buf[0], body_at(buf)) {
            Some(msg) => Some((msg, HEADER_BYTES as nat + announced(buf))),
            None => None,
        }
    } else {
        None
    }
}

// ---------------------------------------------------------------------------
// Encoding and decoding
// ---------------------------------------------------------------------------

/// Puts tag, length and body one after the other.
pub fn encode_frame(tag: u8, body: &[u8]) -> (out: Vec<u8>)
    ensures
        out@ == frame(tag, body@),
{
    let mut out: Vec<u8> = Vec::new();
    out.push(tag);
    let announced: u32 = (body.len() as u64 % 0x1_0000_0000u64) as u32;
    push_u32_le(&mut out, announced);
    out.extend_from_slice(body);
    assert(out@ =~= frame(tag, body@));
    out
}

/// The tag, the body and the size of the frame at the head of `buf`, or
/// `None` while a part of it is still to come.
pub fn decode_frame(buf: &[u8]) -> (found: Option<(u8, &[u8], usize)>)
    ensures
        found is Some <==> frame_complete(buf@),
        found matches Some((tag, body, consumed)) ==> {
            &&& tag == buf@[0]
            &&& body@ == body_at(buf@)
            &&& consumed == HEADER_BYTES + announced(buf@)
        },
{
    if buf.len() < HEADER_BYTES {
        return None;
    }
    let tag: u8 = buf[0];
    let len: u32 = read_u32_le(buf, 1);
    if ((buf.len() - HEADER_BYTES) as u64) < len as u64 {
        return None;
    }
    let total: usize = HEADER_BYTES + len as usize;
    Some((tag, slice_subrange(buf, HEADER_BYTES, total), total))
}

/// The bytes of a client's message.
pub fn encode_client_message(msg: &ClientMessage) -> (out: Vec<u8>)
    ensures
        out@ == client_frame(msg@),
{
    match msg {
        ClientMessage::Input(bytes) => encode_frame(TAG_INPUT, bytes.as_slice()),
        ClientMessage::Resize { rows, cols } => {
            let mut body: Vec<u8> = Vec::with_capacity(4);
            push_u16_le(&mut body, *rows);
            push_u16_le(&mut body, *cols);
            assert(body@ =~= client_body(msg@));
            encode_frame(TAG_RESIZE, body.as_slice())
        },
        ClientMessage::Detach => {
            let body: Vec<u8> = Vec::new();
            assert(body@ =~= client_body(msg@));
            encode_frame(TAG_DETACH, body.as_slice())
        },
    }
}

/// The client's message at the head of `buf` and the bytes that it takes.
///
/// `None` says that nothing can be taken: either the frame has not arrived in
/// full, or its tag is unknown or its body does not fit the tag. A frame that
/// is wrong cannot be skipped, so the connection makes no more progress.
pub fn decode_client_message(buf: &[u8]) -> (found: Option<(ClientMessage, usize)>)
    ensures
        found is Some <==> client_message_at(buf@) is Some,
        found matches Some((msg, consumed)) ==> client_message_at(buf@) == Some(
            (msg@, consumed as nat),
        ),
{
    let (tag, body, consumed) = match decode_frame(buf) {
        Some(parts) => parts,
        None => {
            return None;
        },
    };
    if tag == TAG_INPUT {
        Some((ClientMessage::Input(slice_to_vec(body)), consumed))
    } else if tag == TAG_RESIZE && body.len() == 4 {
        assert(body@.skip(0) =~= body@);
        let rows: u16 = read_u16_le(body, 0);
        let cols: u16 = read_u16_le(body, 2);
        Some((ClientMessage::Resize { rows, cols }, consumed))
    } else if tag == TAG_DETACH {
        Some((ClientMessage::Detach, consumed))
    } else {
        None
    }
}

/// The bytes of a server's message.
pub fn encode_server_message(msg: &ServerMessage) -> (out: Vec<u8>)
    ensures
        out@ == server_frame(msg@),
{
    match msg {
        ServerMessage::Output(bytes) => encode_frame(TAG_OUTPUT, bytes.as_slice()),
        ServerMessage::ShellExited { code } => {
            let mut body: Vec<u8> = Vec::with_capacity(4);
            push_i32_le(&mut body, *code);
            assert(body@ =~= server_body(msg@));
            encode_frame(TAG_SHELL_EXITED, body.as_slice())
        },
    }
}

/// The server's message at the head of `buf` and the bytes that it takes;
/// `None` as in [`decode_client_message`].
pub fn decode_server_message(buf: &[u8]) -> (found: Option<(ServerMessage, usize)>)
    ensures
        found is Some <==> server_message_at(buf@) is Some,
        found matches Some((msg, consumed)) ==> server_message_at(buf@) == Some(
            (msg@, consumed as nat),
        ),
{
    let (tag, body, consumed) = match decode_frame(buf) {
        Some(parts) => parts,
        None => {
            return None;
        },
    };
    if tag == TAG_OUTPUT {
        Some((ServerMessage::Output(slice_to_vec(body)), consumed))
    } else if tag == TAG_SHELL_EXITED && body.len() == 4 {
        assert(body@.skip(0) =~= body@);
        let code: i32 = read_i32_le(body, 0);
        Some((ServerMessage::ShellExited { code }, consumed))
    } else {
        None
    }
}

// ---------------------------------------------------------------------------
// Laws of the format
// ---------------------------------------------------------------------------

/// Whatever follows a frame, its header and its body are read back. Bodies of
/// 4 GiB and more do not fit the length field and are left out.
pub proof fn lemma_frame_read_back(tag: u8, body: Seq<u8>, rest: Seq<u8>)
    requires
        body.len() <= u32::MAX,
    ensures
        frame_complete(frame(tag, body) + rest),
        (frame(tag, body) + rest)[0] == tag,
        announced(frame(tag, body) + rest) == body.len(),
        body_at(frame(tag, body) + rest) == body,
        frame(tag, body).len() == HEADER_BYTES + body.len(),
{
    let buf = frame(tag, body) + rest;
    let length = crate::bytes::u32_le(length_field(body));
    crate::bytes::lemma_u32_le_value(length_field(body));
    assert(buf.skip(1).take(4) =~= length);
    assert(forall|i: int| 0 <= i < 4 ==> buf.skip(1)[i] == #[trigger] length[i]);
    assert(body_at(buf) =~= body);
}

/// No proper prefix of a frame is a whole frame.
pub proof fn lemma_frame_needs_all(tag: u8, body: Seq<u8>, k: int)
    requires
        body.len() <= u32::MAX,
        0 <= k < frame(tag, body).len(),
    ensures
        !frame_complete(frame(tag, body).take(k)),
{
    let whole = frame(tag, body);
    lemma_frame_read_back(tag, body, Seq::empty());
    assert(whole + Seq::<u8>::empty() =~= whole);
    let part = whole.take(k);
    if k >= HEADER_BYTES {
        assert(forall|i: int| 0 <= i < 4 ==> part.skip(1)[i] == #[trigger] whole.skip(1)[i]);
    }
}

/// A whole frame stays what it is when more bytes arrive behind it.
pub proof fn lemma_frame_stable(buf: Seq<u8>, more: Seq<u8>)
    requires
        frame_complete(buf),
    ensures
        frame_complete(buf + more),
        (buf + more)[0] == buf[0],
        announced(buf + more) == announced(buf),
        body_at(buf + more) == body_at(buf),
{
    assert(forall|i: int| 0 <= i < 4 ==> (buf + more).skip(1)[i] == #[trigger] buf.skip(1)[i]);
    assert(body_at(buf + more) =~= body_at(buf));
}

/// A whole frame is the frame of its tag and its body.
pub proof fn lemma_frame_unique(buf: Seq<u8>)
    requires
        frame_complete(buf),
    ensures
        frame(buf[0], body_at(buf)) == buf.take(HEADER_BYTES + announced(buf)),
{
    let head = buf.subrange(1, 5);
    assert(forall|i: int| 0 <= i < 4 ==> head[i] == #[trigger] buf.skip(1)[i]);
    crate::bytes::lemma_u32_value_le(head);
    assert(crate::bytes::u32_value(head) == announced(buf));
    assert(frame(buf[0], body_at(buf)) =~= buf.take(HEADER_BYTES + announced(buf)));
}

/// What a client wrote is what the server reads, whatever follows it: the
/// message comes back and exactly its own bytes are taken. Bodies of 4 GiB
/// and more do not fit the length field and are left out.
pub proof fn lemma_client_message_read_back(msg: ClientMessageView, rest: Seq<u8>)
    requires
        client_body(msg).len() <= u32::MAX,
    ensures
        client_message_at(client_frame(msg) + rest) == Some((msg, client_frame(msg).len())),
{
    lemma_frame_read_back(client_tag(msg), client_body(msg), rest);
    if let ClientMessageView::Resize { rows, cols } = msg {
        let body = client_body(msg);
        assert(body.skip(2) =~= crate::bytes::u16_le(cols));
        crate::bytes::lemma_u16_le_value(rows);
        crate::bytes::lemma_u16_le_value(cols);
    }
}

/// What the server wrote is what a client reads, whatever follows it.
pub proof fn lemma_server_message_read_back(msg: ServerMessageView, rest: Seq<u8>)
    requires
        server_body(msg).len() <= u32::MAX,
    ensures
        server_message_at(server_frame(msg) + rest) == Some((msg, server_frame(msg).len())),
{
    lemma_frame_read_back(server_tag(msg), server_body(msg), rest);
    if let ServerMessageView::ShellExited { code } = msg {
        crate::bytes::lemma_u32_le_value(crate::bytes::i32_bits(code));
        crate::bytes::lemma_i32_bits(code);
    }
}

/// Until the last byte of a client's message has arrived, nothing is read.
pub proof fn lemma_client_message_needs_all(msg: ClientMessageView, k: int)
    requires
        client_body(msg).len() <= u32::MAX,
        0 <= k < client_frame(msg).len(),
    ensures
        client_message_at(client_frame(msg).take(k)) is None,
{
    lemma_frame_needs_all(client_tag(msg), client_body(msg), k);
}

/// Until the last byte of a server's message has arrived, nothing is read.
pub proof fn lemma_server_message_needs_all(msg: ServerMessageView, k: int)
    requires
        server_body(msg).len() <= u32::MAX,
        0 <= k < server_frame(msg).len(),
    ensures
        server_message_at(server_frame(msg).take(k)) is None,
{
    lemma_frame_needs_all(server_tag(msg), server_body(msg), k);
}

/// A client's message takes at least a header and never more than there is,
/// and bytes that arrive behind it change nothing about it.
pub proof fn lemma_client_message_stable(buf: Seq<u8>, more: Seq<u8>)
    requires
        client_message_at(buf) is Some,
    ensures
        HEADER_BYTES <= client_message_at(buf).unwrap().1 <= buf.len(),
        client_message_at(buf + more) == client_message_at(buf),
{
    lemma_frame_stable(buf, more);
}

/// The same of a server's message.
pub proof fn lemma_server_message_stable(buf: Seq<u8>, more: Seq<u8>)
    requires
        server_message_at(buf) is Some,
    ensures
        HEADER_BYTES <= server_message_at(buf).unwrap().1 <= buf.len(),
        server_message_at(buf + more) == server_message_at(buf),
{
    lemma_frame_stable(buf, more);
}

/// A whole frame that is no client's message blocks the stream for good: no
/// further bytes make anything readable.
pub proof fn lemma_broken_client_frame_blocks(buf: Seq<u8>, more: Seq<u8>)
    requires
        frame_complete(buf),
        client_message_at(buf) is None,
    ensures
        client_message_at(buf + more) is None,
{
    lemma_frame_stable(buf, more);
}

/// A whole frame that is no server's message blocks the stream for good.
pub proof fn lemma_broken_server_frame_blocks(buf: Seq<u8>, more: Seq<u8>)
    requires
        frame_complete(buf),
        server_message_at(buf) is None,
    ensures
        server_message_at(buf + more) is None,
{
    lemma_frame_stable(buf, more);
}

/// The bytes taken for a client's message are the bytes of that message. A
/// detach request with a body is read, too, and is left out.
pub proof fn lemma_client_message_unique(buf: Seq<u8>)
    requires
        client_message_at(buf) matches Some((msg, _)) && msg !is Detach,
    ensures
        client_frame(client_message_at(buf).unwrap().0) == buf.take(
            client_message_at(buf).unwrap().1 as int,
        ),
{
    lemma_frame_unique(buf);
    let msg = client_message_at(buf).unwrap().0;
    let body = body_at(buf);
    if let ClientMessageView::Resize { rows, cols } = msg {
        crate::bytes::lemma_u16_value_le(body.take(2));
        crate::bytes::lemma_u16_value_le(body.skip(2));
        assert(client_body(msg) =~= body);
    }
}

/// The bytes taken for a server's message are the bytes of that message.
pub proof fn lemma_server_message_unique(buf: Seq<u8>)
    requires
        server_message_at(buf) is Some,
    ensures
        server_frame(server_message_at(buf).unwrap().0) == buf.take(
            server_message_at(buf).unwrap().1 as int,
        ),
{
    lemma_frame_unique(buf);
    let msg = server_message_at(buf).unwrap().0;
    let body = body_at(buf);
    if let ServerMessageView::ShellExited { code } = msg {
        crate::bytes::lemma_u32_value_le(body);
        assert(crate::bytes::i32_bits(code) == crate::bytes::u32_value(body));
    }
}

/// The bytes of a frame, one by one: the tag, the length of the body from its
/// lowest byte up, and the body.
pub proof fn lemma_frame_bytes(tag: u8, body: Seq<u8>)
    ensures
        frame(tag, body).len() == 5 + body.len(),
        frame(tag, body)[0] == tag,
        frame(tag, body)[1] == body.len() % 256,
        frame(tag, body)[2] == body.len() / 256 % 256,
        frame(tag, body)[3] == body.len() / 65536 % 256,
        frame(tag, body)[4] == body.len() / 16777216 % 256,
        frame(tag, body).skip(5) == body,
{
    let n = body.len();
    let m = n % 0x1_0000_0000;
    let q = n / 0x1_0000_0000;
    assert(n == q * 0x1_0000_0000 + m);
    assert(m % 256 == n % 256);
    assert(m / 256 % 256 == n / 256 % 256) by {
        assert(n / 256 == q * 16777216 + m / 256);
    }
    assert(m / 65536 % 256 == n / 65536 % 256) by {
        assert(n / 65536 == q * 65536 + m / 65536);
    }
    assert(m / 16777216 % 256 == n / 16777216 % 256) by {
        assert(n / 16777216 == q * 256 + m / 16777216);
    }
    assert(m / 16777216 < 256);
    assert(frame(tag, body).skip(5) =~= body);
}

/// The bytes of every message of a client: input is tagged 1 and carried as it
/// is; a size is tagged 2, rows first, each number from its lower byte up; a
/// request to detach is tagged 3 and has no body.
pub proof fn lemma_client_message_bytes(bytes: Seq<u8>, rows: u16, cols: u16)
    ensures
        client_frame(ClientMessageView::Input(bytes)) == frame(1, bytes),
        client_frame(ClientMessageView::Resize { rows, cols }) == frame(
            2,
            seq![
                (rows % 256) as u8,
                (rows / 256) as u8,
                (cols % 256) as u8,
                (cols / 256) as u8,
            ],
        ),
        client_frame(ClientMessageView::Detach) == frame(3, Seq::empty()),
{
    assert(client_body(ClientMessageView::Resize { rows, cols }) =~= seq![
        (rows % 256) as u8,
        (rows / 256) as u8,
        (cols % 256) as u8,
        (cols / 256) as u8,
    ]);
}

/// The bytes of every message of the server: output is tagged 1 and carried as
/// it is; an exit code is tagged 2 and stands in two's complement, from its
/// lowest byte up.
pub proof fn lemma_server_message_bytes(bytes: Seq<u8>, code: i32)
    ensures
        server_frame(ServerMessageView::Output(bytes)) == frame(1, bytes),
        ({
            let body = server_body(ServerMessageView::ShellExited { code });
            let sum = body[0] + 256 * body[1] + 65536 * body[2] + 16777216 * body[3];
            &&& server_frame(ServerMessageView::ShellExited { code }) == frame(2, body)
            &&& body.len() == 4
            &&& code >= 0 ==> sum == code
            &&& code < 0 ==> sum == code + 0x1_0000_0000
        }),
{
    crate::bytes::lemma_bytes_are_digits(0, crate::bytes::i32_bits(code));
}

/// Any other frame is no message: the tag must be one of the client's, and a
/// size must have four bytes. A request to detach is read whatever it carries.
pub proof fn lemma_client_frames_are_told_apart(tag: u8, body: Seq<u8>, rest: Seq<u8>)
    requires
        body.len() <= u32::MAX,
    ensures
        client_message_at(frame(tag, body) + rest) is Some <==> tag == 1 || tag == 3 || (tag == 2
            && body.len() == 4),
        tag == 1 ==> client_message_at(frame(tag, body) + rest) == Some(
            (ClientMessageView::Input(body), 5 + body.len()),
        ),
        tag == 3 ==> client_message_at(frame(tag, body) + rest) == Some(
            (ClientMessageView::Detach, 5 + body.len()),
        ),
        tag == 2 ==> (client_message_at(frame(tag, body) + rest) matches Some((msg, n)) ==> {
            &&& n == 9
            &&& msg matches ClientMessageView::Resize { rows, cols }
            &&& rows == body[0] + 256 * body[1]
            &&& cols == body[2] + 256 * body[3]
        }),
{
    lemma_frame_read_back(tag, body, rest);
    crate::bytes::lemma_value_is_digits(body);
    if body.len() == 4 {
        crate::bytes::lemma_value_is_digits(body.skip(2));
        assert(body.skip(2)[0] == body[2] && body.skip(2)[1] == body[3]);
    }
}

/// The same of the server's frames.
pub proof fn lemma_server_frames_are_told_apart(tag: u8, body: Seq<u8>, rest: Seq<u8>)
    requires
        body.len() <= u32::MAX,
    ensures
        server_message_at(frame(tag, body) + rest) is Some <==> tag == 1 || (tag == 2 && body.len()
            == 4),
        tag == 1 ==> server_message_at(frame(tag, body) + rest) == Some(
            (ServerMessageView::Output(body), 5 + body.len()),
        ),
        tag == 2 ==> (server_message_at(frame(tag, body) + rest) matches Some((msg, n)) ==> {
            &&& n == 9
            &&& msg matches ServerMessageView::ShellExited { code }
            &&& (code - (body[0] + 256 * body[1] + 65536 * body[2] + 16777216 * body[3]))
                % 0x1_0000_0000 == 0
        }),
{
    lemma_frame_read_back(tag, body, rest);
    crate::bytes::lemma_value_is_digits(body);
}

/// Fewer bytes than the header announces are no message.
pub proof fn lemma_too_few_bytes_are_no_message(buf: Seq<u8>)
    requires
        buf.len() < 5 || buf.len() < 5 + buf[1] + 256 * buf[2] + 65536 * buf[3] + 16777216 * buf[4],
    ensures
        !frame_complete(buf),
        client_message_at(buf) is None,
        server_message_at(buf) is None,
{
    if buf.len() >= 5 {
        crate::bytes::lemma_value_is_digits(buf.skip(1));
        assert(buf.skip(1)[0] == buf[1] && buf.skip(1)[1] == buf[2] && buf.skip(1)[2] == buf[3]
            && buf.skip(1)[3] == buf[4]);
    }
}

/// A message says what it holds: its bytes, its two numbers each under its own
/// name, its code.
pub proof fn lemma_messages_say_what_they_hold(bytes: Vec<u8>, rows: u16, cols: u16, code: i32)
    ensures
        ClientMessage::Input(bytes)@ == ClientMessageView::Input(bytes@),
        (ClientMessage::Resize { rows, cols })@ == (ClientMessageView::Resize { rows, cols }),
        ClientMessage::Detach@ == ClientMessageView::Detach,
        ServerMessage::Output(bytes)@ == ServerMessageView::Output(bytes@),
        (ServerMessage::ShellExited { code })@ == (ServerMessageView::ShellExited { code }),
{
}

} // verus!
