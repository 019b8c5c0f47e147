use mini_tmux::protocol::{
    decode_client_message, decode_frame, decode_server_message, encode_client_message,
    encode_frame, encode_server_message, ClientMessage, ServerMessage,
};

#[test]
fn frames_have_tag_length_and_body() {
    assert_eq!(encode_frame(7, b"ab"), [7u8, 2, 0, 0, 0, b'a', b'b']);
    assert_eq!(encode_frame(0, b""), [0u8, 0, 0, 0, 0]);
    let long: Vec<u8> = vec![1u8; 0x1_0203];
    let frame = encode_frame(9, &long);
    assert_eq!(&frame[..5], &[9u8, 0x03, 0x02, 0x01, 0x00]);
    assert_eq!(frame.len(), 5 + 0x1_0203);
}

#[test]
fn frames_are_read_back() {
    let mut buf: Vec<u8> = encode_frame(3, b"xyz");
    buf.extend_from_slice(b"more");
    let (tag, body, consumed) = decode_frame(&buf).unwrap();
    assert_eq!(tag, 3u8);
    assert_eq!(body.to_vec(), b"xyz".to_vec());
    assert_eq!(consumed, 8usize);
}

#[test]
fn frames_that_are_not_whole_wait() {
    let frame: Vec<u8> = encode_frame(3, b"xyz");
    for end in 0usize..frame.len() {
        assert!(decode_frame(&frame[..end]).is_none());
    }
    assert!(decode_frame(&[1u8, 0xff, 0xff, 0xff, 0xff, 0, 0]).is_none());
}

#[test]
fn client_messages_have_their_bytes() {
    assert_eq!(
        encode_client_message(&ClientMessage::Input(b"hi".to_vec())),
        [1u8, 2, 0, 0, 0, b'h', b'i']
    );
    assert_eq!(
        encode_client_message(&ClientMessage::Resize { rows: 0x0102, cols: 0x0304 }),
        [2u8, 4, 0, 0, 0, 0x02, 0x01, 0x04, 0x03]
    );
    assert_eq!(encode_client_message(&ClientMessage::Detach), [3u8, 0, 0, 0, 0]);
}

#[test]
fn server_messages_have_their_bytes() {
    assert_eq!(
        encode_server_message(&ServerMessage::Output(b"ok".to_vec())),
        [1u8, 2, 0, 0, 0, b'o', b'k']
    );
    assert_eq!(
        encode_server_message(&ServerMessage::ShellExited { code: -1 }),
        [2u8, 4, 0, 0, 0, 0xff, 0xff, 0xff, 0xff]
    );
    assert_eq!(
        encode_server_message(&ServerMessage::ShellExited { code: 0x0102_0304 }),
        [2u8, 4, 0, 0, 0, 4, 3, 2, 1]
    );
}

#[test]
fn client_messages_are_read_back() {
    let input: Vec<u8> = encode_client_message(&ClientMessage::Input(b"hello".to_vec()));
    let resize: Vec<u8> = encode_client_message(&ClientMessage::Resize { rows: 24, cols: 80 });
    let detach: Vec<u8> = encode_client_message(&ClientMessage::Detach);
    assert_eq!(
        decode_client_message(&input),
        Some((ClientMessage::Input(b"hello".to_vec()), 10usize))
    );
    assert_eq!(
        decode_client_message(&resize),
        Some((ClientMessage::Resize { rows: 24, cols: 80 }, 9usize))
    );
    assert_eq!(decode_client_message(&detach), Some((ClientMessage::Detach, 5usize)));
    let mut both: Vec<u8> = resize.clone();
    both.extend_from_slice(&detach);
    assert_eq!(
        decode_client_message(&both),
        Some((ClientMessage::Resize { rows: 24, cols: 80 }, 9usize))
    );
    for end in 0usize..resize.len() {
        assert_eq!(decode_client_message(&resize[..end]), None);
    }
}

#[test]
fn server_messages_are_read_back() {
    for code in [0i32, 1, 127, -1, i32::MAX, i32::MIN] {
        let frame: Vec<u8> = encode_server_message(&ServerMessage::ShellExited { code });
        assert_eq!(
            decode_server_message(&frame),
            Some((ServerMessage::ShellExited { code }, 9usize))
        );
        for end in 0usize..frame.len() {
            assert_eq!(decode_server_message(&frame[..end]), None);
        }
    }
    let empty: Vec<u8> = encode_server_message(&ServerMessage::Output(Vec::new()));
    assert_eq!(
        decode_server_message(&empty),
        Some((ServerMessage::Output(Vec::new()), 5usize))
    );
}

#[test]
fn unknown_tags_and_short_bodies_are_no_messages() {
    assert_eq!(decode_client_message(&[0u8, 0, 0, 0, 0]), None);
    assert_eq!(decode_client_message(&[4u8, 0, 0, 0, 0]), None);
    assert_eq!(decode_client_message(&[2u8, 3, 0, 0, 0, 1, 0, 2]), None);
    assert_eq!(decode_server_message(&[3u8, 0, 0, 0, 0]), None);
    assert_eq!(decode_server_message(&[2u8, 3, 0, 0, 0, 1, 0, 2]), None);
    // Such a frame stays in the way of whatever follows it.
    assert_eq!(decode_client_message(&[9u8, 0, 0, 0, 0, 3, 0, 0, 0, 0]), None);
}
