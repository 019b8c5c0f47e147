use mini_tmux::keys::{process_input, DETACH_KEY, PREFIX_KEY};

#[test]
fn passes_through_normal_input() {
    let mut pending = false;
    let (forward, detach) = process_input(b"ls -l\n", &mut pending);
    assert_eq!(forward, b"ls -l\n");
    assert!(!detach);
    assert!(!pending);
}

#[test]
fn detects_detach_sequence() {
    let mut pending = false;
    let (forward, detach) = process_input(&[PREFIX_KEY, DETACH_KEY], &mut pending);
    assert!(forward.is_empty());
    assert!(detach);
}

#[test]
fn detects_detach_across_reads() {
    let mut pending = false;

    let (forward, detach) = process_input(&[PREFIX_KEY], &mut pending);
    assert!(forward.is_empty());
    assert!(!detach);
    assert!(pending, "prefixを受け取った状態が次のread()まで保持される");

    let (forward, detach) = process_input(&[DETACH_KEY], &mut pending);
    assert!(forward.is_empty());
    assert!(detach);
}

#[test]
fn forwards_bytes_before_detach() {
    let mut pending = false;
    let (forward, detach) = process_input(b"abc\x02d", &mut pending);
    assert_eq!(forward, b"abc");
    assert!(detach);
}

#[test]
fn double_prefix_sends_literal_prefix() {
    let mut pending = false;
    let (forward, detach) = process_input(&[PREFIX_KEY, PREFIX_KEY], &mut pending);
    assert_eq!(forward, [PREFIX_KEY]);
    assert!(!detach);
    assert!(!pending);
}

#[test]
fn unknown_command_forwards_prefix_and_key() {
    let mut pending = false;
    let (forward, detach) = process_input(&[PREFIX_KEY, b'z'], &mut pending);
    assert_eq!(forward, [PREFIX_KEY, b'z']);
    assert!(!detach);
}

#[test]
fn lone_prefix_is_held_back() {
    let mut pending = false;
    let (forward, _) = process_input(&[PREFIX_KEY], &mut pending);
    assert!(forward.is_empty());
    assert!(pending);
}

#[test]
fn the_keys_are_control_b_and_d() {
    assert_eq!(PREFIX_KEY, 0x02u8);
    assert_eq!(DETACH_KEY, b'd');
}

#[test]
fn nothing_typed_is_nothing_sent() {
    let mut pending = true;
    let (forward, detach) = process_input(b"", &mut pending);
    assert!(forward.is_empty());
    assert!(!detach);
    assert!(pending);
}

#[test]
fn keys_after_detach_are_dropped() {
    let mut pending = false;
    let (forward, detach) = process_input(b"a\x02dxyz\x02", &mut pending);
    assert_eq!(forward, b"a");
    assert!(detach);
    assert!(!pending);
}

#[test]
fn interrupt_and_end_of_file_pass() {
    let mut pending = false;
    let (forward, detach) = process_input(&[0x03u8, 0x04, 0x1a], &mut pending);
    assert_eq!(forward, [0x03u8, 0x04, 0x1a]);
    assert!(!detach);
}

/// However the typed bytes are cut, the same bytes are forwarded.
#[test]
fn cuts_between_reads_do_not_matter() {
    let typed: &[u8] = b"a\x02\x02b\x02zc\x02";
    let mut whole_pending = false;
    let (whole, _) = process_input(typed, &mut whole_pending);
    assert_eq!(whole, b"a\x02b\x02zc");
    for cut in 0usize..typed.len() {
        let mut pending = false;
        let (mut first, _) = process_input(&typed[..cut], &mut pending);
        let (second, _) = process_input(&typed[cut..], &mut pending);
        first.extend_from_slice(&second);
        assert_eq!(first, whole);
        assert_eq!(pending, whole_pending);
    }
}

/// Whoever doubles every prefix key can send any bytes.
#[test]
fn doubled_prefixes_send_any_bytes() {
    let mut typed: Vec<u8> = Vec::new();
    let mut wanted: Vec<u8> = Vec::new();
    for byte in 0u8..=255 {
        wanted.push(byte);
        typed.push(byte);
        if byte == PREFIX_KEY {
            typed.push(byte);
        }
    }
    let mut pending = false;
    let (forward, detach) = process_input(&typed, &mut pending);
    assert_eq!(forward, wanted);
    assert!(!detach);
    assert!(!pending);
}
