use aurasync::event::{Action, SyncEvent};
use aurasync::wire::{decode_event, encode_event, encode_frame, parse_frame_len};

fn sample_event() -> SyncEvent {
    SyncEvent {
        action: Action::Create,
        file_path: b"a.txt".to_vec(),
        new_path: Vec::new(),
        file_size: 1,
        checksum: b"ab".to_vec(),
        permissions: 0,
    }
}

#[test]
fn encode_event_exact_bytes() {
    let ev = sample_event();
    let bytes = encode_event(&ev);
    let expected: Vec<u8> = vec![
        8, 0, // action = Create
        18, 5, b'a', b'.', b't', b'x', b't', // file_path = "a.txt"
        26, 0, // new_path = ""
        32, 1, // file_size = 1
        42, 2, b'a', b'b', // checksum = "ab"
        48, 0, // permissions = 0
    ];
    assert_eq!(bytes, expected);
}

#[test]
fn encode_varint_multibyte() {
    let mut ev = sample_event();
    ev.file_size = 300;
    let bytes = encode_event(&ev);
    // 300 = 0b1_0010_1100 -> 0xAC 0x02.
    let pos = bytes.windows(3).position(|w| w == [32, 172, 2]);
    assert!(pos.is_some());
}

#[test]
fn encode_decode_roundtrip() {
    let cases = vec![
        sample_event(),
        SyncEvent {
            action: Action::Delete,
            file_path: b"notes/todo.txt".to_vec(),
            new_path: Vec::new(),
            file_size: 0,
            checksum: Vec::new(),
            permissions: 0,
        },
        SyncEvent {
            action: Action::Rename,
            file_path: b"a.txt".to_vec(),
            new_path: b"b.txt".to_vec(),
            file_size: 0,
            checksum: b"0123456789abcdef".to_vec(),
            permissions: 0o644,
        },
        SyncEvent {
            action: Action::Modify,
            file_path: vec![0xc3, 0xa9, b'.', b'd'],
            new_path: Vec::new(),
            file_size: u64::MAX,
            checksum: b"ff".to_vec(),
            permissions: u32::MAX,
        },
        SyncEvent {
            action: Action::AttrChange,
            file_path: Vec::new(),
            new_path: Vec::new(),
            file_size: 0,
            checksum: Vec::new(),
            permissions: 0,
        },
        SyncEvent { file_size: 127, ..sample_event() },
        SyncEvent { file_size: 128, ..sample_event() },
        SyncEvent { file_size: 16384, ..sample_event() },
    ];
    for ev in cases {
        let bytes = encode_event(&ev);
        let back = decode_event(&bytes).expect("round trip must decode");
        assert_eq!(back.action, ev.action);
        assert_eq!(back.file_path, ev.file_path);
        assert_eq!(back.new_path, ev.new_path);
        assert_eq!(back.file_size, ev.file_size);
        assert_eq!(back.checksum, ev.checksum);
        assert_eq!(back.permissions, ev.permissions);
    }
}

#[test]
fn frame_has_length_prefix() {
    let ev = sample_event();
    let payload = encode_event(&ev);
    let frame = encode_frame(&ev).expect("small payload must frame");
    assert_eq!(frame.len(), 4 + payload.len());
    let n = payload.len() as u32;
    assert_eq!(&frame[0..4], n.to_be_bytes().as_slice());
    assert_eq!(&frame[4..], payload.as_slice());
}

#[test]
fn frame_len_parses_back() {
    let ev = sample_event();
    let frame = encode_frame(&ev).expect("small payload must frame");
    let len = parse_frame_len(&frame[0..4]);
    assert_eq!(len as usize, frame.len() - 4);
    let big = [0x12u8, 0x34, 0x56, 0x78];
    assert_eq!(parse_frame_len(&big), 0x12345678);
}

#[test]
fn decode_accepts_empty_payload_as_defaults() {
    let ev = decode_event(&[]).expect("empty payload is all defaults");
    assert_eq!(ev.action, Action::Create);
    assert!(ev.file_path.is_empty());
    assert!(ev.new_path.is_empty());
    assert_eq!(ev.file_size, 0);
    assert!(ev.checksum.is_empty());
    assert_eq!(ev.permissions, 0);
}

#[test]
fn decode_accepts_reordered_fields() {
    // file_size first, then action = Delete.
    let ev = decode_event(&[32, 5, 8, 2]).expect("known fields in any order");
    assert_eq!(ev.file_size, 5);
    assert_eq!(ev.action, Action::Delete);
}

#[test]
fn decode_rejects_truncated_varint() {
    assert!(decode_event(&[32]).is_err());
    assert!(decode_event(&[32, 0x80]).is_err());
}

#[test]
fn decode_rejects_short_chunk() {
    // file_path claims 5 bytes but only 2 follow.
    assert!(decode_event(&[18, 5, b'a', b'b']).is_err());
}

#[test]
fn decode_rejects_unknown_field() {
    assert!(decode_event(&[56, 0]).is_err());
}

#[test]
fn decode_rejects_bad_action_code() {
    assert!(decode_event(&[8, 9]).is_err());
}

#[test]
fn decode_rejects_oversize_permissions() {
    // permissions = 2^32 does not fit in 32 bits.
    assert!(decode_event(&[48, 0x80, 0x80, 0x80, 0x80, 0x10]).is_err());
}
