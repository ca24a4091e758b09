use aurasync::engine::{apply_inbound, local_removal, local_upsert, local_upsert_from_contents, InboundPlan};
use aurasync::event::{Action, SyncEvent};
use aurasync::pending::PendingRemovals;
use aurasync::registry::SyncRegistry;
use aurasync::wire::{encode_frame, encode_frame_with_body};

fn hex_of(data: &[u8]) -> Vec<u8> {
    blake3::hash(data).to_hex().as_bytes().to_vec()
}

fn peer_event(action: Action, path: &[u8], size: u64, checksum: Vec<u8>) -> SyncEvent {
    SyncEvent {
        action,
        file_path: path.to_vec(),
        new_path: Vec::new(),
        file_size: size,
        checksum,
        permissions: 0,
    }
}

#[test]
fn create_from_peer() {
    // Peer sends Create notes/todo.txt, 11 body bytes follow.
    let mut reg = SyncRegistry::new();
    let mut pending = PendingRemovals::new();
    let h = hex_of(b"hello world");
    let ev = peer_event(Action::Create, b"notes/todo.txt", 11, h.clone());
    let plan = apply_inbound(&mut reg, &mut pending, &ev);
    assert_eq!(
        plan,
        InboundPlan::WriteFile {
            path: b"notes/todo.txt".to_vec(),
            temp: b"notes/todo.txt.tmp".to_vec(),
            size: 11,
        }
    );
    // Registry primed with the peer's checksum.
    assert_eq!(reg.get(b"notes/todo.txt"), Some(h.clone()));
    // The watcher activity caused by writing the file is suppressed.
    let echo = local_upsert_from_contents(
        &mut reg,
        &mut pending,
        b"notes/todo.txt",
        true,
        b"hello world",
        11,
    );
    assert!(echo.is_none());
}

#[test]
fn local_create_emits_frame_with_body() {
    // User creates a.txt with byte `x`.
    let mut reg = SyncRegistry::new();
    let mut pending = PendingRemovals::new();
    let out = local_upsert_from_contents(&mut reg, &mut pending, b"a.txt", true, b"x", 1)
        .expect("a fresh local file must be sent");
    assert_eq!(out.action, Action::Create);
    assert_eq!(out.file_path, b"a.txt".to_vec());
    assert_eq!(out.file_size, 1);
    assert_eq!(out.checksum, hex_of(b"x"));
    assert!(out.new_path.is_empty());
    assert_eq!(out.permissions, 0);
    // Registry records the digest.
    assert_eq!(reg.get(b"a.txt"), Some(hex_of(b"x")));
    // The transmission is 4 length bytes, the payload, then exactly the
    // one body byte.
    let buf = encode_frame_with_body(&out, b"x").expect("coherent body must frame");
    let len = u32::from_be_bytes([buf[0], buf[1], buf[2], buf[3]]) as usize;
    assert_eq!(buf.len(), 4 + len + 1);
    assert_eq!(buf[buf.len() - 1], b'x');
    // A body that no longer matches the advertised size is refused.
    assert!(encode_frame_with_body(&out, b"xy").is_none());
}

#[test]
fn echo_after_inbound_create_is_dropped() {
    // Peer sends Create a.txt with body `x`; the engine writes the file and
    // the watcher fires.  No outbound frame may result.
    let mut reg = SyncRegistry::new();
    let mut pending = PendingRemovals::new();
    let h = hex_of(b"x");
    let ev = peer_event(Action::Create, b"a.txt", 1, h.clone());
    let _ = apply_inbound(&mut reg, &mut pending, &ev);
    let echo = local_upsert_from_contents(&mut reg, &mut pending, b"a.txt", true, b"x", 1);
    assert!(echo.is_none());
    // A later, genuinely different edit is sent.
    let edit = local_upsert_from_contents(&mut reg, &mut pending, b"a.txt", false, b"xy", 2)
        .expect("a real edit must be sent");
    assert_eq!(edit.action, Action::Modify);
    assert_eq!(edit.checksum, hex_of(b"xy"));
}

#[test]
fn modify_and_attr_change_from_peer() {
    let mut reg = SyncRegistry::new();
    let mut pending = PendingRemovals::new();
    let h = hex_of(b"xy");
    let plan = apply_inbound(&mut reg, &mut pending, &peer_event(Action::Modify, b"a.txt", 2, h.clone()));
    assert_eq!(
        plan,
        InboundPlan::WriteFile { path: b"a.txt".to_vec(), temp: b"a.txt.tmp".to_vec(), size: 2 }
    );
    assert_eq!(reg.get(b"a.txt"), Some(h.clone()));
    // Attribute changes are carried by the schema but call for no file work.
    let plan = apply_inbound(&mut reg, &mut pending, &peer_event(Action::AttrChange, b"a.txt", 0, h.clone()));
    assert_eq!(plan, InboundPlan::NoOp);
    assert_eq!(reg.get(b"a.txt"), Some(h));
}

#[test]
fn delete_from_peer_clears_registry_and_suppresses_echo() {
    let mut reg = SyncRegistry::new();
    let mut pending = PendingRemovals::new();
    let h = hex_of(b"x");
    let _ = apply_inbound(&mut reg, &mut pending, &peer_event(Action::Create, b"a.txt", 1, h));
    // Peer deletes a.txt without a prior hash.
    let plan = apply_inbound(&mut reg, &mut pending, &peer_event(Action::Delete, b"a.txt", 0, Vec::new()));
    assert_eq!(plan, InboundPlan::RemoveFile { path: b"a.txt".to_vec() });
    assert_eq!(reg.get(b"a.txt"), None);
    // The watcher's report of our own removal is suppressed.
    assert!(local_removal(&mut reg, &mut pending, b"a.txt").is_none());
    assert_eq!(reg.get(b"a.txt"), None);
}

#[test]
fn delete_from_peer_with_hash_suppresses_watcher_remove() {
    let mut reg = SyncRegistry::new();
    let mut pending = PendingRemovals::new();
    let h = hex_of(b"x");
    let _ = apply_inbound(&mut reg, &mut pending, &peer_event(Action::Create, b"a.txt", 1, h.clone()));
    // Peer deletes a.txt and names the hash it last knew.
    let plan = apply_inbound(&mut reg, &mut pending, &peer_event(Action::Delete, b"a.txt", 0, h.clone()));
    assert_eq!(plan, InboundPlan::RemoveFile { path: b"a.txt".to_vec() });
    assert_eq!(reg.get(b"a.txt"), None);
    // The watcher's remove event finds the mark and emits nothing.
    assert!(local_removal(&mut reg, &mut pending, b"a.txt").is_none());
    assert_eq!(reg.get(b"a.txt"), None);
    // The mark is consumed: a later, genuine local delete is reported.
    let _ = local_upsert_from_contents(&mut reg, &mut pending, b"a.txt", true, b"y", 1);
    let out = local_removal(&mut reg, &mut pending, b"a.txt").expect("a real delete is sent");
    assert_eq!(out.action, Action::Delete);
    assert_eq!(out.checksum, hex_of(b"y"));
}

#[test]
fn rename_away_remove_is_suppressed() {
    let mut reg = SyncRegistry::new();
    let mut pending = PendingRemovals::new();
    let h = hex_of(b"x");
    let _ = apply_inbound(&mut reg, &mut pending, &peer_event(Action::Create, b"a.txt", 1, h.clone()));
    let mut ev = peer_event(Action::Rename, b"a.txt", 0, h.clone());
    ev.new_path = b"b.txt".to_vec();
    let plan = apply_inbound(&mut reg, &mut pending, &ev);
    assert_eq!(
        plan,
        InboundPlan::RenameFile { from: b"a.txt".to_vec(), to: b"b.txt".to_vec() }
    );
    // The watcher's remove event for the renamed-away path emits nothing.
    assert!(local_removal(&mut reg, &mut pending, b"a.txt").is_none());
    assert_eq!(reg.get(b"a.txt"), None);
}

#[test]
fn recreation_clears_pending_mark() {
    let mut reg = SyncRegistry::new();
    let mut pending = PendingRemovals::new();
    let h = hex_of(b"x");
    let _ = apply_inbound(&mut reg, &mut pending, &peer_event(Action::Delete, b"a.txt", 0, h));
    // The user recreates the file before the watcher reports the removal:
    // the create consumes the stale mark...
    let out = local_upsert_from_contents(&mut reg, &mut pending, b"a.txt", true, b"z", 1);
    assert!(out.is_some());
    // ...so a genuine local delete afterwards is still reported.
    let out = local_removal(&mut reg, &mut pending, b"a.txt").expect("a real delete is sent");
    assert_eq!(out.checksum, hex_of(b"z"));
}

#[test]
fn local_delete_emits_last_digest() {
    let mut reg = SyncRegistry::new();
    let mut pending = PendingRemovals::new();
    let _ = local_upsert_from_contents(&mut reg, &mut pending, b"a.txt", true, b"x", 1);
    let out = local_removal(&mut reg, &mut pending, b"a.txt").expect("a local delete must be sent");
    assert_eq!(out.action, Action::Delete);
    assert_eq!(out.file_path, b"a.txt".to_vec());
    assert_eq!(out.file_size, 0);
    assert_eq!(out.checksum, hex_of(b"x"));
    assert_eq!(reg.get(b"a.txt"), None);
    // A delete frame carries no body; the frame is the whole transmission.
    let frame = encode_frame(&out).expect("small event must frame");
    let len = u32::from_be_bytes([frame[0], frame[1], frame[2], frame[3]]) as usize;
    assert_eq!(frame.len(), 4 + len);
}

#[test]
fn ignored_name_emits_nothing_and_leaves_registry() {
    let mut reg = SyncRegistry::new();
    let mut pending = PendingRemovals::new();
    let out = local_upsert_from_contents(&mut reg, &mut pending, b".DS_Store", true, b"junk", 4);
    assert!(out.is_none());
    assert_eq!(reg.get(b".DS_Store"), None);
    let out = local_upsert_from_contents(&mut reg, &mut pending, b"dir/b.tmp", false, b"junk", 4);
    assert!(out.is_none());
    assert_eq!(reg.get(b"dir/b.tmp"), None);
    let out = local_removal(&mut reg, &mut pending, b"draft~");
    assert!(out.is_none());
}

#[test]
fn rename_from_peer_plans_the_move() {
    let mut reg = SyncRegistry::new();
    let mut pending = PendingRemovals::new();
    let mut ev = peer_event(Action::Rename, b"a.txt", 0, hex_of(b"x"));
    ev.new_path = b"b.txt".to_vec();
    let plan = apply_inbound(&mut reg, &mut pending, &ev);
    assert_eq!(
        plan,
        InboundPlan::RenameFile { from: b"a.txt".to_vec(), to: b"b.txt".to_vec() }
    );
    // A rename with no destination does nothing.
    let ev = peer_event(Action::Rename, b"a.txt", 0, Vec::new());
    let plan = apply_inbound(&mut reg, &mut pending, &ev);
    assert_eq!(plan, InboundPlan::NoOp);
}

#[test]
fn inbound_paths_are_normalized() {
    let mut reg = SyncRegistry::new();
    let mut pending = PendingRemovals::new();
    let h = hex_of(b"x");
    let plan = apply_inbound(&mut reg, &mut pending, &peer_event(Action::Create, b"/a.txt", 1, h.clone()));
    assert_eq!(
        plan,
        InboundPlan::WriteFile { path: b"a.txt".to_vec(), temp: b"a.txt.tmp".to_vec(), size: 1 }
    );
    // The registry key has no leading slash.
    assert_eq!(reg.get(b"a.txt"), Some(h));
    assert_eq!(reg.get(b"/a.txt"), None);
}

#[test]
fn rehashing_received_body_matches_carried_checksum() {
    // A Create whose checksum was honestly computed over its body: writing
    // the body and re-hashing it locally yields that very checksum.
    let body = b"hello world";
    let carried = hex_of(body);
    let mut reg = SyncRegistry::new();
    let mut pending = PendingRemovals::new();
    let _ = apply_inbound(&mut reg, &mut pending, &peer_event(Action::Create, b"n.txt", 11, carried.clone()));
    assert_eq!(hex_of(body), carried);
    // And so the re-hash is suppressed as an echo.
    assert!(local_upsert_from_contents(&mut reg, &mut pending, b"n.txt", true, body, 11).is_none());
}

#[test]
fn digest_is_hex_not_contents() {
    let mut reg = SyncRegistry::new();
    let mut pending = PendingRemovals::new();
    let out = local_upsert(&mut reg, &mut pending, b"c.txt", true, hex_of(b"data"), 4)
        .expect("fresh file is sent");
    // 64 lowercase hex characters, not the input bytes.
    assert_eq!(out.checksum.len(), 64);
    assert_ne!(out.checksum, b"data".to_vec());
    assert!(out.checksum.iter().all(|b| b.is_ascii_hexdigit() && !b.is_ascii_uppercase()));
    assert_eq!(out.checksum, hex_of(b"data"));
}

#[test]
fn registry_operations_are_byte_exact() {
    let mut reg = SyncRegistry::new();
    reg.insert(b"k".to_vec(), b"v1".to_vec());
    assert_eq!(reg.get(b"k"), Some(b"v1".to_vec()));
    reg.insert(b"k".to_vec(), b"v2".to_vec());
    assert_eq!(reg.get(b"k"), Some(b"v2".to_vec()));
    assert_eq!(reg.get(b"K"), None);
    assert_eq!(reg.remove(b"k"), Some(b"v2".to_vec()));
    assert_eq!(reg.remove(b"k"), None);
    assert_eq!(reg.get(b"k"), None);
}
