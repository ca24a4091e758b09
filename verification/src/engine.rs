//! The connection session's decision core.
//!
//! A session multiplexes two sources: framed events arriving from the peer
//! and watcher events for local mutations.  Everything the session decides
//! — registry priming, echo suppression, the ignore filter, which file
//! operation an inbound event calls for, and which event (if any) a local
//! change sends out — is here, as verified functions over plain values.
//! The surrounding process performs the socket and file I/O those
//! decisions call for.
//!
//! Echo suppression works two ways.  A `Create` or `Modify` from the peer
//! primes the registry with the checksum it carries, so the watcher event
//! caused by writing the file hashes to the primed digest and is dropped.
//! A `Delete` or `Rename` from the peer leaves no contents behind to hash,
//! so the path it removes is marked in `PendingRemovals` instead, and the
//! removal decision consumes the mark and stays silent.

use vstd::prelude::*;
use crate::event::{Action, SyncEvent};
use crate::registry::SyncRegistry;
use crate::pending::PendingRemovals;
use crate::paths::{spec_trim_slashes, normalize_path};
use crate::ignore::{spec_is_ignored, spec_basename, is_ignore};
use crate::wire::{copy_bytes, bytes_eq};
use crate::hashing::{blake3_hex_of, hash_bytes};

verus! {

/// The byte suffix of a temporary file name.
pub open spec fn tmp_suffix() -> Seq<u8> {
    seq![46u8, 116u8, 109u8, 112u8]
}

/// The file operation an inbound event calls for, with every path relative
/// to the sync root and normalized.
#[derive(Debug, PartialEq, Eq)]
pub enum InboundPlan {
    /// Write exactly `size` body bytes from the stream to `temp`, flush,
    /// then atomically rename `temp` to `path`.
    WriteFile { path: Vec<u8>, temp: Vec<u8>, size: u64 },
    /// Remove `path`; a missing file is not an error.
    RemoveFile { path: Vec<u8> },
    /// Rename `from` to `to`.
    RenameFile { from: Vec<u8>, to: Vec<u8> },
    /// Nothing to do.
    NoOp,
}

/// True when the registry already holds `digest` for `key`: the observed
/// change is our own mutation (or a no-op) echoed back by the watcher.
pub open spec fn is_echo(m: Map<Seq<u8>, Seq<u8>>, key: Seq<u8>, digest: Seq<u8>) -> bool {
    m.contains_key(key) && m[key] == digest
}

/// Applies an inbound event to the registry and the suppression marks, and
/// says which file operation it calls for.
///
/// A `Create` or `Modify` primes the registry with the event's checksum
/// under the normalized path before anything else happens.  A `Delete`, or
/// a `Rename` away from the path, clears the registry entry and marks the
/// path so that the watcher's report of our own removal is not re-sent.
pub fn apply_inbound(reg: &mut SyncRegistry, pending: &mut PendingRemovals, ev: &SyncEvent) -> (plan:
    InboundPlan)
    requires
        old(pending).wf(),
    ensures
        final(pending).wf(),
        ({
            let key = spec_trim_slashes(ev.file_path@);
            &&& (ev.action == Action::Create || ev.action == Action::Modify) ==> {
                &&& final(reg).entries() == old(reg).entries().insert(key, ev.checksum@)
                &&& final(pending).marks() == old(pending).marks()
                &&& plan matches InboundPlan::WriteFile { path, temp, size } && path@ == key
                    && temp@ == key + tmp_suffix() && size == ev.file_size
            }
            &&& ev.action == Action::Delete ==> {
                &&& final(reg).entries() == old(reg).entries().remove(key)
                &&& final(pending).marks() == old(pending).marks().insert(key)
                &&& plan matches InboundPlan::RemoveFile { path } && path@ == key
            }
            &&& (ev.action == Action::Rename && ev.new_path@.len() > 0) ==> {
                &&& final(reg).entries() == old(reg).entries().remove(key)
                &&& final(pending).marks() == old(pending).marks().insert(key)
                &&& plan matches InboundPlan::RenameFile { from, to } && from@ == key && to@
                    == spec_trim_slashes(ev.new_path@)
            }
            &&& (ev.action == Action::Rename && ev.new_path@.len() == 0) ==> {
                &&& final(reg).entries() == old(reg).entries()
                &&& final(pending).marks() == old(pending).marks()
                &&& plan == InboundPlan::NoOp
            }
            &&& ev.action == Action::AttrChange ==> {
                &&& final(reg).entries() == old(reg).entries().insert(key, ev.checksum@)
                &&& final(pending).marks() == old(pending).marks()
                &&& plan == InboundPlan::NoOp
            }
        }),
{
    let key = normalize_path(ev.file_path.as_slice());
    match ev.action {
        Action::Create | Action::Modify => {
            reg.insert(copy_bytes(key.as_slice()), copy_bytes(ev.checksum.as_slice()));
            let mut temp = copy_bytes(key.as_slice());
            temp.push(46u8);
            temp.push(116u8);
            temp.push(109u8);
            temp.push(112u8);
            proof {
                assert(temp@ =~= spec_trim_slashes(ev.file_path@) + tmp_suffix());
            }
            InboundPlan::WriteFile { path: key, temp, size: ev.file_size }
        },
        Action::Delete => {
            let _ = reg.remove(key.as_slice());
            pending.mark(copy_bytes(key.as_slice()));
            InboundPlan::RemoveFile { path: key }
        },
        Action::Rename => {
            if ev.new_path.len() > 0 {
                let _ = reg.remove(key.as_slice());
                pending.mark(copy_bytes(key.as_slice()));
                InboundPlan::RenameFile { from: key, to: normalize_path(ev.new_path.as_slice()) }
            } else {
                InboundPlan::NoOp
            }
        },
        Action::AttrChange => {
            reg.insert(copy_bytes(key.as_slice()), copy_bytes(ev.checksum.as_slice()));
            InboundPlan::NoOp
        },
    }
}

/// The outbound decision for a watcher removal event.
///
/// `rel_path` is the watched path with the sync-root prefix already
/// stripped.  Ignored names are dropped untouched.  A marked path is our
/// own removal reported back: the mark is consumed, the registry entry
/// goes, and nothing is sent.  An unmarked removal is a genuine local
/// delete: the registry entry is taken out and a `Delete` event is emitted
/// carrying the last digest known for the path (empty when none was
/// known).
pub fn local_removal(reg: &mut SyncRegistry, pending: &mut PendingRemovals, rel_path: &[u8]) -> (r:
    Option<SyncEvent>)
    requires
        old(pending).wf(),
    ensures
        final(pending).wf(),
        ({
            let key = spec_trim_slashes(rel_path@);
            let ignored = spec_is_ignored(spec_basename(rel_path@));
            let marked = old(pending).marks().contains(key);
            &&& ignored ==> (r is None && final(reg).entries() == old(reg).entries() && final(pending).marks() == old(pending).marks())
            &&& (!ignored && marked) ==> {
                &&& r is None
                &&& final(reg).entries() == old(reg).entries().remove(key)
                &&& final(pending).marks() == old(pending).marks().remove(key)
            }
            &&& (!ignored && !marked) ==> {
                &&& final(reg).entries() == old(reg).entries().remove(key)
                &&& final(pending).marks() == old(pending).marks()
                &&& r matches Some(ev) && ev.action == Action::Delete && ev.file_path@ == key
                    && ev.checksum@ == (if old(reg).entries().contains_key(key) {
                    old(reg).entries()[key]
                } else {
                    Seq::<u8>::empty()
                }) && ev.file_size == 0 && ev.new_path@.len() == 0 && ev.permissions == 0
            }
        }),
{
    if is_ignore(rel_path) {
        return None;
    }
    let key = normalize_path(rel_path);
    let was_marked = pending.take(key.as_slice());
    let prev = reg.remove(key.as_slice());
    if was_marked {
        return None;
    }
    proof {
        assert(old(pending).marks().remove(spec_trim_slashes(rel_path@)) =~= old(
            pending,
        ).marks());
    }
    let checksum = match prev {
        Some(d) => d,
        None => Vec::new(),
    };
    Some(SyncEvent {
        action: Action::Delete,
        file_path: key,
        new_path: Vec::new(),
        file_size: 0,
        checksum,
        permissions: 0,
    })
}

/// The outbound decision for a watcher create or modify event, over the
/// current content digest.
///
/// Ignored names are dropped untouched.  The path's suppression mark, if
/// any, is consumed: the file exists again, so no removal of it is pending.
/// A digest equal to the registry's entry for the path is an echo of our
/// own mutation and is dropped.  Otherwise the registry is updated and the
/// event to send is returned.
pub fn local_upsert(
    reg: &mut SyncRegistry,
    pending: &mut PendingRemovals,
    rel_path: &[u8],
    is_create: bool,
    digest: Vec<u8>,
    file_size: u64,
) -> (r: Option<SyncEvent>)
    requires
        old(pending).wf(),
    ensures
        final(pending).wf(),
        ({
            let key = spec_trim_slashes(rel_path@);
            let ignored = spec_is_ignored(spec_basename(rel_path@));
            let echo = is_echo(old(reg).entries(), key, digest@);
            &&& ignored ==> (r is None && final(reg).entries() == old(reg).entries() && final(pending).marks() == old(pending).marks())
            &&& !ignored ==> final(pending).marks() == old(pending).marks().remove(key)
            &&& (!ignored && echo) ==> (r is None && final(reg).entries() == old(reg).entries())
            &&& (!ignored && !echo) ==> {
                &&& final(reg).entries() == old(reg).entries().insert(key, digest@)
                &&& r matches Some(ev) && ev.action == (if is_create {
                    Action::Create
                } else {
                    Action::Modify
                }) && ev.file_path@ == key && ev.checksum@ == digest@ && ev.file_size == file_size
                    && ev.new_path@.len() == 0 && ev.permissions == 0
            }
        }),
{
    if is_ignore(rel_path) {
        return None;
    }
    let key = normalize_path(rel_path);
    let _ = pending.take(key.as_slice());
    match reg.get(key.as_slice()) {
        Some(last) => {
            if bytes_eq(last.as_slice(), digest.as_slice()) {
                return None;
            }
        },
        None => {},
    }
    reg.insert(copy_bytes(key.as_slice()), copy_bytes(digest.as_slice()));
    let action = if is_create {
        Action::Create
    } else {
        Action::Modify
    };
    Some(SyncEvent {
        action,
        file_path: key,
        new_path: Vec::new(),
        file_size,
        checksum: digest,
        permissions: 0,
    })
}

/// The outbound decision for a watcher create or modify event, from the
/// observed file contents.  Ignored names are dropped before any hashing;
/// otherwise the contents are hashed and the decision is `local_upsert`'s.
pub fn local_upsert_from_contents(
    reg: &mut SyncRegistry,
    pending: &mut PendingRemovals,
    rel_path: &[u8],
    is_create: bool,
    contents: &[u8],
    file_size: u64,
) -> (r: Option<SyncEvent>)
    requires
        old(pending).wf(),
    ensures
        final(pending).wf(),
        ({
            let key = spec_trim_slashes(rel_path@);
            let ignored = spec_is_ignored(spec_basename(rel_path@));
            let echo = is_echo(old(reg).entries(), key, blake3_hex_of(contents@));
            &&& !ignored ==> (blake3_hex_of(contents@).len() == 64 && (forall|i: int|
                0 <= i < blake3_hex_of(contents@).len() ==> crate::hashing::is_lower_hex_digit(
                    #[trigger] blake3_hex_of(contents@)[i],
                )))
            &&& ignored ==> (r is None && final(reg).entries() == old(reg).entries() && final(pending).marks() == old(pending).marks())
            &&& !ignored ==> final(pending).marks() == old(pending).marks().remove(key)
            &&& (!ignored && echo) ==> (r is None && final(reg).entries() == old(reg).entries())
            &&& (!ignored && !echo) ==> {
                &&& final(reg).entries() == old(reg).entries().insert(
                    key,
                    blake3_hex_of(contents@),
                )
                &&& r matches Some(ev) && ev.action == (if is_create {
                    Action::Create
                } else {
                    Action::Modify
                }) && ev.file_path@ == key && ev.checksum@ == blake3_hex_of(contents@)
                    && ev.file_size == file_size && ev.new_path@.len() == 0 && ev.permissions == 0
            }
        }),
{
    if is_ignore(rel_path) {
        return None;
    }
    let digest = hash_bytes(contents);
    local_upsert(reg, pending, rel_path, is_create, digest, file_size)
}

/// Echo suppression, create/modify half: once an inbound event has primed
/// the registry with checksum `c` under a path's normalized key — which is
/// what `apply_inbound` ensures for every `Create` and `Modify` — the
/// outbound decision for that path with current digest `c` finds the entry
/// equal and reports an echo, so `local_upsert` emits nothing for it.
pub proof fn lemma_echo_suppression(m: Map<Seq<u8>, Seq<u8>>, path: Seq<u8>, c: Seq<u8>)
    ensures
        is_echo(m.insert(spec_trim_slashes(path), c), spec_trim_slashes(path), c),
{
}

/// Echo suppression, removal half: once an inbound `Delete` or `Rename`
/// has marked a path's normalized key — which is what `apply_inbound`
/// ensures — the removal decision for that path finds the mark, so
/// `local_removal` emits nothing for it.
pub proof fn lemma_removal_suppression(marks: Set<Seq<u8>>, path: Seq<u8>)
    ensures
        marks.insert(spec_trim_slashes(path)).contains(spec_trim_slashes(path)),
{
}

/// Re-hash agreement: when an inbound `Create` or `Modify` carries the
/// digest of the very body it brings — `c == blake3_hex_of(body)` — then
/// after `apply_inbound` primes the registry with `c`, re-hashing the
/// written bytes yields exactly the primed digest, and the watcher event
/// for the written file is an echo.
pub proof fn lemma_rehash_of_written_body_is_echo(
    m: Map<Seq<u8>, Seq<u8>>,
    path: Seq<u8>,
    body: Seq<u8>,
    c: Seq<u8>,
)
    requires
        c == blake3_hex_of(body),
    ensures
        is_echo(m.insert(spec_trim_slashes(path), c), spec_trim_slashes(path), blake3_hex_of(body)),
{
}

/// Registry consistency: a `Delete` in either direction leaves no entry
/// under the normalized key — `apply_inbound` clears it at once, and
/// `local_removal` takes it out — so a lookup afterwards finds nothing.
pub proof fn lemma_delete_clears_registry(m: Map<Seq<u8>, Seq<u8>>, path: Seq<u8>)
    ensures
        !m.remove(spec_trim_slashes(path)).contains_key(spec_trim_slashes(path)),
{
}

} // verus!
