//! The change-event record exchanged with the peer, and its mathematical
//! model.
//!
//! Paths and checksums are carried as UTF-8 byte strings; the engine never
//! needs to look below the byte level, so the model of an event is a tuple
//! of byte sequences and unsigned integers.

use vstd::prelude::*;

verus! {

/// The intent of a change event.
#[derive(Clone, Copy, PartialEq, Eq, Structural, Debug)]
pub enum Action {
    Create,
    Modify,
    Delete,
    Rename,
    AttrChange,
}

/// The numeric code of an action on the wire.
pub open spec fn action_code(a: Action) -> nat {
    match a {
        Action::Create => 0,
        Action::Modify => 1,
        Action::Delete => 2,
        Action::Rename => 3,
        Action::AttrChange => 4,
    }
}

/// The action a numeric wire code stands for, if any.
pub open spec fn action_of_code(n: nat) -> Option<Action> {
    if n == 0 {
        Some(Action::Create)
    } else if n == 1 {
        Some(Action::Modify)
    } else if n == 2 {
        Some(Action::Delete)
    } else if n == 3 {
        Some(Action::Rename)
    } else if n == 4 {
        Some(Action::AttrChange)
    } else {
        None
    }
}

/// Decoding an action's own code yields the action back.
pub proof fn lemma_action_code_roundtrip(a: Action)
    ensures
        action_of_code(action_code(a)) == Some(a),
{
}

impl Action {
    /// The numeric code of this action on the wire.
    pub fn code(&self) -> (r: u64)
        ensures
            r as nat == action_code(*self),
    {
        match self {
            Action::Create => 0,
            Action::Modify => 1,
            Action::Delete => 2,
            Action::Rename => 3,
            Action::AttrChange => 4,
        }
    }

    /// The action a numeric wire code stands for, if any.
    pub fn from_code(v: u64) -> (r: Option<Action>)
        ensures
            r == action_of_code(v as nat),
    {
        if v == 0 {
            Some(Action::Create)
        } else if v == 1 {
            Some(Action::Modify)
        } else if v == 2 {
            Some(Action::Delete)
        } else if v == 3 {
            Some(Action::Rename)
        } else if v == 4 {
            Some(Action::AttrChange)
        } else {
            None
        }
    }
}

/// A change event: the record exchanged in both directions over the wire.
#[derive(Debug)]
pub struct SyncEvent {
    /// What happened.
    pub action: Action,
    /// Path relative to the sync root, forward-slash separated, no leading
    /// slash.
    pub file_path: Vec<u8>,
    /// Destination path; meaningful only when `action` is `Rename`.
    pub new_path: Vec<u8>,
    /// Byte count of the file body that follows the frame (0 when no body
    /// follows).
    pub file_size: u64,
    /// Lowercase hex digest of the file contents; may be empty for a
    /// `Delete` when the sender had no prior hash.
    pub checksum: Vec<u8>,
    /// POSIX mode bits; 0 when unknown.
    pub permissions: u32,
}

/// The mathematical model of a change event.
#[verifier::ext_equal]
pub ghost struct EventModel {
    pub action: Action,
    pub file_path: Seq<u8>,
    pub new_path: Seq<u8>,
    pub file_size: u64,
    pub checksum: Seq<u8>,
    pub permissions: u32,
}

impl SyncEvent {
    /// The model of this event.
    pub open spec fn model(self) -> EventModel {
        EventModel {
            action: self.action,
            file_path: self.file_path@,
            new_path: self.new_path@,
            file_size: self.file_size,
            checksum: self.checksum@,
            permissions: self.permissions,
        }
    }
}

} // verus!
