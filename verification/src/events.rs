//! Change events and the decoding of raw notification records into them.
//!
//! The kernel's notification primitive reports each change as a subject name
//! plus a bit mask.  Verified code works on the decoded [`ChangeEvent`]
//! value: the subject name, whether the subject is a directory, and which
//! kind of change happened.

use vstd::prelude::*;

verus! {

/// Bit reported for a change whose subject is itself a directory.
pub const WATCH_ISDIR: u32 = 0x4000_0000;

/// Bit selecting (and reporting) modification events.
pub const WATCH_MODIFY: u32 = 0x0000_0002;

/// Bit selecting (and reporting) creation events.
pub const WATCH_CREATE: u32 = 0x0000_0100;

/// Bit selecting (and reporting) deletion events.
pub const WATCH_DELETE: u32 = 0x0000_0200;

/// The kind of change a single event reports.
#[derive(Clone, Copy, PartialEq, Eq, Structural, Debug)]
pub enum EventKind {
    Modified,
    Created,
    Deleted,
    /// Anything outside the three kinds the watcher selects, e.g. a
    /// bookkeeping record the primitive emits on its own.
    Other,
}

/// One decoded change notification.
#[derive(Debug)]
pub struct ChangeEvent {
    /// Name of the changed entry, relative to its watched directory; empty
    /// when the event concerns the watched directory itself.
    pub name: String,
    /// Whether the changed entry is a directory.
    pub is_dir: bool,
    /// Which kind of change happened.
    pub kind: EventKind,
}

/// Whether a raw event mask marks a directory-level event.
pub open spec fn spec_mask_is_dir(mask: u32) -> bool {
    mask & WATCH_ISDIR != 0
}

/// The change kind a raw event mask encodes.
pub open spec fn spec_mask_kind(mask: u32) -> EventKind {
    if mask & WATCH_MODIFY != 0 {
        EventKind::Modified
    } else if mask & WATCH_CREATE != 0 {
        EventKind::Created
    } else if mask & WATCH_DELETE != 0 {
        EventKind::Deleted
    } else {
        EventKind::Other
    }
}

/// Decodes one raw notification record into a [`ChangeEvent`].
pub fn decode_event(name: String, mask: u32) -> (e: ChangeEvent)
    ensures
        e.name == name,
        e.is_dir == spec_mask_is_dir(mask),
        e.kind == spec_mask_kind(mask),
{
    let is_dir = mask & WATCH_ISDIR != 0;
    let kind = if mask & WATCH_MODIFY != 0 {
        EventKind::Modified
    } else if mask & WATCH_CREATE != 0 {
        EventKind::Created
    } else if mask & WATCH_DELETE != 0 {
        EventKind::Deleted
    } else {
        EventKind::Other
    };
    ChangeEvent { name, is_dir, kind }
}

/// Decodes a whole batch of raw records, keeping arrival order.
pub fn decode_batch(raw: Vec<(String, u32)>) -> (events: Vec<ChangeEvent>)
    ensures
        events@.len() == raw@.len(),
        forall|i: int| 0 <= i < raw@.len() ==> {
            &&& (#[trigger] events@[i]).name == raw@[i].0
            &&& events@[i].is_dir == spec_mask_is_dir(raw@[i].1)
            &&& events@[i].kind == spec_mask_kind(raw@[i].1)
        },
{
    let mut events: Vec<ChangeEvent> = Vec::new();
    let mut idx: usize = 0;
    while idx < raw.len()
        invariant
            idx <= raw@.len(),
            events@.len() == idx,
            forall|i: int| 0 <= i < idx ==> {
                &&& (#[trigger] events@[i]).name == raw@[i].0
                &&& events@[i].is_dir == spec_mask_is_dir(raw@[i].1)
                &&& events@[i].kind == spec_mask_kind(raw@[i].1)
            },
        decreases raw@.len() - idx,
    {
        let name = raw[idx].0.clone();
        let mask = raw[idx].1;
        events.push(decode_event(name, mask));
        idx += 1;
    }
    events
}

} // verus!
