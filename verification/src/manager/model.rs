//! The history as a mathematical value, and what each operation of the
//! manager does to it.

use vstd::prelude::*;
use crate::clip::{ClipboardKind, ClipView};
use crate::manager::ManagerError;

verus! {

/// Whether one of `clips` carries exactly `data`.
pub open spec fn holds_data(clips: Seq<ClipView>, data: Seq<u8>) -> bool {
    exists|i: int| 0 <= i < clips.len() && (#[trigger] clips[i]).data == data
}

/// Whether one of `clips` carries `id`.
pub open spec fn holds_id(clips: Seq<ClipView>, id: u64) -> bool {
    exists|i: int| 0 <= i < clips.len() && (#[trigger] clips[i]).id == id
}

/// No payload occurs twice in `clips`.
pub open spec fn distinct_data(clips: Seq<ClipView>) -> bool {
    forall|i: int, j: int|
        0 <= i < j < clips.len() ==> (#[trigger] clips[i]).data != (#[trigger] clips[j]).data
}

/// No id occurs twice in `clips`.
pub open spec fn distinct_ids(clips: Seq<ClipView>) -> bool {
    forall|i: int, j: int|
        0 <= i < j < clips.len() ==> (#[trigger] clips[i]).id != (#[trigger] clips[j]).id
}

/// `clips` with the entry at `i` moved to the head.
pub open spec fn moved_to_head(clips: Seq<ClipView>, i: int) -> Seq<ClipView> {
    seq![clips[i]] + clips.remove(i)
}

/// What a bulk load keeps of `loaded`, in order: the clips with a payload
/// that is not empty and has not occurred before, until `capacity` clips are
/// kept or the ids from `first_id` upwards run out. The clip kept at position
/// `k` gets the id `first_id + k`.
pub open spec fn loadable(loaded: Seq<ClipView>, capacity: nat, first_id: u64) -> Seq<ClipView>
    decreases loaded.len(),
{
    if loaded.len() == 0 {
        Seq::empty()
    } else {
        let before = loadable(loaded.drop_last(), capacity, first_id);
        let clip = loaded.last();
        if clip.data.len() == 0 || before.len() >= capacity || first_id + before.len() >= u64::MAX
            || holds_data(before, clip.data) {
            before
        } else {
            before.push(clip.with_id((first_id + before.len()) as u64))
        }
    }
}

/// The state of a clipboard manager: the history, most recent first, its
/// capacity, the next id to hand out, and the current slot of each selection.
pub struct ManagerView {
    pub clips: Seq<ClipView>,
    pub capacity: nat,
    pub next_id: u64,
    pub current_clipboard: Option<u64>,
    pub current_primary: Option<u64>,
}

impl ManagerView {
    /// The state of a fresh manager of the given capacity.
    pub open spec fn empty(capacity: nat) -> ManagerView {
        ManagerView {
            clips: Seq::empty(),
            capacity,
            next_id: 0,
            current_clipboard: None,
            current_primary: None,
        }
    }

    /// The invariant of the history: it holds at least one and at most
    /// `capacity` clips' worth of room, no payload is empty, no payload and no
    /// id occurs twice, every id was handed out before `next_id`, and a
    /// current slot that is not empty names a clip of the history.
    pub open spec fn valid(self) -> bool {
        &&& self.capacity >= 1
        &&& self.clips.len() <= self.capacity
        &&& forall|i: int|
            0 <= i < self.clips.len() ==> (#[trigger] self.clips[i]).data.len() > 0
                && self.clips[i].id < self.next_id
        &&& distinct_data(self.clips)
        &&& distinct_ids(self.clips)
        &&& (self.current_clipboard matches Some(id) ==> holds_id(self.clips, id))
        &&& (self.current_primary matches Some(id) ==> holds_id(self.clips, id))
    }

    /// Whether the history holds a clip with exactly this payload.
    pub open spec fn has_data(self, data: Seq<u8>) -> bool {
        holds_data(self.clips, data)
    }

    /// Whether the history holds a clip with this id.
    pub open spec fn has_id(self, id: u64) -> bool {
        holds_id(self.clips, id)
    }

    /// A position at which the history holds `data`.
    pub open spec fn position_of_data(self, data: Seq<u8>) -> int {
        choose|i: int| 0 <= i < self.clips.len() && (#[trigger] self.clips[i]).data == data
    }

    /// A position at which the history holds `id`.
    pub open spec fn position_of_id(self, id: u64) -> int {
        choose|i: int| 0 <= i < self.clips.len() && (#[trigger] self.clips[i]).id == id
    }

    /// The clip with this id, if the history holds one.
    pub open spec fn get(self, id: u64) -> Option<ClipView> {
        if self.has_id(id) {
            Some(self.clips[self.position_of_id(id)])
        } else {
            None
        }
    }

    /// The current slot of a selection.
    pub open spec fn current(self, kind: ClipboardKind) -> Option<u64> {
        match kind {
            ClipboardKind::Clipboard => self.current_clipboard,
            ClipboardKind::Primary => self.current_primary,
        }
    }

    /// The same state with the current slot of `kind` set to `slot`.
    pub open spec fn with_current(self, kind: ClipboardKind, slot: Option<u64>) -> ManagerView {
        match kind {
            ClipboardKind::Clipboard => ManagerView { current_clipboard: slot, ..self },
            ClipboardKind::Primary => ManagerView { current_primary: slot, ..self },
        }
    }

    /// The same state with every current slot that names `id` emptied.
    pub open spec fn forgetting(self, id: u64) -> ManagerView {
        ManagerView {
            current_clipboard: if self.current_clipboard == Some(id) {
                None
            } else {
                self.current_clipboard
            },
            current_primary: if self.current_primary == Some(id) {
                None
            } else {
                self.current_primary
            },
            ..self
        }
    }

    /// The state without the least recent clip.
    pub open spec fn without_last(self) -> ManagerView {
        ManagerView { clips: self.clips.drop_last(), ..self }.forgetting(self.clips.last().id)
    }

    /// Why an insertion of `data` is refused, if it is: the payload is
    /// empty, or it is new and no id is left to give it.
    pub open spec fn insert_error(self, data: Seq<u8>) -> Option<ManagerError> {
        if data.len() == 0 {
            Some(ManagerError::EmptyData)
        } else if !self.has_data(data) && self.next_id == u64::MAX {
            Some(ManagerError::IdsExhausted)
        } else {
            None
        }
    }

    /// The id under which the history holds `data` after an insertion that
    /// is not refused.
    pub open spec fn insert_id(self, data: Seq<u8>) -> u64 {
        if self.has_data(data) {
            self.clips[self.position_of_data(data)].id
        } else {
            self.next_id
        }
    }

    /// The state after `insert`. A refused insertion changes nothing. A
    /// payload that the history holds moves to the head as it is. A new one
    /// gets the next id and goes to the head, after the least recent clip has
    /// left a full history. Either way the clip becomes current for `kind`.
    pub open spec fn insert(self, kind: ClipboardKind, data: Seq<u8>, timestamp: u64)
        -> ManagerView {
        if self.insert_error(data) is Some {
            self
        } else if self.has_data(data) {
            let i = self.position_of_data(data);
            ManagerView { clips: moved_to_head(self.clips, i), ..self }.with_current(
                kind,
                Some(self.clips[i].id),
            )
        } else {
            let fresh = ClipView { id: self.next_id, data, kind, timestamp };
            let room = if self.clips.len() >= self.capacity && self.clips.len() > 0 {
                self.without_last()
            } else {
                self
            };
            ManagerView {
                clips: seq![fresh] + room.clips,
                next_id: (self.next_id + 1) as u64,
                ..room
            }.with_current(kind, Some(fresh.id))
        }
    }

    /// The state after `remove`: without the clip of that id, and with no
    /// current slot naming it. An id that the history does not hold changes
    /// nothing.
    pub open spec fn remove(self, id: u64) -> ManagerView {
        if self.has_id(id) {
            ManagerView { clips: self.clips.remove(self.position_of_id(id)), ..self }.forgetting(
                id,
            )
        } else {
            self
        }
    }

    /// The state after `clear`: no clips and empty current slots. Capacity
    /// and the next id stay.
    pub open spec fn clear(self) -> ManagerView {
        ManagerView {
            clips: Seq::empty(),
            current_clipboard: None,
            current_primary: None,
            ..self
        }
    }

    /// The state after `mark_as_current`. An id that the history does not
    /// hold changes nothing.
    pub open spec fn mark_as_current(self, id: u64, kind: ClipboardKind) -> ManagerView {
        if self.has_id(id) {
            self.with_current(kind, Some(id))
        } else {
            self
        }
    }

    /// The state after `import`: the history is replaced by what a bulk load
    /// keeps of `loaded`, under fresh ids, and the current slots are empty.
    pub open spec fn import(self, loaded: Seq<ClipView>) -> ManagerView {
        let kept = loadable(loaded, self.capacity, self.next_id);
        ManagerView {
            clips: kept,
            next_id: (self.next_id + kept.len()) as u64,
            current_clipboard: None,
            current_primary: None,
            ..self
        }
    }
}

/// One change to the history.
pub enum Operation {
    Insert(ClipboardKind, Seq<u8>, u64),
    Remove(u64),
    Clear,
    MarkAsCurrent(u64, ClipboardKind),
    Import(Seq<ClipView>),
}

/// The state after one change.
pub open spec fn apply(m: ManagerView, op: Operation) -> ManagerView {
    match op {
        Operation::Insert(kind, data, timestamp) => m.insert(kind, data, timestamp),
        Operation::Remove(id) => m.remove(id),
        Operation::Clear => m.clear(),
        Operation::MarkAsCurrent(id, kind) => m.mark_as_current(id, kind),
        Operation::Import(loaded) => m.import(loaded),
    }
}

/// The state after a run of changes, the first of `ops` first.
pub open spec fn run(m: ManagerView, ops: Seq<Operation>) -> ManagerView
    decreases ops.len(),
{
    if ops.len() == 0 {
        m
    } else {
        apply(run(m, ops.drop_last()), ops.last())
    }
}

} // verus!
