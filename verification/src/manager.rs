//! The clipboard manager: the bounded history of clips, authoritative for
//! their order and their ids.

use std::collections::HashMap;
use vstd::prelude::*;
use crate::clip::{bytes_equal, clip_views, Clip, ClipboardKind};
use crate::manager::laws::{
    lemma_import_valid, lemma_insert_valid, lemma_loadable, lemma_mark_valid, lemma_moved_to_head,
    lemma_position_of_data, lemma_position_of_id, lemma_remove_valid,
};
use crate::manager::model::{holds_data, loadable, ManagerView};

pub mod laws;
pub mod model;

verus! {

broadcast use vstd::std_specs::hash::group_hash_axioms;

/// Why the manager refuses a request.
#[derive(Clone, Copy, Debug, PartialEq, Eq, Structural)]
pub enum ManagerError {
    /// A manager needs room for at least one clip.
    ZeroCapacity,
    /// A clip must carry at least one byte.
    EmptyData,
    /// The history holds no clip of the id given.
    UnknownId,
    /// Every id has been handed out.
    IdsExhausted,
}

/// The history of clips, most recent first, bounded by a capacity. Clips are
/// kept by id; `order` holds the ids from the most recent to the least.
pub struct ClipboardManager {
    clips: HashMap<u64, Clip>,
    order: Vec<u64>,
    capacity: usize,
    next_id: u64,
    current_clipboard: Option<u64>,
    current_primary: Option<u64>,
}

impl View for ClipboardManager {
    type V = ManagerView;

    closed spec fn view(&self) -> ManagerView {
        ManagerView {
            clips: Seq::new(self.order@.len(), |i: int| self.clips@[self.order@[i]]@),
            capacity: self.capacity as nat,
            next_id: self.next_id,
            current_clipboard: self.current_clipboard,
            current_primary: self.current_primary,
        }
    }
}

impl ClipboardManager {
    /// The ids in `order` are exactly the keys of `clips`, none twice, and
    /// each clip is kept under its own id.
    pub closed spec fn indexed(&self) -> bool {
        &&& self.order@.no_duplicates()
        &&& forall|i: int|
            0 <= i < self.order@.len() ==> self.clips@.contains_key(#[trigger] self.order@[i])
                && self.clips@[self.order@[i]].id == self.order@[i]
        &&& forall|id: u64| #[trigger]
            self.clips@.contains_key(id) ==> self.order@.contains(id)
    }

    /// The manager is consistent and its history is valid.
    pub open spec fn wf(&self) -> bool {
        &&& self.indexed()
        &&& self@.valid()
    }

    /// The history holds an id exactly where the index has it as a key.
    proof fn lemma_keys(&self)
        requires
            self.indexed(),
        ensures
            self@.clips.len() == self.order@.len(),
            forall|i: int|
                0 <= i < self.order@.len() ==> (#[trigger] self@.clips[i]).id == self.order@[i]
                    && self@.clips[i] == self.clips@[self.order@[i]]@,
            forall|id: u64| self@.has_id(id) == self.clips@.contains_key(id),
    {
        assert forall|id: u64| self@.has_id(id) == self.clips@.contains_key(id) by {
            if self.clips@.contains_key(id) {
                let i = choose|i: int| 0 <= i < self.order@.len() && self.order@[i] == id;
                assert(self@.clips[i].id == id);
            }
            if self@.has_id(id) {
                let i = choose|i: int| 0 <= i < self@.clips.len() && (#[trigger] self@.clips[i]).id == id;
                assert(self.clips@.contains_key(self.order@[i]));
            }
        }
    }

    /// An empty manager with room for `capacity` clips; a capacity of zero is
    /// refused.
    pub fn with_capacity(capacity: usize) -> (made: Result<ClipboardManager, ManagerError>)
        ensures
            capacity == 0 <==> made is Err,
            made matches Err(e) ==> e == ManagerError::ZeroCapacity,
            made matches Ok(m) ==> m.wf() && m@ == ManagerView::empty(capacity as nat),
    {
        if capacity == 0 {
            return Err(ManagerError::ZeroCapacity);
        }
        let manager = ClipboardManager {
            clips: HashMap::new(),
            order: Vec::new(),
            capacity,
            next_id: 0,
            current_clipboard: None,
            current_primary: None,
        };
        assert(manager@.clips =~= Seq::empty());
        Ok(manager)
    }

    /// The number of clips in the history.
    pub fn len(&self) -> (n: usize)
        requires
            self.wf(),
        ensures
            n == self@.clips.len(),
            n <= self@.capacity,
    {
        self.order.len()
    }

    /// Whether the history holds no clip.
    pub fn is_empty(&self) -> (empty: bool)
        requires
            self.wf(),
        ensures
            empty == (self@.clips.len() == 0),
    {
        self.order.len() == 0
    }

    /// The most clips that the history holds.
    pub fn capacity(&self) -> (n: usize)
        requires
            self.wf(),
        ensures
            n == self@.capacity,
            n >= 1,
    {
        self.capacity
    }

    /// The id of the clip that is current for `kind`, if one is.
    pub fn current(&self, kind: ClipboardKind) -> (slot: Option<u64>)
        requires
            self.wf(),
        ensures
            slot == self@.current(kind),
            slot matches Some(id) ==> self@.has_id(id),
    {
        match kind {
            ClipboardKind::Clipboard => self.current_clipboard,
            ClipboardKind::Primary => self.current_primary,
        }
    }

    /// The position in the history of the clip that carries `data`.
    fn position_of(&self, data: &[u8]) -> (found: Option<usize>)
        requires
            self.wf(),
        ensures
            found is Some == self@.has_data(data@),
            found matches Some(i) ==> i < self@.clips.len() && self@.clips[i as int].data == data@
                && self@.position_of_data(data@) == i,
    {
        let mut i: usize = 0;
        while i < self.order.len()
            invariant
                self.wf(),
                i <= self.order@.len(),
                forall|j: int| 0 <= j < i ==> (#[trigger] self@.clips[j]).data != data@,
            decreases self.order@.len() - i,
        {
            let id = self.order[i];
            if let Some(clip) = self.clips.get(&id) {
                if bytes_equal(clip.data.as_slice(), data) {
                    proof {
                        assert(self@.clips[i as int].data == data@);
                        lemma_position_of_data(self@, i as int);
                    }
                    return Some(i);
                }
            }
            assert(self@.clips[i as int].data != data@);
            i += 1;
        }
        None
    }

    /// The clip with this id, if the history holds one.
    pub fn get(&self, id: u64) -> (found: Option<Clip>)
        requires
            self.wf(),
        ensures
            found is Some == self@.has_id(id),
            match found {
                Some(clip) => self@.get(id) == Some(clip@),
                None => self@.get(id) is None,
            },
    {
        proof {
            self.lemma_keys();
        }
        match self.clips.get(&id) {
            Some(clip) => {
                proof {
                    let i = choose|i: int| 0 <= i < self.order@.len() && self.order@[i] == id;
                    assert(self@.clips[i] == clip@);
                    lemma_position_of_id(self@, i);
                }
                Some(clip.clone())
            },
            None => None,
        }
    }

    /// The history, most recent first.
    pub fn list(&self) -> (clips: Vec<Clip>)
        requires
            self.wf(),
        ensures
            clip_views(clips@) == self@.clips,
    {
        let mut clips: Vec<Clip> = Vec::new();
        let mut i: usize = 0;
        while i < self.order.len()
            invariant
                self.wf(),
                i <= self.order@.len(),
                clips@.len() == i,
                forall|j: int| 0 <= j < i ==> (#[trigger] clips@[j])@ == self@.clips[j],
            decreases self.order@.len() - i,
        {
            let id = self.order[i];
            if let Some(clip) = self.clips.get(&id) {
                clips.push(clip.clone());
            }
            i += 1;
        }
        assert(clip_views(clips@) =~= self@.clips);
        clips
    }

    /// Sets the current slot of `kind`.
    fn set_current(&mut self, kind: ClipboardKind, slot: Option<u64>)
        ensures
            final(self).clips == old(self).clips,
            final(self).order == old(self).order,
            final(self).capacity == old(self).capacity,
            final(self).next_id == old(self).next_id,
            final(self)@ == old(self)@.with_current(kind, slot),
    {
        match kind {
            ClipboardKind::Clipboard => {
                self.current_clipboard = slot;
            },
            ClipboardKind::Primary => {
                self.current_primary = slot;
            },
        }
    }

    /// Empties every current slot that names `id`.
    fn forget(&mut self, id: u64)
        ensures
            final(self).clips == old(self).clips,
            final(self).order == old(self).order,
            final(self).capacity == old(self).capacity,
            final(self).next_id == old(self).next_id,
            final(self)@ == old(self)@.forgetting(id),
    {
        if let Some(current) = self.current_clipboard {
            if current == id {
                self.current_clipboard = None;
            }
        }
        if let Some(current) = self.current_primary {
            if current == id {
                self.current_primary = None;
            }
        }
    }

    /// The position of `id` among the ids in order.
    fn index_of(&self, id: u64) -> (i: usize)
        requires
            self.indexed(),
            self.clips@.contains_key(id),
        ensures
            i < self.order@.len(),
            self.order@[i as int] == id,
    {
        let mut i: usize = 0;
        while i < self.order.len()
            invariant
                i <= self.order@.len(),
                forall|j: int| 0 <= j < i ==> self.order@[j] != id,
            decreases self.order@.len() - i,
        {
            if self.order[i] == id {
                return i;
            }
            i += 1;
        }
        assert(self.order@.contains(id));
        assert(false);
        0
    }

    /// Records `data`, seen on `kind` at `timestamp`, as the most recent
    /// clip, and returns its id and whether it is new to the history. A
    /// payload that the history holds keeps its clip, which moves to the head;
    /// a new one gets the next id, and the least recent clip leaves a full
    /// history. The clip becomes current for `kind`. Empty data is refused,
    /// and so is new data once every id has been handed out; a refusal changes
    /// nothing.
    pub fn insert(&mut self, kind: ClipboardKind, data: &[u8], timestamp: u64) -> (done: Result<
        (u64, bool),
        ManagerError,
    >)
        requires
            old(self).wf(),
        ensures
            final(self).wf(),
            final(self)@ == old(self)@.insert(kind, data@, timestamp),
            match done {
                Ok((id, inserted)) => {
                    &&& old(self)@.insert_error(data@) is None
                    &&& id == old(self)@.insert_id(data@)
                    &&& inserted == !old(self)@.has_data(data@)
                },
                Err(e) => old(self)@.insert_error(data@) == Some(e),
            },
    {
        if data.len() == 0 {
            return Err(ManagerError::EmptyData);
        }
        let ghost before = self@;
        let ghost old_order = self.order@;
        let ghost old_clips = self.clips@;
        proof {
            self.lemma_keys();
            lemma_insert_valid(before, kind, data@, timestamp);
        }
        match self.position_of(data) {
            Some(i) => {
                let id = self.order.remove(i);
                self.order.insert(0, id);
                self.set_current(kind, Some(id));
                proof {
                    let expected = before.insert(kind, data@, timestamp);
                    lemma_moved_to_head(before.clips, i as int);
                    assert(self.order@.len() == old_order.len());
                    assert(self.order@[0] == old_order[i as int]);
                    assert forall|a: int| 0 <= a < self.order@.len() implies #[trigger] self.order@[a]
                        == old_order[if a == 0 {
                        i as int
                    } else if a <= i {
                        a - 1
                    } else {
                        a
                    }] by {}
                    assert(self@.clips =~= expected.clips);
                    assert(self@ == expected);
                    assert forall|a: int, b: int|
                        0 <= a < self.order@.len() && 0 <= b < self.order@.len() && a
                            != b implies self.order@[a] != self.order@[b] by {
                        let k = if a == 0 { i as int } else if a <= i { a - 1 } else { a };
                        let l = if b == 0 { i as int } else if b <= i { b - 1 } else { b };
                        assert(self.order@[a] == old_order[k]);
                        assert(self.order@[b] == old_order[l]);
                    }
                    assert forall|key: u64| #[trigger]
                        self.clips@.contains_key(key) implies self.order@.contains(key) by {
                        let k = choose|k: int| 0 <= k < old_order.len() && old_order[k] == key;
                        let a = if k == i { 0 } else if k < i { k + 1 } else { k };
                        assert(self.order@[a] == key);
                    }
                }
                Ok((id, false))
            },
            None => {
                if self.next_id == u64::MAX {
                    return Err(ManagerError::IdsExhausted);
                }
                let ghost full = self.order@.len() >= self.capacity;
                if self.order.len() >= self.capacity {
                    if let Some(last) = self.order.pop() {
                        self.clips.remove(&last);
                        self.forget(last);
                    }
                }
                let ghost room_order = self.order@;
                let ghost room_clips = self.clips@;
                let id = self.next_id;
                self.clips.insert(id, Clip::new(id, kind, data, timestamp));
                self.order.insert(0, id);
                self.next_id = id + 1;
                self.set_current(kind, Some(id));
                proof {
                    let expected = before.insert(kind, data@, timestamp);
                    assert(room_order == if full { old_order.drop_last() } else { old_order });
                    assert(room_clips == if full { old_clips.remove(old_order.last()) } else { old_clips });
                    assert forall|k: int| 0 <= k < old_order.len() implies old_order[k] != id by {
                        assert(before.clips[k].id < before.next_id);
                    }
                    assert forall|a: int| 1 <= a < self.order@.len() implies self.order@[a]
                        == old_order[a - 1] && self.clips@.contains_key(old_order[a - 1])
                        && self.clips@[old_order[a - 1]] == old_clips[old_order[a - 1]] by {
                        assert(self.order@[a] == room_order[a - 1]);
                        if full {
                            assert(old_order[a - 1] != old_order[old_order.len() - 1]);
                        }
                    }
                    assert(self@.clips.len() == expected.clips.len());
                    assert forall|a: int| 0 <= a < self@.clips.len() implies self@.clips[a]
                        == expected.clips[a] by {
                        if a > 0 {
                            assert(self.order@[a] == old_order[a - 1]);
                            assert(before.clips[a - 1] == old_clips[old_order[a - 1]]@);
                        }
                    }
                    assert(self@.clips =~= expected.clips);
                    assert(self@ == expected);
                    assert forall|a: int, b: int|
                        0 <= a < self.order@.len() && 0 <= b < self.order@.len() && a
                            != b implies self.order@[a] != self.order@[b] by {
                        if a > 0 {
                            assert(self.order@[a] == old_order[a - 1]);
                        }
                        if b > 0 {
                            assert(self.order@[b] == old_order[b - 1]);
                        }
                    }
                    assert forall|key: u64| #[trigger]
                        self.clips@.contains_key(key) implies self.order@.contains(key) by {
                        if key == id {
                            assert(self.order@[0] == key);
                        } else {
                            assert(old_clips.contains_key(key));
                            let k = choose|k: int| 0 <= k < old_order.len() && old_order[k] == key;
                            assert(self.order@[k + 1] == key);
                        }
                    }
                }
                Ok((id, true))
            },
        }
    }

    /// Takes the clip of this id out of the history and says whether there
    /// was one. A current slot that named it is emptied.
    pub fn remove(&mut self, id: u64) -> (removed: bool)
        requires
            old(self).wf(),
        ensures
            final(self).wf(),
            final(self)@ == old(self)@.remove(id),
            removed == old(self)@.has_id(id),
    {
        let ghost before = self@;
        let ghost old_order = self.order@;
        let ghost old_clips = self.clips@;
        proof {
            self.lemma_keys();
            lemma_remove_valid(before, id);
        }
        if !self.clips.contains_key(&id) {
            return false;
        }
        let i = self.index_of(id);
        self.order.remove(i);
        self.clips.remove(&id);
        self.forget(id);
        proof {
            let expected = before.remove(id);
            lemma_position_of_id(before, i as int);
            assert forall|a: int| 0 <= a < self.order@.len() implies #[trigger] self.order@[a]
                == old_order[if a < i { a } else { a + 1 }] && self.order@[a] != id by {}
            assert(self@.clips =~= expected.clips);
            assert(self@ == expected);
            assert forall|key: u64| #[trigger]
                self.clips@.contains_key(key) implies self.order@.contains(key) by {
                let k = choose|k: int| 0 <= k < old_order.len() && old_order[k] == key;
                let a = if k < i { k } else { k - 1 };
                assert(self.order@[a] == key);
            }
        }
        true
    }

    /// Empties the history and the current slots.
    pub fn clear(&mut self)
        requires
            old(self).wf(),
        ensures
            final(self).wf(),
            final(self)@ == old(self)@.clear(),
    {
        self.clips.clear();
        self.order.clear();
        self.current_clipboard = None;
        self.current_primary = None;
        assert(self@.clips =~= Seq::empty());
    }

    /// Makes the clip of this id current for `kind`; an id that the history
    /// does not hold is refused and changes nothing.
    pub fn mark_as_current(&mut self, id: u64, kind: ClipboardKind) -> (done: Result<
        (),
        ManagerError,
    >)
        requires
            old(self).wf(),
        ensures
            final(self).wf(),
            final(self)@ == old(self)@.mark_as_current(id, kind),
            done is Ok == old(self)@.has_id(id),
            done matches Err(e) ==> e == ManagerError::UnknownId,
    {
        proof {
            self.lemma_keys();
            lemma_mark_valid(self@, id, kind);
        }
        if self.clips.contains_key(&id) {
            self.set_current(kind, Some(id));
            Ok(())
        } else {
            Err(ManagerError::UnknownId)
        }
    }

    /// Replaces the history by a bulk load of `loaded`, most recent first:
    /// clips keep their order, data, kind and timestamp and get fresh ids; a
    /// clip with empty data or with data that came earlier in `loaded` is left
    /// out, and loading stops at the capacity. The current slots are emptied.
    pub fn import(&mut self, loaded: &[Clip])
        requires
            old(self).wf(),
        ensures
            final(self).wf(),
            final(self)@ == old(self)@.import(clip_views(loaded@)),
    {
        let ghost before = self@;
        let ghost views = clip_views(loaded@);
        self.clear();
        let mut i: usize = 0;
        assert(views.take(0) =~= Seq::empty());
        assert(self@ == before.import(views.take(0)));
        while i < loaded.len()
            invariant
                before.valid(),
                views == clip_views(loaded@),
                i <= loaded@.len(),
                self.wf(),
                self@ == before.import(views.take(i as int)),
            decreases loaded@.len() - i,
        {
            let clip = &loaded[i];
            let ghost prefix = views.take(i as int);
            let ghost longer = views.take(i + 1);
            let ghost kept = loadable(prefix, before.capacity, before.next_id);
            proof {
                assert(longer.drop_last() =~= prefix);
                assert(longer.last() == clip@);
                self.lemma_keys();
                lemma_import_valid(before, longer);
            }
            if clip.data.len() > 0 && self.order.len() < self.capacity && self.next_id < u64::MAX {
                if self.position_of(clip.data.as_slice()).is_none() {
                    let ghost old_order = self.order@;
                    let ghost old_clips = self.clips@;
                    let id = self.next_id;
                    proof {
                        lemma_loadable(prefix, before.capacity, before.next_id);
                        assert(self@.clips == kept);
                        assert(kept.len() == old_order.len());
                        assert(id == before.next_id + kept.len());
                        assert(!holds_data(kept, clip@.data));
                        assert(loadable(longer, before.capacity, before.next_id) == kept.push(
                            clip@.with_id(id),
                        ));
                    }
                    self.clips.insert(id, Clip::new(id, clip.kind, clip.data.as_slice(), clip.timestamp));
                    self.order.push(id);
                    self.next_id = id + 1;
                    proof {
                        let expected = before.import(longer);
                        assert forall|k: int| 0 <= k < old_order.len() implies old_order[k]
                            != id by {
                            assert(kept[k].id < id);
                        }
                        assert(expected.clips == kept.push(clip@.with_id(id)));
                        assert(self@.clips.len() == expected.clips.len());
                        assert forall|a: int| 0 <= a < self@.clips.len() implies self@.clips[a]
                            == expected.clips[a] by {
                            if a < old_order.len() {
                                assert(self.order@[a] == old_order[a]);
                                assert(kept[a] == old_clips[old_order[a]]@);
                            } else {
                                assert(self.order@[a] == id);
                            }
                        }
                        assert(self@.clips =~= expected.clips);
                        assert(self@ == expected);
                        assert forall|key: u64| #[trigger]
                            self.clips@.contains_key(key) implies self.order@.contains(key) by {
                            if key == id {
                                assert(self.order@[old_order.len() as int] == key);
                            } else {
                                let k = choose|k: int|
                                    0 <= k < old_order.len() && old_order[k] == key;
                                assert(self.order@[k] == key);
                            }
                        }
                    }
                }
            }
            i += 1;
        }
        assert(views.take(loaded@.len() as int) =~= views);
    }
}

} // verus!
