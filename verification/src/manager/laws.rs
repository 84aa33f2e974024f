//! What holds of the history whatever is done to it.

use vstd::prelude::*;
use crate::clip::{ClipboardKind, ClipView};
use crate::manager::model::{
    apply, distinct_data, distinct_ids, holds_data, holds_id, loadable, moved_to_head, run,
    ManagerView, Operation,
};

verus! {

/// Where each clip of a history stands after the one at `i` moved to the
/// head.
pub proof fn lemma_moved_to_head(clips: Seq<ClipView>, i: int)
    requires
        0 <= i < clips.len(),
    ensures
        moved_to_head(clips, i).len() == clips.len(),
        moved_to_head(clips, i)[0] == clips[i],
        forall|a: int| 1 <= a <= i ==> #[trigger] moved_to_head(clips, i)[a] == clips[a - 1],
        forall|a: int| i < a < clips.len() ==> #[trigger] moved_to_head(clips, i)[a] == clips[a],
{
}

/// Moving a clip to the head neither adds nor loses an id or a payload.
pub proof fn lemma_moved_to_head_holds(clips: Seq<ClipView>, i: int)
    requires
        0 <= i < clips.len(),
    ensures
        forall|id: u64| holds_id(moved_to_head(clips, i), id) == holds_id(clips, id),
        forall|data: Seq<u8>| holds_data(moved_to_head(clips, i), data) == holds_data(clips, data),
{
    let moved = moved_to_head(clips, i);
    lemma_moved_to_head(clips, i);
    assert forall|id: u64| holds_id(moved, id) == holds_id(clips, id) by {
        if holds_id(clips, id) {
            let k = choose|k: int| 0 <= k < clips.len() && (#[trigger] clips[k]).id == id;
            let a = if k == i { 0 } else if k < i { k + 1 } else { k };
            assert(moved[a] == clips[k]);
        }
        if holds_id(moved, id) {
            let a = choose|a: int| 0 <= a < moved.len() && (#[trigger] moved[a]).id == id;
            let k = if a == 0 { i } else if a <= i { a - 1 } else { a };
            assert(moved[a] == clips[k]);
        }
    }
    assert forall|data: Seq<u8>| holds_data(moved, data) == holds_data(clips, data) by {
        if holds_data(clips, data) {
            let k = choose|k: int| 0 <= k < clips.len() && (#[trigger] clips[k]).data == data;
            let a = if k == i { 0 } else if k < i { k + 1 } else { k };
            assert(moved[a] == clips[k]);
        }
        if holds_data(moved, data) {
            let a = choose|a: int| 0 <= a < moved.len() && (#[trigger] moved[a]).data == data;
            let k = if a == 0 { i } else if a <= i { a - 1 } else { a };
            assert(moved[a] == clips[k]);
        }
    }
}

/// In a history without a repeated payload, a payload stands at one
/// position only.
pub proof fn lemma_position_of_data(m: ManagerView, i: int)
    requires
        distinct_data(m.clips),
        0 <= i < m.clips.len(),
    ensures
        m.has_data(m.clips[i].data),
        m.position_of_data(m.clips[i].data) == i,
{
    let data = m.clips[i].data;
    let p = m.position_of_data(data);
    assert(0 <= p < m.clips.len() && m.clips[p].data == data);
    if p < i {
        assert(m.clips[p].data != m.clips[i].data);
    } else if i < p {
        assert(m.clips[i].data != m.clips[p].data);
    }
}

/// In a history without a repeated id, an id stands at one position only.
pub proof fn lemma_position_of_id(m: ManagerView, i: int)
    requires
        distinct_ids(m.clips),
        0 <= i < m.clips.len(),
    ensures
        m.has_id(m.clips[i].id),
        m.position_of_id(m.clips[i].id) == i,
        m.get(m.clips[i].id) == Some(m.clips[i]),
{
    let id = m.clips[i].id;
    let p = m.position_of_id(id);
    assert(0 <= p < m.clips.len() && m.clips[p].id == id);
    if p < i {
        assert(m.clips[p].id != m.clips[i].id);
    } else if i < p {
        assert(m.clips[i].id != m.clips[p].id);
    }
}

/// An insertion keeps the invariant of the history.
pub proof fn lemma_insert_valid(m: ManagerView, kind: ClipboardKind, data: Seq<u8>, timestamp: u64)
    requires
        m.valid(),
    ensures
        m.insert(kind, data, timestamp).valid(),
{
    let after = m.insert(kind, data, timestamp);
    if m.insert_error(data) is Some {
    } else if m.has_data(data) {
        let i = m.position_of_data(data);
        let moved = moved_to_head(m.clips, i);
        lemma_moved_to_head(m.clips, i);
        lemma_moved_to_head_holds(m.clips, i);
        assert(after.clips == moved);
        assert(holds_id(m.clips, m.clips[i].id));
        assert forall|a: int| 0 <= a < moved.len() implies (#[trigger] moved[a]).data.len() > 0
            && moved[a].id < after.next_id by {
            let k = if a == 0 { i } else if a <= i { a - 1 } else { a };
            assert(moved[a] == m.clips[k]);
        }
        assert forall|a: int, b: int| 0 <= a < b < moved.len() implies (#[trigger] moved[a]).data
            != (#[trigger] moved[b]).data && moved[a].id != moved[b].id by {
            let k = if a == 0 { i } else if a <= i { a - 1 } else { a };
            let l = if b <= i { b - 1 } else { b };
            assert(moved[a] == m.clips[k]);
            assert(moved[b] == m.clips[l]);
            if k < l {
                assert(m.clips[k].data != m.clips[l].data);
                assert(m.clips[k].id != m.clips[l].id);
            } else {
                assert(l < k);
                assert(m.clips[l].data != m.clips[k].data);
                assert(m.clips[l].id != m.clips[k].id);
            }
        }
    } else {
        let fresh = ClipView { id: m.next_id, data, kind, timestamp };
        let full = m.clips.len() >= m.capacity && m.clips.len() > 0;
        let room = if full { m.without_last() } else { m };
        let clips = seq![fresh] + room.clips;
        assert(after.clips == clips);
        assert(clips[0] == fresh);
        assert forall|a: int| 1 <= a < clips.len() implies #[trigger] clips[a] == m.clips[a - 1] by {
            assert(clips[a] == room.clips[a - 1]);
        }
        assert forall|a: int| 0 <= a < clips.len() implies (#[trigger] clips[a]).data.len() > 0
            && clips[a].id < after.next_id by {
            if a > 0 {
                assert(clips[a] == m.clips[a - 1]);
            }
        }
        assert forall|a: int, b: int| 0 <= a < b < clips.len() implies (#[trigger] clips[a]).data
            != (#[trigger] clips[b]).data && clips[a].id != clips[b].id by {
            assert(clips[b] == m.clips[b - 1]);
            if a > 0 {
                assert(clips[a] == m.clips[a - 1]);
            }
        }
        assert forall|id: u64| holds_id(room.clips, id) implies holds_id(clips, id) by {
            let k = choose|k: int| 0 <= k < room.clips.len() && (#[trigger] room.clips[k]).id == id;
            assert(clips[k + 1].id == id);
        }
        assert forall|id: u64| holds_id(m.clips, id) && !(full && id == m.clips.last().id)
            implies holds_id(room.clips, id) by {
            let k = choose|k: int| 0 <= k < m.clips.len() && (#[trigger] m.clips[k]).id == id;
            if full {
                assert(k < m.clips.len() - 1);
                assert(room.clips[k].id == id);
            }
        }
        assert(holds_id(clips, fresh.id));
    }
}

/// A removal keeps the invariant of the history.
pub proof fn lemma_remove_valid(m: ManagerView, id: u64)
    requires
        m.valid(),
    ensures
        m.remove(id).valid(),
{
    if m.has_id(id) {
        let i = m.position_of_id(id);
        let clips = m.clips.remove(i);
        assert(m.remove(id).clips == clips);
        assert forall|other: u64| other != id && holds_id(m.clips, other) implies holds_id(
            clips,
            other,
        ) by {
            let k = choose|k: int| 0 <= k < m.clips.len() && (#[trigger] m.clips[k]).id == other;
            let a = if k < i { k } else { k - 1 };
            assert(clips[a] == m.clips[k]);
        }
    }
}

/// Marking a clip as current keeps the invariant of the history.
pub proof fn lemma_mark_valid(m: ManagerView, id: u64, kind: ClipboardKind)
    requires
        m.valid(),
    ensures
        m.mark_as_current(id, kind).valid(),
{
}

/// What a bulk load keeps: at most `capacity` clips, each from the input,
/// with ids counted up from `first_id`, no payload empty or repeated.
pub proof fn lemma_loadable(loaded: Seq<ClipView>, capacity: nat, first_id: u64)
    ensures
        loadable(loaded, capacity, first_id).len() <= capacity,
        loadable(loaded, capacity, first_id).len() <= loaded.len(),
        first_id + loadable(loaded, capacity, first_id).len() <= u64::MAX,
        distinct_data(loadable(loaded, capacity, first_id)),
        forall|k: int|
            0 <= k < loadable(loaded, capacity, first_id).len() ==> {
                let clip = #[trigger] loadable(loaded, capacity, first_id)[k];
                &&& clip.id == first_id + k
                &&& clip.data.len() > 0
                &&& exists|j: int| 0 <= j < loaded.len() && clip == (#[trigger] loaded[j]).with_id(clip.id)
            },
    decreases loaded.len(),
{
    if loaded.len() > 0 {
        let before = loadable(loaded.drop_last(), capacity, first_id);
        let kept = loadable(loaded, capacity, first_id);
        lemma_loadable(loaded.drop_last(), capacity, first_id);
        assert forall|k: int| 0 <= k < kept.len() implies {
            let clip = #[trigger] kept[k];
            &&& clip.id == first_id + k
            &&& clip.data.len() > 0
            &&& exists|j: int| 0 <= j < loaded.len() && clip == (#[trigger] loaded[j]).with_id(clip.id)
        } by {
            let clip = kept[k];
            if k < before.len() {
                assert(clip == before[k]);
                let j = choose|j: int|
                    0 <= j < loaded.drop_last().len() && before[k] == (#[trigger] loaded.drop_last()[j]).with_id(
                        before[k].id,
                    );
                assert(loaded[j] == loaded.drop_last()[j]);
            } else {
                assert(clip == loaded[loaded.len() - 1].with_id(clip.id));
            }
        }
        assert forall|a: int, b: int| 0 <= a < b < kept.len() implies (#[trigger] kept[a]).data != (
        #[trigger] kept[b]).data by {
            if b < before.len() {
                assert(kept[a] == before[a] && kept[b] == before[b]);
            } else {
                assert(kept[a] == before[a]);
                assert(!holds_data(before, loaded.last().data));
            }
        }
    }
}

/// A bulk load keeps the invariant of the history.
pub proof fn lemma_import_valid(m: ManagerView, loaded: Seq<ClipView>)
    requires
        m.valid(),
    ensures
        m.import(loaded).valid(),
{
    let kept = loadable(loaded, m.capacity, m.next_id);
    lemma_loadable(loaded, m.capacity, m.next_id);
    assert forall|a: int, b: int| 0 <= a < b < kept.len() implies (#[trigger] kept[a]).id != (
    #[trigger] kept[b]).id by {}
}

/// Whatever run of insertions, removals, clearings, markings and bulk loads
/// a valid history goes through, it stays valid: in particular it never holds
/// more clips than its capacity, and no two of its clips carry the same
/// payload.
pub proof fn law_history_stays_valid(m: ManagerView, ops: Seq<Operation>)
    requires
        m.valid(),
    ensures
        run(m, ops).valid(),
        run(m, ops).clips.len() <= run(m, ops).capacity,
        run(m, ops).capacity == m.capacity,
        distinct_data(run(m, ops).clips),
        run(m, ops).next_id >= m.next_id,
    decreases ops.len(),
{
    if ops.len() > 0 {
        let before = run(m, ops.drop_last());
        law_history_stays_valid(m, ops.drop_last());
        match ops.last() {
            Operation::Insert(kind, data, timestamp) => {
                lemma_insert_valid(before, kind, data, timestamp);
            },
            Operation::Remove(id) => {
                lemma_remove_valid(before, id);
            },
            Operation::Clear => {},
            Operation::MarkAsCurrent(id, kind) => {
                lemma_mark_valid(before, id, kind);
            },
            Operation::Import(loaded) => {
                lemma_import_valid(before, loaded);
                lemma_loadable(loaded, before.capacity, before.next_id);
            },
        }
    }
}

/// Right after an insertion that is not refused, the head of the history
/// carries the payload inserted, under the id that the insertion returned,
/// and that id can be looked up and removed.
pub proof fn law_inserted_is_head(
    m: ManagerView,
    kind: ClipboardKind,
    data: Seq<u8>,
    timestamp: u64,
)
    requires
        m.valid(),
        m.insert_error(data) is None,
    ensures
        m.insert(kind, data, timestamp).clips.len() > 0,
        m.insert(kind, data, timestamp).clips[0].data == data,
        m.insert(kind, data, timestamp).clips[0].id == m.insert_id(data),
        m.insert(kind, data, timestamp).has_id(m.insert_id(data)),
        m.insert(kind, data, timestamp).has_data(data),
        m.insert(kind, data, timestamp).current(kind) == Some(m.insert_id(data)),
{
    let after = m.insert(kind, data, timestamp);
    if m.has_data(data) {
        lemma_moved_to_head(m.clips, m.position_of_data(data));
    }
    assert(after.clips[0].data == data);
    assert(after.clips[0].id == m.insert_id(data));
}

/// Inserting the same payload twice returns the same id both times, and the
/// second insertion adds nothing. The first adds exactly one clip where the
/// payload is new and the history has room; it adds none where the payload was
/// there already or the least recent clip had to leave.
pub proof fn law_insert_twice(
    m: ManagerView,
    kind: ClipboardKind,
    data: Seq<u8>,
    timestamp: u64,
    kind_again: ClipboardKind,
    timestamp_again: u64,
)
    requires
        m.valid(),
        m.insert_error(data) is None,
    ensures
        m.insert(kind, data, timestamp).insert_error(data) is None,
        m.insert(kind, data, timestamp).insert_id(data) == m.insert_id(data),
        m.insert(kind, data, timestamp).insert(kind_again, data, timestamp_again).clips.len()
            == m.insert(kind, data, timestamp).clips.len(),
        !m.has_data(data) && m.clips.len() < m.capacity ==> m.insert(
            kind,
            data,
            timestamp,
        ).clips.len() == m.clips.len() + 1,
        m.has_data(data) || m.clips.len() >= m.capacity ==> m.insert(
            kind,
            data,
            timestamp,
        ).clips.len() == m.clips.len(),
{
    let first = m.insert(kind, data, timestamp);
    law_inserted_is_head(m, kind, data, timestamp);
    lemma_insert_valid(m, kind, data, timestamp);
    lemma_position_of_data(first, 0);
    let second = first.insert(kind_again, data, timestamp_again);
    lemma_moved_to_head(first.clips, 0);
    if m.has_data(data) {
        lemma_moved_to_head(m.clips, m.position_of_data(data));
    }
}

/// Loading the list of a valid history into a manager with room and ids
/// enough gives the same clips in the same order, each under a fresh id.
pub proof fn law_import_of_list(m: ManagerView, into: ManagerView)
    requires
        m.valid(),
        m.clips.len() <= into.capacity,
        into.next_id + m.clips.len() <= u64::MAX,
    ensures
        into.import(m.clips).clips.len() == m.clips.len(),
        forall|k: int|
            0 <= k < m.clips.len() ==> #[trigger] into.import(m.clips).clips[k] == m.clips[k].with_id(
                (into.next_id + k) as u64,
            ),
        forall|k: int|
            0 <= k < m.clips.len() ==> (#[trigger] into.import(m.clips).clips[k]).same_content(
                m.clips[k],
            ),
{
    lemma_loadable_of_distinct(m.clips, into.capacity, into.next_id);
}

/// A bulk load keeps all of an input that has no empty and no repeated
/// payload and fits the capacity and the ids left.
pub proof fn lemma_loadable_of_distinct(loaded: Seq<ClipView>, capacity: nat, first_id: u64)
    requires
        distinct_data(loaded),
        forall|k: int| 0 <= k < loaded.len() ==> (#[trigger] loaded[k]).data.len() > 0,
        loaded.len() <= capacity,
        first_id + loaded.len() <= u64::MAX,
    ensures
        loadable(loaded, capacity, first_id).len() == loaded.len(),
        forall|k: int|
            0 <= k < loaded.len() ==> #[trigger] loadable(loaded, capacity, first_id)[k]
                == loaded[k].with_id((first_id + k) as u64),
    decreases loaded.len(),
{
    if loaded.len() > 0 {
        let shorter = loaded.drop_last();
        let before = loadable(shorter, capacity, first_id);
        assert forall|k: int| 0 <= k < shorter.len() implies (#[trigger] shorter[k]).data.len()
            > 0 by {
            assert(shorter[k] == loaded[k]);
        }
        assert forall|i: int, j: int| 0 <= i < j < shorter.len() implies (#[trigger] shorter[i]).data
            != (#[trigger] shorter[j]).data by {
            assert(shorter[i] == loaded[i] && shorter[j] == loaded[j]);
        }
        lemma_loadable_of_distinct(shorter, capacity, first_id);
        if holds_data(before, loaded.last().data) {
            let k = choose|k: int|
                0 <= k < before.len() && (#[trigger] before[k]).data == loaded.last().data;
            assert(before[k] == shorter[k].with_id((first_id + k) as u64));
            assert(shorter[k] == loaded[k]);
            assert(loaded[k].data != loaded[loaded.len() - 1].data);
        }
        let kept = loadable(loaded, capacity, first_id);
        assert(kept == before.push(loaded.last().with_id((first_id + before.len()) as u64)));
        assert forall|k: int| 0 <= k < loaded.len() implies #[trigger] kept[k] == loaded[k].with_id(
            (first_id + k) as u64,
        ) by {
            if k < shorter.len() {
                assert(kept[k] == before[k]);
                assert(shorter[k] == loaded[k]);
            }
        }
    }
}

/// Clearing twice leaves what clearing once leaves.
pub proof fn law_clear_twice(m: ManagerView)
    ensures
        m.clear().clear() == m.clear(),
        m.clear().clips.len() == 0,
{
}

/// Removing an id that the history does not hold changes nothing.
pub proof fn law_remove_absent(m: ManagerView, id: u64)
    requires
        !m.has_id(id),
    ensures
        m.remove(id) == m,
{
}

/// In a history of capacity one, an insertion of a new payload leaves that
/// payload alone in the history: the clip that was there is gone.
pub proof fn law_capacity_one(m: ManagerView, kind: ClipboardKind, data: Seq<u8>, timestamp: u64)
    requires
        m.valid(),
        m.capacity == 1,
        m.insert_error(data) is None,
        !m.has_data(data),
    ensures
        m.insert(kind, data, timestamp).clips == seq![
            ClipView { id: m.next_id, data, kind, timestamp },
        ],
        forall|i: int|
            0 <= i < m.clips.len() ==> !m.insert(kind, data, timestamp).has_data(
                (#[trigger] m.clips[i]).data,
            ),
{
    let after = m.insert(kind, data, timestamp);
    let fresh = ClipView { id: m.next_id, data, kind, timestamp };
    assert(after.clips =~= seq![fresh]);
    assert forall|i: int| 0 <= i < m.clips.len() implies !after.has_data(
        (#[trigger] m.clips[i]).data,
    ) by {
        if after.has_data(m.clips[i].data) {
            let k = choose|k: int|
                0 <= k < after.clips.len() && (#[trigger] after.clips[k]).data == m.clips[i].data;
            assert(after.clips[k] == fresh);
            assert(holds_data(m.clips, data));
        }
    }
}

/// An id is handed out once: the id of a new clip is none that the history
/// holds, and none that was handed out before.
pub proof fn law_new_id_is_fresh(m: ManagerView, kind: ClipboardKind, data: Seq<u8>, timestamp: u64)
    requires
        m.valid(),
        m.insert_error(data) is None,
        !m.has_data(data),
    ensures
        m.insert_id(data) == m.next_id,
        !m.has_id(m.insert_id(data)),
        m.insert(kind, data, timestamp).next_id == m.next_id + 1,
{
    if m.has_id(m.next_id) {
        let i = m.position_of_id(m.next_id);
        assert(m.clips[i].id < m.next_id);
    }
}

/// A clip stays as it is while it is in the history: whatever an insertion,
/// a removal, a clearing or a marking leaves in the history has the id, the
/// kind and the timestamp that it had before.
pub proof fn law_clips_are_stable(m: ManagerView, op: Operation)
    requires
        m.valid(),
        !(op is Import),
    ensures
        forall|i: int, j: int|
            0 <= i < m.clips.len() && 0 <= j < apply(m, op).clips.len() && (#[trigger] m.clips[i]).data
                == (#[trigger] apply(m, op).clips[j]).data ==> m.clips[i] == apply(m, op).clips[j],
{
    let after = apply(m, op);
    assert forall|i: int, j: int|
        0 <= i < m.clips.len() && 0 <= j < after.clips.len() && (#[trigger] m.clips[i]).data == (
        #[trigger] after.clips[j]).data implies m.clips[i] == after.clips[j] by {
        let k = match op {
            Operation::Insert(kind, data, timestamp) => {
                if m.insert_error(data) is Some {
                    j
                } else if m.has_data(data) {
                    let p = m.position_of_data(data);
                    lemma_moved_to_head(m.clips, p);
                    if j == 0 {
                        p
                    } else if j <= p {
                        j - 1
                    } else {
                        j
                    }
                } else {
                    let full = m.clips.len() >= m.capacity && m.clips.len() > 0;
                    let room = if full { m.without_last() } else { m };
                    assert(after.clips == seq![
                        ClipView { id: m.next_id, data, kind, timestamp },
                    ] + room.clips);
                    if j == 0 {
                        assert(after.clips[0].data == data);
                        assert(holds_data(m.clips, data));
                        i
                    } else {
                        assert(after.clips[j] == room.clips[j - 1]);
                        j - 1
                    }
                }
            },
            Operation::Remove(id) => {
                if m.has_id(id) {
                    let p = m.position_of_id(id);
                    if j < p {
                        j
                    } else {
                        j + 1
                    }
                } else {
                    j
                }
            },
            _ => j,
        };
        assert(0 <= k < m.clips.len());
        assert(after.clips[j] == m.clips[k]);
        if i < k {
            assert(m.clips[i].data != m.clips[k].data);
        } else if k < i {
            assert(m.clips[k].data != m.clips[i].data);
        }
    }
}

} // verus!
