use clipcat::clip::{bytes_equal, copy_bytes, Clip, ClipboardKind};
use clipcat::manager::{ClipboardManager, ManagerError};

fn manager_of(capacity: usize) -> ClipboardManager {
    ClipboardManager::with_capacity(capacity).expect("capacity is not zero")
}

fn payloads(manager: &ClipboardManager) -> Vec<Vec<u8>> {
    manager.list().into_iter().map(|clip| clip.data).collect()
}

fn texts(items: &[&str]) -> Vec<Vec<u8>> {
    items.iter().map(|text| text.as_bytes().to_vec()).collect()
}

#[test]
fn kinds_are_each_other_s_other() {
    assert_eq!(ClipboardKind::Clipboard.other(), ClipboardKind::Primary);
    assert_eq!(ClipboardKind::Primary.other(), ClipboardKind::Clipboard);
}

#[test]
fn bytes_are_compared_byte_for_byte() {
    assert!(bytes_equal(b"abc", b"abc"));
    assert!(bytes_equal(b"", b""));
    assert!(!bytes_equal(b"abc", b"abd"));
    assert!(!bytes_equal(b"abc", b"ab"));
    assert_eq!(copy_bytes(b"xyz"), b"xyz".to_vec());
}

#[test]
fn clip_new_and_clone_keep_every_field() {
    let clip = Clip::new(7, ClipboardKind::Primary, b"text", 99);
    assert_eq!(clip.id, 7);
    assert_eq!(clip.data, b"text".to_vec());
    assert_eq!(clip.kind, ClipboardKind::Primary);
    assert_eq!(clip.timestamp, 99);
    assert_eq!(clip.clone(), clip);
}

#[test]
fn zero_capacity_is_refused() {
    assert_eq!(ClipboardManager::with_capacity(0).err(), Some(ManagerError::ZeroCapacity));
}

#[test]
fn fresh_manager_is_empty() {
    let manager = manager_of(50);
    assert_eq!(manager.len(), 0);
    assert!(manager.is_empty());
    assert_eq!(manager.capacity(), 50);
    assert_eq!(manager.list(), vec![]);
    assert_eq!(manager.current(ClipboardKind::Clipboard), None);
    assert_eq!(manager.current(ClipboardKind::Primary), None);
}

#[test]
fn repeated_payload_moves_to_head() {
    let mut manager = manager_of(3);
    for text in ["a", "b", "c", "a"] {
        manager.insert(ClipboardKind::Clipboard, text.as_bytes(), 1).expect("not empty");
    }
    assert_eq!(payloads(&manager), texts(&["a", "c", "b"]));
}

#[test]
fn full_history_evicts_least_recent() {
    let mut manager = manager_of(2);
    let (first, _) = manager.insert(ClipboardKind::Clipboard, b"a", 1).expect("not empty");
    manager.insert(ClipboardKind::Clipboard, b"b", 2).expect("not empty");
    manager.insert(ClipboardKind::Clipboard, b"c", 3).expect("not empty");
    assert_eq!(payloads(&manager), texts(&["c", "b"]));
    assert_eq!(manager.get(first), None);
    assert_eq!(manager.len(), 2);
}

#[test]
fn insert_hands_out_ids_in_order() {
    let mut manager = manager_of(5);
    assert_eq!(manager.insert(ClipboardKind::Clipboard, b"a", 10), Ok((0, true)));
    assert_eq!(manager.insert(ClipboardKind::Primary, b"b", 11), Ok((1, true)));
    assert_eq!(manager.insert(ClipboardKind::Clipboard, b"c", 12), Ok((2, true)));
    assert_eq!(
        manager.list(),
        vec![
            Clip { id: 2, data: b"c".to_vec(), kind: ClipboardKind::Clipboard, timestamp: 12 },
            Clip { id: 1, data: b"b".to_vec(), kind: ClipboardKind::Primary, timestamp: 11 },
            Clip { id: 0, data: b"a".to_vec(), kind: ClipboardKind::Clipboard, timestamp: 10 },
        ]
    );
}

#[test]
fn inserted_payload_is_head() {
    let mut manager = manager_of(4);
    manager.insert(ClipboardKind::Clipboard, b"one", 1).expect("not empty");
    manager.insert(ClipboardKind::Clipboard, b"two", 2).expect("not empty");
    assert_eq!(manager.list()[0].data, b"two".to_vec());
    manager.insert(ClipboardKind::Clipboard, b"one", 3).expect("not empty");
    assert_eq!(manager.list()[0].data, b"one".to_vec());
}

#[test]
fn inserting_twice_gives_one_id_and_one_clip() {
    let mut manager = manager_of(4);
    manager.insert(ClipboardKind::Clipboard, b"other", 1).expect("not empty");
    let before = manager.len();
    let first = manager.insert(ClipboardKind::Clipboard, b"d", 2).expect("not empty");
    let second = manager.insert(ClipboardKind::Primary, b"d", 3).expect("not empty");
    assert_eq!(first, (1, true));
    assert_eq!(second, (1, false));
    assert_eq!(manager.len(), before + 1);
}

#[test]
fn duplicate_keeps_the_clip_as_it_was() {
    let mut manager = manager_of(4);
    manager.insert(ClipboardKind::Clipboard, b"d", 2).expect("not empty");
    manager.insert(ClipboardKind::Clipboard, b"e", 3).expect("not empty");
    manager.insert(ClipboardKind::Primary, b"d", 9).expect("not empty");
    assert_eq!(
        manager.list()[0],
        Clip { id: 0, data: b"d".to_vec(), kind: ClipboardKind::Clipboard, timestamp: 2 }
    );
    assert_eq!(manager.current(ClipboardKind::Primary), Some(0));
    assert_eq!(manager.current(ClipboardKind::Clipboard), Some(1));
}

#[test]
fn empty_data_is_refused() {
    let mut manager = manager_of(4);
    manager.insert(ClipboardKind::Clipboard, b"a", 1).expect("not empty");
    assert_eq!(manager.insert(ClipboardKind::Clipboard, b"", 2), Err(ManagerError::EmptyData));
    assert_eq!(payloads(&manager), texts(&["a"]));
    assert_eq!(manager.current(ClipboardKind::Clipboard), Some(0));
}

#[test]
fn duplicates_are_told_byte_for_byte() {
    let mut manager = manager_of(4);
    manager.insert(ClipboardKind::Clipboard, b"text", 1).expect("not empty");
    assert_eq!(manager.insert(ClipboardKind::Clipboard, b"Text", 2), Ok((1, true)));
    assert_eq!(manager.insert(ClipboardKind::Clipboard, b"text ", 3), Ok((2, true)));
    assert_eq!(manager.insert(ClipboardKind::Clipboard, b"text", 4), Ok((0, false)));
    assert_eq!(manager.len(), 3);
}

#[test]
fn insert_marks_the_selection_s_current_clip() {
    let mut manager = manager_of(4);
    let (a, _) = manager.insert(ClipboardKind::Clipboard, b"a", 1).expect("not empty");
    assert_eq!(manager.current(ClipboardKind::Clipboard), Some(a));
    assert_eq!(manager.current(ClipboardKind::Primary), None);
    let (b, _) = manager.insert(ClipboardKind::Primary, b"b", 2).expect("not empty");
    assert_eq!(manager.current(ClipboardKind::Clipboard), Some(a));
    assert_eq!(manager.current(ClipboardKind::Primary), Some(b));
}

#[test]
fn eviction_empties_the_slot_of_the_evicted_clip() {
    let mut manager = manager_of(1);
    manager.insert(ClipboardKind::Clipboard, b"a", 1).expect("not empty");
    let (b, _) = manager.insert(ClipboardKind::Primary, b"b", 2).expect("not empty");
    assert_eq!(manager.current(ClipboardKind::Clipboard), None);
    assert_eq!(manager.current(ClipboardKind::Primary), Some(b));
}

#[test]
fn capacity_one_keeps_only_the_newest() {
    let mut manager = manager_of(1);
    manager.insert(ClipboardKind::Clipboard, b"a", 1).expect("not empty");
    assert_eq!(payloads(&manager), texts(&["a"]));
    manager.insert(ClipboardKind::Clipboard, b"b", 2).expect("not empty");
    assert_eq!(payloads(&manager), texts(&["b"]));
    manager.insert(ClipboardKind::Clipboard, b"c", 3).expect("not empty");
    assert_eq!(payloads(&manager), texts(&["c"]));
    assert_eq!(manager.len(), 1);
}

#[test]
fn length_never_exceeds_capacity() {
    let mut manager = manager_of(3);
    for n in 0u8..20 {
        manager.insert(ClipboardKind::Clipboard, &[b'a' + n % 7, n], u64::from(n)).expect("not empty");
        assert!(manager.len() <= manager.capacity());
    }
    assert_eq!(manager.len(), 3);
}

#[test]
fn payloads_stay_distinct() {
    let mut manager = manager_of(4);
    for text in ["a", "b", "a", "c", "b", "a", "d", "d", "e"] {
        manager.insert(ClipboardKind::Clipboard, text.as_bytes(), 0).expect("not empty");
        let list = payloads(&manager);
        for i in 0..list.len() {
            for j in (i + 1)..list.len() {
                assert_ne!(list[i], list[j]);
            }
        }
    }
    assert_eq!(payloads(&manager), texts(&["e", "d", "a", "b"]));
}

#[test]
fn get_finds_a_clip_by_its_id() {
    let mut manager = manager_of(4);
    manager.insert(ClipboardKind::Clipboard, b"a", 5).expect("not empty");
    let (id, _) = manager.insert(ClipboardKind::Primary, b"b", 6).expect("not empty");
    assert_eq!(
        manager.get(id),
        Some(Clip { id, data: b"b".to_vec(), kind: ClipboardKind::Primary, timestamp: 6 })
    );
    assert_eq!(manager.get(17), None);
}

#[test]
fn remove_takes_the_clip_out() {
    let mut manager = manager_of(4);
    let (a, _) = manager.insert(ClipboardKind::Clipboard, b"a", 1).expect("not empty");
    manager.insert(ClipboardKind::Primary, b"b", 2).expect("not empty");
    manager.insert(ClipboardKind::Primary, b"c", 3).expect("not empty");
    assert!(manager.remove(a));
    assert_eq!(payloads(&manager), texts(&["c", "b"]));
    assert_eq!(manager.get(a), None);
    assert_eq!(manager.current(ClipboardKind::Clipboard), None);
    assert_eq!(manager.current(ClipboardKind::Primary), Some(2));
    assert!(!manager.remove(a));
}

#[test]
fn removing_an_unknown_id_changes_nothing() {
    let mut manager = manager_of(4);
    manager.insert(ClipboardKind::Clipboard, b"a", 1).expect("not empty");
    manager.insert(ClipboardKind::Primary, b"b", 2).expect("not empty");
    let before = manager.list();
    assert!(!manager.remove(42));
    assert_eq!(manager.list(), before);
    assert_eq!(manager.current(ClipboardKind::Clipboard), Some(0));
    assert_eq!(manager.current(ClipboardKind::Primary), Some(1));
}

#[test]
fn removed_id_is_not_handed_out_again() {
    let mut manager = manager_of(4);
    let (a, _) = manager.insert(ClipboardKind::Clipboard, b"a", 1).expect("not empty");
    assert!(manager.remove(a));
    assert_eq!(manager.insert(ClipboardKind::Clipboard, b"a", 2), Ok((1, true)));
}

#[test]
fn delete_right_after_insert_succeeds() {
    let mut manager = manager_of(1);
    manager.insert(ClipboardKind::Clipboard, b"old", 1).expect("not empty");
    let (id, _) = manager.insert(ClipboardKind::Clipboard, b"new", 2).expect("not empty");
    assert!(manager.remove(id));
    assert!(manager.is_empty());
}

#[test]
fn clearing_twice_is_clearing_once() {
    let mut manager = manager_of(4);
    manager.insert(ClipboardKind::Clipboard, b"a", 1).expect("not empty");
    manager.insert(ClipboardKind::Primary, b"b", 2).expect("not empty");
    manager.clear();
    assert!(manager.is_empty());
    assert_eq!(manager.current(ClipboardKind::Clipboard), None);
    assert_eq!(manager.current(ClipboardKind::Primary), None);
    assert_eq!(manager.capacity(), 4);
    manager.clear();
    assert!(manager.is_empty());
    assert_eq!(manager.capacity(), 4);
    assert_eq!(manager.insert(ClipboardKind::Clipboard, b"a", 3), Ok((2, true)));
}

#[test]
fn mark_as_current_needs_a_known_id() {
    let mut manager = manager_of(4);
    let (a, _) = manager.insert(ClipboardKind::Clipboard, b"a", 1).expect("not empty");
    manager.insert(ClipboardKind::Clipboard, b"b", 2).expect("not empty");
    assert_eq!(manager.mark_as_current(a, ClipboardKind::Primary), Ok(()));
    assert_eq!(manager.current(ClipboardKind::Primary), Some(a));
    assert_eq!(manager.mark_as_current(9, ClipboardKind::Primary), Err(ManagerError::UnknownId));
    assert_eq!(manager.current(ClipboardKind::Primary), Some(a));
    assert_eq!(payloads(&manager), texts(&["b", "a"]));
}

#[test]
fn import_keeps_order_and_gives_fresh_ids() {
    let mut manager = manager_of(5);
    manager.insert(ClipboardKind::Clipboard, b"gone", 1).expect("not empty");
    let loaded = vec![
        Clip { id: 40, data: b"p".to_vec(), kind: ClipboardKind::Primary, timestamp: 7 },
        Clip { id: 40, data: b"q".to_vec(), kind: ClipboardKind::Clipboard, timestamp: 3 },
    ];
    manager.import(&loaded);
    assert_eq!(
        manager.list(),
        vec![
            Clip { id: 1, data: b"p".to_vec(), kind: ClipboardKind::Primary, timestamp: 7 },
            Clip { id: 2, data: b"q".to_vec(), kind: ClipboardKind::Clipboard, timestamp: 3 },
        ]
    );
    assert_eq!(manager.current(ClipboardKind::Clipboard), None);
    assert_eq!(manager.insert(ClipboardKind::Clipboard, b"r", 8), Ok((3, true)));
}

#[test]
fn import_stops_at_capacity() {
    let mut manager = manager_of(2);
    let loaded: Vec<Clip> = ["a", "b", "c", "d"]
        .iter()
        .map(|text| Clip::new(0, ClipboardKind::Clipboard, text.as_bytes(), 1))
        .collect();
    manager.import(&loaded);
    assert_eq!(payloads(&manager), texts(&["a", "b"]));
}

#[test]
fn import_leaves_out_empty_and_repeated_payloads() {
    let mut manager = manager_of(3);
    let loaded: Vec<Clip> = ["a", "", "a", "b", "b", "c", "d"]
        .iter()
        .map(|text| Clip::new(0, ClipboardKind::Clipboard, text.as_bytes(), 1))
        .collect();
    manager.import(&loaded);
    assert_eq!(payloads(&manager), texts(&["a", "b", "c"]));
    let ids: Vec<u64> = manager.list().iter().map(|clip| clip.id).collect();
    assert_eq!(ids, vec![0, 1, 2]);
}

#[test]
fn import_of_list_is_identity_but_for_ids() {
    let mut manager = manager_of(4);
    for (n, text) in ["a", "b", "c", "a", "d", "e"].iter().enumerate() {
        let kind = if n % 2 == 0 { ClipboardKind::Clipboard } else { ClipboardKind::Primary };
        manager.insert(kind, text.as_bytes(), n as u64).expect("not empty");
    }
    let before = manager.list();
    manager.import(&before);
    let after = manager.list();
    assert_eq!(after.len(), before.len());
    for (old, new) in before.iter().zip(after.iter()) {
        assert_eq!(new.data, old.data);
        assert_eq!(new.kind, old.kind);
        assert_eq!(new.timestamp, old.timestamp);
    }
    let ids: Vec<u64> = after.iter().map(|clip| clip.id).collect();
    assert_eq!(ids, vec![5, 6, 7, 8]);
    let mut other = manager_of(4);
    other.import(&before);
    assert_eq!(payloads(&other), payloads(&manager));
}
