use clipcat::clip::ClipboardKind;
use clipcat::config::LogLevel;
use clipcat::manager::{ClipboardManager, ManagerError};
use clipcat::monitor::{ClipboardMonitor, ClipboardMonitorOptions};
use clipcat::pipeline::{Phase, PipelineWorker, Reaction, SaveState, Step};

fn monitor_with(clipboard: bool, primary: bool) -> ClipboardMonitor {
    ClipboardMonitor::new(ClipboardMonitorOptions {
        load_current: false,
        enable_clipboard: clipboard,
        enable_primary: primary,
        filter_min_size: 0,
    })
}

fn history_of(manager: &ClipboardManager) -> Vec<Vec<u8>> {
    manager.list().into_iter().map(|clip| clip.data).collect()
}

#[test]
fn worker_starts_running_and_idle() {
    assert_eq!(PipelineWorker::new(), PipelineWorker { phase: Phase::Running, save: SaveState::Idle });
}

#[test]
fn events_fill_the_history_in_order_of_receipt() {
    let mut worker = PipelineWorker::new();
    let mut manager = ClipboardManager::with_capacity(3).expect("capacity is not zero");
    let mut monitor = monitor_with(true, false);
    for text in ["a", "b", "c", "a"] {
        assert!(monitor.observe(ClipboardKind::Clipboard, text.as_bytes()));
        worker.on_event(&mut manager, &mut monitor, ClipboardKind::Clipboard, text.as_bytes(), 1);
    }
    assert_eq!(history_of(&manager), vec![b"a".to_vec(), b"c".to_vec(), b"b".to_vec()]);
}

#[test]
fn third_event_evicts_the_first_of_two() {
    let mut worker = PipelineWorker::new();
    let mut manager = ClipboardManager::with_capacity(2).expect("capacity is not zero");
    let mut monitor = monitor_with(true, false);
    for text in ["a", "b", "c"] {
        worker.on_event(&mut manager, &mut monitor, ClipboardKind::Clipboard, text.as_bytes(), 1);
    }
    assert_eq!(history_of(&manager), vec![b"c".to_vec(), b"b".to_vec()]);
}

#[test]
fn new_payload_starts_a_write() {
    let mut worker = PipelineWorker::new();
    let mut manager = ClipboardManager::with_capacity(5).expect("capacity is not zero");
    let mut monitor = monitor_with(true, false);
    let reaction = worker.on_event(&mut manager, &mut monitor, ClipboardKind::Clipboard, b"a", 1);
    assert_eq!(reaction, Reaction::Recorded { id: 0, inserted: true, save: true, mirror: None });
    assert_eq!(worker.save, SaveState::Saving);
    assert_eq!(reaction.log_level(), Some(LogLevel::Info));
}

#[test]
fn duplicate_starts_no_write() {
    let mut worker = PipelineWorker::new();
    let mut manager = ClipboardManager::with_capacity(5).expect("capacity is not zero");
    let mut monitor = monitor_with(true, false);
    worker.on_event(&mut manager, &mut monitor, ClipboardKind::Clipboard, b"a", 1);
    assert_eq!(worker.on_save_completed(), Step::Wait);
    let reaction = worker.on_event(&mut manager, &mut monitor, ClipboardKind::Clipboard, b"a", 2);
    assert_eq!(reaction, Reaction::Recorded { id: 0, inserted: false, save: false, mirror: None });
    assert_eq!(worker.save, SaveState::Idle);
    assert_eq!(reaction.log_level(), Some(LogLevel::Debug));
}

#[test]
fn writes_asked_for_during_a_write_become_one() {
    let mut worker = PipelineWorker::new();
    let mut manager = ClipboardManager::with_capacity(9).expect("capacity is not zero");
    let mut monitor = monitor_with(true, false);
    let first = worker.on_event(&mut manager, &mut monitor, ClipboardKind::Clipboard, b"a", 1);
    assert!(matches!(first, Reaction::Recorded { save: true, .. }));
    for text in ["b", "c", "d"] {
        let next = worker.on_event(&mut manager, &mut monitor, ClipboardKind::Clipboard, text.as_bytes(), 1);
        assert!(matches!(next, Reaction::Recorded { inserted: true, save: false, .. }));
        assert_eq!(worker.save, SaveState::SavingQueued);
    }
    assert_eq!(worker.on_save_completed(), Step::Save);
    assert_eq!(worker.save, SaveState::Saving);
    assert_eq!(worker.on_save_completed(), Step::Wait);
    assert_eq!(worker.save, SaveState::Idle);
    assert_eq!(worker.on_save_completed(), Step::Wait);
    assert_eq!(worker.save, SaveState::Idle);
}

#[test]
fn refused_payload_changes_nothing() {
    let mut worker = PipelineWorker::new();
    let mut manager = ClipboardManager::with_capacity(5).expect("capacity is not zero");
    let mut monitor = monitor_with(true, true);
    let reaction = worker.on_event(&mut manager, &mut monitor, ClipboardKind::Clipboard, b"", 1);
    assert_eq!(reaction, Reaction::Rejected(ManagerError::EmptyData));
    assert_eq!(reaction.log_level(), Some(LogLevel::Warn));
    assert!(manager.is_empty());
    assert_eq!(worker, PipelineWorker::new());
    assert!(monitor.observe(ClipboardKind::Primary, b""));
}

#[test]
fn new_clip_is_mirrored_to_the_other_selection() {
    let mut worker = PipelineWorker::new();
    let mut manager = ClipboardManager::with_capacity(5).expect("capacity is not zero");
    let mut monitor = monitor_with(true, true);
    let reaction = worker.on_event(&mut manager, &mut monitor, ClipboardKind::Clipboard, b"a", 1);
    assert_eq!(
        reaction,
        Reaction::Recorded { id: 0, inserted: true, save: true, mirror: Some(ClipboardKind::Primary) }
    );
    assert_eq!(manager.current(ClipboardKind::Clipboard), Some(0));
    assert_eq!(manager.current(ClipboardKind::Primary), Some(0));
    let reaction = worker.on_event(&mut manager, &mut monitor, ClipboardKind::Primary, b"b", 2);
    assert!(matches!(reaction, Reaction::Recorded { id: 1, mirror: Some(ClipboardKind::Clipboard), .. }));
}

#[test]
fn mirroring_does_not_loop() {
    let mut worker = PipelineWorker::new();
    let mut manager = ClipboardManager::with_capacity(5).expect("capacity is not zero");
    let mut monitor = monitor_with(true, true);
    assert!(monitor.observe(ClipboardKind::Clipboard, b"same"));
    let reaction = worker.on_event(&mut manager, &mut monitor, ClipboardKind::Clipboard, b"same", 1);
    assert!(matches!(reaction, Reaction::Recorded { mirror: Some(ClipboardKind::Primary), .. }));
    assert!(!monitor.observe(ClipboardKind::Primary, b"same"));
    let back = worker.on_event(&mut manager, &mut monitor, ClipboardKind::Primary, b"same", 2);
    assert_eq!(back, Reaction::Recorded { id: 0, inserted: false, save: false, mirror: None });
    assert_eq!(manager.len(), 1);
}

#[test]
fn nothing_is_mirrored_unless_both_selections_are_enabled() {
    for (clipboard, primary) in [(true, false), (false, true), (false, false)] {
        let mut worker = PipelineWorker::new();
        let mut manager = ClipboardManager::with_capacity(5).expect("capacity is not zero");
        let mut monitor = monitor_with(clipboard, primary);
        let reaction = worker.on_event(&mut manager, &mut monitor, ClipboardKind::Clipboard, b"a", 1);
        assert_eq!(reaction, Reaction::Recorded { id: 0, inserted: true, save: true, mirror: None });
        assert_eq!(manager.current(ClipboardKind::Primary), None);
    }
}

#[test]
fn shutdown_with_nothing_under_way_writes_the_last_snapshot() {
    let mut worker = PipelineWorker::new();
    assert_eq!(worker.on_shutdown(), Step::Save);
    assert_eq!(worker.phase, Phase::Finalizing);
    assert_eq!(worker.on_save_completed(), Step::Exit);
    assert_eq!(worker, PipelineWorker { phase: Phase::Stopped, save: SaveState::Idle });
    assert_eq!(worker.on_shutdown(), Step::Exit);
    assert_eq!(worker.on_save_completed(), Step::Exit);
}

#[test]
fn shutdown_awaits_the_write_under_way() {
    let mut worker = PipelineWorker::new();
    let mut manager = ClipboardManager::with_capacity(5).expect("capacity is not zero");
    let mut monitor = monitor_with(true, false);
    worker.on_event(&mut manager, &mut monitor, ClipboardKind::Clipboard, b"a", 1);
    worker.on_event(&mut manager, &mut monitor, ClipboardKind::Clipboard, b"b", 2);
    assert_eq!(worker.on_shutdown(), Step::Wait);
    assert_eq!(worker.phase, Phase::Draining);
    assert_eq!(worker.on_shutdown(), Step::Wait);
    assert_eq!(worker.on_save_completed(), Step::Save);
    assert_eq!(worker.phase, Phase::Finalizing);
    assert_eq!(worker.on_save_completed(), Step::Exit);
    assert_eq!(worker.phase, Phase::Stopped);
}

#[test]
fn worker_on_its_way_out_takes_no_events() {
    let mut worker = PipelineWorker::new();
    let mut manager = ClipboardManager::with_capacity(5).expect("capacity is not zero");
    let mut monitor = monitor_with(true, true);
    worker.on_shutdown();
    let reaction = worker.on_event(&mut manager, &mut monitor, ClipboardKind::Clipboard, b"late", 1);
    assert_eq!(reaction, Reaction::Ignored);
    assert_eq!(reaction.log_level(), None);
    assert!(manager.is_empty());
}
