use clipcat::clip::{Clip, ClipboardKind};
use clipcat::history::HistoryError;
use clipcat::supervisor::{
    exit_code, initial_history, Advance, CtlMessage, Stage, StartError, Supervisor, Worker,
};

#[test]
fn daemon_is_put_together_in_order() {
    let mut stage = Stage::LoadHistory;
    let mut seen = vec![stage];
    while stage != Stage::Serve {
        stage = match stage.after(true) {
            Advance::Next(next) => next,
            Advance::Abort(_) => panic!("a step that succeeded does not abort"),
        };
        seen.push(stage);
    }
    assert_eq!(
        seen,
        vec![
            Stage::LoadHistory,
            Stage::CreateManager,
            Stage::CreateMonitor,
            Stage::StartWorkers,
            Stage::InstallSignals,
            Stage::Serve
        ]
    );
    assert_eq!(Stage::Serve.after(true), Advance::Next(Stage::Serve));
}

#[test]
fn failures_on_the_way_up() {
    assert_eq!(Stage::LoadHistory.after(false), Advance::Next(Stage::CreateManager));
    assert_eq!(Stage::CreateManager.after(false), Advance::Abort(StartError::ConfigInvalid));
    assert_eq!(Stage::CreateMonitor.after(false), Advance::Abort(StartError::MonitorInit));
    assert_eq!(Stage::StartWorkers.after(false), Advance::Abort(StartError::RpcBind));
    assert_eq!(Stage::InstallSignals.after(false), Advance::Next(Stage::Serve));
}

#[test]
fn unreadable_history_starts_empty_with_a_warning() {
    assert_eq!(initial_history(Err(HistoryError::Corrupt)), (vec![], Some(HistoryError::Corrupt)));
    assert_eq!(initial_history(Err(HistoryError::Io)), (vec![], Some(HistoryError::Io)));
    let clips = vec![Clip { id: 0, data: b"p".to_vec(), kind: ClipboardKind::Clipboard, timestamp: 1 }];
    assert_eq!(initial_history(Ok(clips.clone())), (clips, None));
}

#[test]
fn exit_codes() {
    assert_eq!(exit_code(Ok(())), 0);
    assert_eq!(exit_code(Err(StartError::ConfigInvalid)), 1);
    assert_eq!(exit_code(Err(StartError::MonitorInit)), 1);
    assert_eq!(exit_code(Err(StartError::RpcBind)), 1);
}

#[test]
fn shutdown_is_handed_on_once() {
    let mut supervisor = Supervisor::new();
    assert!(!supervisor.is_finished());
    assert!(supervisor.on_message(CtlMessage::Shutdown));
    assert!(supervisor.stopping);
    assert!(!supervisor.on_message(CtlMessage::Shutdown));
    assert!(!supervisor.is_finished());
}

#[test]
fn daemon_is_done_when_both_workers_are_down() {
    for (first, second) in [(Worker::Rpc, Worker::Pipeline), (Worker::Pipeline, Worker::Rpc)] {
        let mut supervisor = Supervisor::new();
        supervisor.on_message(CtlMessage::Shutdown);
        assert!(!supervisor.on_worker_down(first));
        assert!(!supervisor.on_worker_down(first));
        assert!(supervisor.on_worker_down(second));
        assert!(supervisor.is_finished());
    }
}

#[test]
fn workers_going_down_unasked_do_not_end_the_daemon() {
    let mut supervisor = Supervisor::new();
    assert!(!supervisor.on_worker_down(Worker::Pipeline));
    assert!(!supervisor.on_worker_down(Worker::Rpc));
    assert!(supervisor.on_message(CtlMessage::Shutdown));
    assert!(supervisor.is_finished());
}
