use clipcat::clip::{Clip, ClipboardKind};
use clipcat::manager::ClipboardManager;
use clipcat::monitor::{ClipboardMonitor, ClipboardMonitorOptions, MonitorState};
use clipcat::rpc::wire::{
    decode_request, decode_response, encode_request, encode_response, MAX_REQUEST_LEN,
};
use clipcat::rpc::{complete, dispatch, Completed, Pending, Request, Response, StatusCode};

fn watching(clipboard: bool, primary: bool) -> ClipboardMonitor {
    ClipboardMonitor::new(ClipboardMonitorOptions {
        load_current: false,
        enable_clipboard: clipboard,
        enable_primary: primary,
        filter_min_size: 0,
    })
}

fn filled() -> ClipboardManager {
    let mut manager = ClipboardManager::with_capacity(5).expect("capacity is not zero");
    manager.insert(ClipboardKind::Clipboard, b"a", 1).expect("not empty");
    manager.insert(ClipboardKind::Primary, b"b", 2).expect("not empty");
    manager
}

fn serve(manager: &mut ClipboardManager, monitor: &mut ClipboardMonitor, request: Request) -> Completed {
    complete(monitor, dispatch(manager, request))
}

#[test]
fn list_answers_the_history() {
    let mut manager = filled();
    let pending = dispatch(&mut manager, Request::List);
    assert_eq!(
        pending,
        Pending::Reply(Response::Clips(vec![
            Clip { id: 1, data: b"b".to_vec(), kind: ClipboardKind::Primary, timestamp: 2 },
            Clip { id: 0, data: b"a".to_vec(), kind: ClipboardKind::Clipboard, timestamp: 1 },
        ]))
    );
}

#[test]
fn get_answers_the_clip_or_not_found() {
    let mut manager = filled();
    assert_eq!(
        dispatch(&mut manager, Request::Get(0)),
        Pending::Reply(Response::Clip(Clip {
            id: 0,
            data: b"a".to_vec(),
            kind: ClipboardKind::Clipboard,
            timestamp: 1
        }))
    );
    assert_eq!(dispatch(&mut manager, Request::Get(5)), Pending::Reply(Response::Error(StatusCode::NotFound)));
}

#[test]
fn length_delete_and_clear() {
    let mut manager = filled();
    assert_eq!(dispatch(&mut manager, Request::Length), Pending::Reply(Response::Length(2)));
    assert_eq!(dispatch(&mut manager, Request::Delete(0)), Pending::Reply(Response::Deleted(true)));
    assert_eq!(dispatch(&mut manager, Request::Delete(0)), Pending::Reply(Response::Deleted(false)));
    assert_eq!(dispatch(&mut manager, Request::Length), Pending::Reply(Response::Length(1)));
    assert_eq!(dispatch(&mut manager, Request::Clear), Pending::Reply(Response::Done));
    assert_eq!(dispatch(&mut manager, Request::Length), Pending::Reply(Response::Length(0)));
    assert_eq!(dispatch(&mut manager, Request::Clear), Pending::Reply(Response::Done));
    assert_eq!(dispatch(&mut manager, Request::List), Pending::Reply(Response::Clips(vec![])));
}

#[test]
fn mark_sets_the_slot_or_answers_not_found() {
    let mut manager = filled();
    assert_eq!(
        dispatch(&mut manager, Request::Mark(0, ClipboardKind::Primary)),
        Pending::Reply(Response::Done)
    );
    assert_eq!(manager.current(ClipboardKind::Primary), Some(0));
    assert_eq!(
        dispatch(&mut manager, Request::Mark(8, ClipboardKind::Primary)),
        Pending::Reply(Response::Error(StatusCode::NotFound))
    );
    assert_eq!(manager.current(ClipboardKind::Primary), Some(0));
}

#[test]
fn update_republishes_without_reinserting() {
    let mut manager = ClipboardManager::with_capacity(5).expect("capacity is not zero");
    let mut monitor = watching(true, true);
    let (id, _) = manager.insert(ClipboardKind::Primary, b"x", 1).expect("not empty");
    let pending = dispatch(&mut manager, Request::Update(id));
    assert_eq!(pending, Pending::Publish(ClipboardKind::Clipboard, b"x".to_vec()));
    assert_eq!(manager.current(ClipboardKind::Clipboard), Some(id));
    let completed = complete(&mut monitor, pending);
    assert_eq!(
        completed,
        Completed { response: Response::Done, publication: Some((ClipboardKind::Clipboard, b"x".to_vec())) }
    );
    assert!(!monitor.observe(ClipboardKind::Clipboard, b"x"));
    assert_eq!(manager.len(), 1);
}

#[test]
fn update_of_an_unknown_id_is_not_found() {
    let mut manager = filled();
    let mut monitor = watching(true, true);
    let completed = serve(&mut manager, &mut monitor, Request::Update(77));
    assert_eq!(completed, Completed { response: Response::Error(StatusCode::NotFound), publication: None });
    assert_eq!(manager.current(ClipboardKind::Clipboard), Some(0));
}

#[test]
fn update_to_a_disabled_selection_is_internal() {
    let mut manager = filled();
    let mut monitor = watching(false, true);
    let completed = serve(&mut manager, &mut monitor, Request::Update(1));
    assert_eq!(completed, Completed { response: Response::Error(StatusCode::Internal), publication: None });
}

#[test]
fn monitor_is_switched_and_asked_through_the_server() {
    let mut manager = filled();
    let mut monitor = watching(true, false);
    let asked = serve(&mut manager, &mut monitor, Request::MonitorState(ClipboardKind::Primary));
    assert_eq!(asked.response, Response::State(MonitorState::Disabled));
    let enabled = serve(&mut manager, &mut monitor, Request::EnableMonitor(ClipboardKind::Primary));
    assert_eq!(enabled, Completed { response: Response::Done, publication: None });
    assert!(monitor.is_enabled(ClipboardKind::Primary));
    let disabled = serve(&mut manager, &mut monitor, Request::DisableMonitor(ClipboardKind::Clipboard));
    assert_eq!(disabled.response, Response::Done);
    let asked = serve(&mut manager, &mut monitor, Request::MonitorState(ClipboardKind::Clipboard));
    assert_eq!(asked.response, Response::State(MonitorState::Disabled));
    let asked = serve(&mut manager, &mut monitor, Request::MonitorState(ClipboardKind::Primary));
    assert_eq!(asked.response, Response::State(MonitorState::Enabled));
    assert_eq!(manager.len(), 2);
}

#[test]
fn list_sees_the_history_before_or_after_an_insert() {
    let mut manager = filled();
    let before = dispatch(&mut manager, Request::List);
    manager.insert(ClipboardKind::Clipboard, b"new", 3).expect("not empty");
    let after = dispatch(&mut manager, Request::List);
    match (before, after) {
        (Pending::Reply(Response::Clips(before)), Pending::Reply(Response::Clips(after))) => {
            assert_eq!(before.len(), 2);
            assert_eq!(after.len(), 3);
            assert_eq!(after[0].data, b"new".to_vec());
            assert_eq!(after[1..], before[..]);
        }
        _ => panic!("a list is answered with clips"),
    }
}

#[test]
fn requests_survive_the_wire() {
    let requests = [
        Request::List,
        Request::Get(0),
        Request::Update(u64::MAX),
        Request::Mark(0x0102_0304_0506_0708, ClipboardKind::Primary),
        Request::Delete(9),
        Request::Clear,
        Request::Length,
        Request::EnableMonitor(ClipboardKind::Clipboard),
        Request::DisableMonitor(ClipboardKind::Primary),
        Request::MonitorState(ClipboardKind::Clipboard),
    ];
    for request in requests {
        assert_eq!(decode_request(&encode_request(request)), Ok(request));
        assert!(encode_request(request).len() <= MAX_REQUEST_LEN);
    }
}

#[test]
fn requests_are_laid_out_byte_by_byte() {
    assert_eq!(encode_request(Request::List), vec![0]);
    assert_eq!(encode_request(Request::Get(258)), vec![1, 2, 1, 0, 0, 0, 0, 0, 0]);
    assert_eq!(
        encode_request(Request::Mark(1, ClipboardKind::Primary)),
        vec![3, 1, 0, 0, 0, 0, 0, 0, 0, 1]
    );
    assert_eq!(encode_request(Request::DisableMonitor(ClipboardKind::Clipboard)), vec![8, 0]);
}

#[test]
fn malformed_requests_are_invalid_arguments() {
    let malformed: [&[u8]; 8] = [
        &[],
        &[10],
        &[0, 0],
        &[1, 2, 3],
        &[3, 1, 0, 0, 0, 0, 0, 0, 0, 2],
        &[3, 1, 0, 0, 0, 0, 0, 0, 0],
        &[7],
        &[9, 2],
    ];
    for bytes in malformed {
        assert_eq!(decode_request(bytes), Err(StatusCode::InvalidArgument));
    }
}

#[test]
fn answers_are_laid_out_byte_by_byte() {
    assert_eq!(encode_response(&Response::Done), vec![2]);
    assert_eq!(encode_response(&Response::Deleted(true)), vec![3, 1]);
    assert_eq!(encode_response(&Response::Deleted(false)), vec![3, 0]);
    assert_eq!(encode_response(&Response::Length(3)), vec![4, 3, 0, 0, 0, 0, 0, 0, 0]);
    assert_eq!(encode_response(&Response::State(MonitorState::Enabled)), vec![5, 1]);
    assert_eq!(encode_response(&Response::Error(StatusCode::NotFound)), vec![6, 0]);
    assert_eq!(encode_response(&Response::Error(StatusCode::InvalidArgument)), vec![6, 1]);
    assert_eq!(encode_response(&Response::Error(StatusCode::Internal)), vec![6, 2]);
    let clip = Clip { id: 5, data: b"ab".to_vec(), kind: ClipboardKind::Primary, timestamp: 7 };
    let mut one = vec![1u8];
    one.extend_from_slice(&[5, 0, 0, 0, 0, 0, 0, 0]);
    one.push(1);
    one.extend_from_slice(&[7, 0, 0, 0, 0, 0, 0, 0]);
    one.extend_from_slice(&[2, 0, 0, 0, 0, 0, 0, 0]);
    one.extend_from_slice(b"ab");
    assert_eq!(encode_response(&Response::Clip(clip.clone())), one);
    let mut list = vec![0u8];
    list.extend_from_slice(&one[1..]);
    list.extend_from_slice(&one[1..]);
    assert_eq!(encode_response(&Response::Clips(vec![clip.clone(), clip])), list);
}

#[test]
fn answers_survive_the_wire() {
    let clip = Clip { id: 5, data: b"ab".to_vec(), kind: ClipboardKind::Primary, timestamp: 7 };
    let other = Clip { id: u64::MAX, data: vec![0; 300], kind: ClipboardKind::Clipboard, timestamp: 0 };
    let answers = [
        Response::Clips(vec![]),
        Response::Clips(vec![clip.clone()]),
        Response::Clips(vec![other.clone(), clip.clone(), other.clone()]),
        Response::Clip(other),
        Response::Done,
        Response::Deleted(true),
        Response::Deleted(false),
        Response::Length(0),
        Response::Length(usize::MAX),
        Response::State(MonitorState::Enabled),
        Response::State(MonitorState::Disabled),
        Response::Error(StatusCode::NotFound),
        Response::Error(StatusCode::InvalidArgument),
        Response::Error(StatusCode::Internal),
    ];
    for answer in answers {
        assert_eq!(decode_response(&encode_response(&answer)), Some(answer));
    }
}

#[test]
fn malformed_answers_stand_for_nothing() {
    let clip = Clip { id: 5, data: b"ab".to_vec(), kind: ClipboardKind::Primary, timestamp: 7 };
    let whole = encode_response(&Response::Clip(clip.clone()));
    assert_eq!(decode_response(&whole[..whole.len() - 1]), None);
    let mut padded = whole.clone();
    padded.push(0);
    assert_eq!(decode_response(&padded), None);
    let mut list = encode_response(&Response::Clips(vec![clip.clone(), clip]));
    list.pop();
    assert_eq!(decode_response(&list), None);
    let malformed: [&[u8]; 9] = [&[], &[7], &[2, 0], &[3], &[3, 2], &[4, 1], &[5, 2], &[6, 3], &[1]];
    for bytes in malformed {
        assert_eq!(decode_response(bytes), None);
    }
}
