//! The control server's decisions: what each request does to the history and
//! to the monitor, and what is answered.
//!
//! A request is served in two steps, so that the manager is not held while
//! the monitor is asked: `dispatch` works on the manager alone and says what
//! is still to be done, `complete` does that on the monitor alone.

use vstd::prelude::*;
use crate::clip::{clip_views, Clip, ClipboardKind, ClipView};
use crate::manager::model::ManagerView;
use crate::manager::ClipboardManager;
use crate::monitor::{ClipboardMonitor, MonitorState, MonitorView};

pub mod wire;

verus! {

/// Why a call failed.
#[derive(Clone, Copy, Debug, PartialEq, Eq, Structural)]
pub enum StatusCode {
    /// The history holds no clip of the id given.
    NotFound,
    /// The request is not one that the server knows.
    InvalidArgument,
    /// The monitor refused what the call asked of it.
    Internal,
}

/// What a client asks for.
#[derive(Clone, Copy, Debug, PartialEq, Eq, Structural)]
pub enum Request {
    List,
    Get(u64),
    /// Make the clip current for the clipboard and write it there again.
    Update(u64),
    Mark(u64, ClipboardKind),
    Delete(u64),
    Clear,
    Length,
    EnableMonitor(ClipboardKind),
    DisableMonitor(ClipboardKind),
    MonitorState(ClipboardKind),
}

/// What a client is answered.
#[derive(Debug, PartialEq, Eq)]
pub enum Response {
    Clips(Vec<Clip>),
    Clip(Clip),
    Done,
    Deleted(bool),
    Length(usize),
    State(MonitorState),
    Error(StatusCode),
}

/// An answer as a mathematical value.
pub enum ResponseView {
    Clips(Seq<ClipView>),
    Clip(ClipView),
    Done,
    Deleted(bool),
    Length(nat),
    State(MonitorState),
    Error(StatusCode),
}

impl View for Response {
    type V = ResponseView;

    open spec fn view(&self) -> ResponseView {
        match self {
            Response::Clips(clips) => ResponseView::Clips(clip_views(clips@)),
            Response::Clip(clip) => ResponseView::Clip(clip@),
            Response::Done => ResponseView::Done,
            Response::Deleted(removed) => ResponseView::Deleted(*removed),
            Response::Length(n) => ResponseView::Length(*n as nat),
            Response::State(state) => ResponseView::State(*state),
            Response::Error(code) => ResponseView::Error(*code),
        }
    }
}

/// What is left of a request once the manager has done its part.
#[derive(Debug, PartialEq, Eq)]
pub enum Pending {
    /// Nothing: this is the answer.
    Reply(Response),
    /// The payload is to be written to the selection.
    Publish(ClipboardKind, Vec<u8>),
    Enable(ClipboardKind),
    Disable(ClipboardKind),
    State(ClipboardKind),
}

/// What is left of a request, as a mathematical value.
pub enum PendingView {
    Reply(ResponseView),
    Publish(ClipboardKind, Seq<u8>),
    Enable(ClipboardKind),
    Disable(ClipboardKind),
    State(ClipboardKind),
}

impl View for Pending {
    type V = PendingView;

    open spec fn view(&self) -> PendingView {
        match self {
            Pending::Reply(response) => PendingView::Reply(response@),
            Pending::Publish(kind, data) => PendingView::Publish(*kind, data@),
            Pending::Enable(kind) => PendingView::Enable(*kind),
            Pending::Disable(kind) => PendingView::Disable(*kind),
            Pending::State(kind) => PendingView::State(*kind),
        }
    }
}

/// The answer to a request, and the write to a selection that the server is
/// to make before it answers, if any.
#[derive(Debug, PartialEq, Eq)]
pub struct Completed {
    pub response: Response,
    pub publication: Option<(ClipboardKind, Vec<u8>)>,
}

/// The selection that `Update` writes to.
pub open spec fn default_kind() -> ClipboardKind {
    ClipboardKind::Clipboard
}

/// The history after a request.
pub open spec fn manager_after(m: ManagerView, request: Request) -> ManagerView {
    match request {
        Request::Update(id) => m.mark_as_current(id, default_kind()),
        Request::Mark(id, kind) => m.mark_as_current(id, kind),
        Request::Delete(id) => m.remove(id),
        Request::Clear => m.clear(),
        _ => m,
    }
}

/// What is left of a request once the manager has done its part. A request
/// that names an id that the history does not hold is answered `NotFound`,
/// but for `Delete`, which says whether it removed a clip.
pub open spec fn pending_for(m: ManagerView, request: Request) -> PendingView {
    match request {
        Request::List => PendingView::Reply(ResponseView::Clips(m.clips)),
        Request::Get(id) => match m.get(id) {
            Some(clip) => PendingView::Reply(ResponseView::Clip(clip)),
            None => PendingView::Reply(ResponseView::Error(StatusCode::NotFound)),
        },
        Request::Update(id) => match m.get(id) {
            Some(clip) => PendingView::Publish(default_kind(), clip.data),
            None => PendingView::Reply(ResponseView::Error(StatusCode::NotFound)),
        },
        Request::Mark(id, kind) => if m.has_id(id) {
            PendingView::Reply(ResponseView::Done)
        } else {
            PendingView::Reply(ResponseView::Error(StatusCode::NotFound))
        },
        Request::Delete(id) => PendingView::Reply(ResponseView::Deleted(m.has_id(id))),
        Request::Clear => PendingView::Reply(ResponseView::Done),
        Request::Length => PendingView::Reply(ResponseView::Length(m.clips.len())),
        Request::EnableMonitor(kind) => PendingView::Enable(kind),
        Request::DisableMonitor(kind) => PendingView::Disable(kind),
        Request::MonitorState(kind) => PendingView::State(kind),
    }
}

/// The monitor after its part of a request.
pub open spec fn monitor_after(m: MonitorView, pending: PendingView) -> MonitorView {
    match pending {
        PendingView::Reply(_) => m,
        PendingView::Publish(kind, data) => m.publish(kind, data),
        PendingView::Enable(kind) => m.enable(kind),
        PendingView::Disable(kind) => m.disable(kind),
        PendingView::State(_) => m,
    }
}

/// The answer to a request. A write to a disabled selection is answered
/// `Internal`.
pub open spec fn response_for(m: MonitorView, pending: PendingView) -> ResponseView {
    match pending {
        PendingView::Reply(response) => response,
        PendingView::Publish(kind, _) => if m.enabled(kind) {
            ResponseView::Done
        } else {
            ResponseView::Error(StatusCode::Internal)
        },
        PendingView::Enable(_) => ResponseView::Done,
        PendingView::Disable(_) => ResponseView::Done,
        PendingView::State(kind) => ResponseView::State(
            if m.enabled(kind) {
                MonitorState::Enabled
            } else {
                MonitorState::Disabled
            },
        ),
    }
}

/// The write to a selection that the server is to make, if any: the one
/// that the monitor admitted.
pub open spec fn publication_for(m: MonitorView, pending: PendingView) -> Option<
    (ClipboardKind, Seq<u8>),
> {
    match pending {
        PendingView::Publish(kind, data) => if m.enabled(kind) {
            Some((kind, data))
        } else {
            None
        },
        _ => None,
    }
}

/// The manager's part of a request.
pub fn dispatch(manager: &mut ClipboardManager, request: Request) -> (pending: Pending)
    requires
        old(manager).wf(),
    ensures
        final(manager).wf(),
        final(manager)@ == manager_after(old(manager)@, request),
        pending@ == pending_for(old(manager)@, request),
{
    match request {
        Request::List => Pending::Reply(Response::Clips(manager.list())),
        Request::Get(id) => match manager.get(id) {
            Some(clip) => Pending::Reply(Response::Clip(clip)),
            None => Pending::Reply(Response::Error(StatusCode::NotFound)),
        },
        Request::Update(id) => match manager.get(id) {
            Some(clip) => {
                let _marked = manager.mark_as_current(id, ClipboardKind::Clipboard);
                Pending::Publish(ClipboardKind::Clipboard, clip.data)
            },
            None => Pending::Reply(Response::Error(StatusCode::NotFound)),
        },
        Request::Mark(id, kind) => match manager.mark_as_current(id, kind) {
            Ok(()) => Pending::Reply(Response::Done),
            Err(_) => Pending::Reply(Response::Error(StatusCode::NotFound)),
        },
        Request::Delete(id) => Pending::Reply(Response::Deleted(manager.remove(id))),
        Request::Clear => {
            manager.clear();
            Pending::Reply(Response::Done)
        },
        Request::Length => Pending::Reply(Response::Length(manager.len())),
        Request::EnableMonitor(kind) => Pending::Enable(kind),
        Request::DisableMonitor(kind) => Pending::Disable(kind),
        Request::MonitorState(kind) => Pending::State(kind),
    }
}

/// The monitor's part of a request, and the answer.
pub fn complete(monitor: &mut ClipboardMonitor, pending: Pending) -> (completed: Completed)
    ensures
        final(monitor)@ == monitor_after(old(monitor)@, pending@),
        completed.response@ == response_for(old(monitor)@, pending@),
        match completed.publication {
            Some((kind, data)) => publication_for(old(monitor)@, pending@) == Some((kind, data@)),
            None => publication_for(old(monitor)@, pending@) is None,
        },
{
    match pending {
        Pending::Reply(response) => Completed { response, publication: None },
        Pending::Publish(kind, data) => match monitor.publish(kind, data.as_slice()) {
            Ok(()) => Completed { response: Response::Done, publication: Some((kind, data)) },
            Err(_) => Completed {
                response: Response::Error(StatusCode::Internal),
                publication: None,
            },
        },
        Pending::Enable(kind) => {
            monitor.enable(kind);
            Completed { response: Response::Done, publication: None }
        },
        Pending::Disable(kind) => {
            monitor.disable(kind);
            Completed { response: Response::Done, publication: None }
        },
        Pending::State(kind) => Completed {
            response: Response::State(monitor.state(kind)),
            publication: None,
        },
    }
}

/// A removal right after an insertion, of the id that the insertion
/// returned, removes a clip.
pub proof fn law_delete_after_insert(
    m: ManagerView,
    kind: ClipboardKind,
    data: Seq<u8>,
    timestamp: u64,
)
    requires
        m.valid(),
        m.insert_error(data) is None,
    ensures
        pending_for(m.insert(kind, data, timestamp), Request::Delete(m.insert_id(data)))
            == PendingView::Reply(ResponseView::Deleted(true)),
{
    crate::manager::laws::law_inserted_is_head(m, kind, data, timestamp);
}

/// An update writes the clip to the clipboard, and the monitor does not pass
/// that write on when it comes back: the history stays as long as it was.
pub proof fn law_update_is_not_reinserted(m: ManagerView, monitor: MonitorView, id: u64)
    requires
        m.valid(),
        m.has_id(id),
        monitor.enabled(default_kind()),
    ensures
        pending_for(m, Request::Update(id)) == PendingView::Publish(
            default_kind(),
            m.get(id).unwrap().data,
        ),
        manager_after(m, Request::Update(id)).clips == m.clips,
        manager_after(m, Request::Update(id)).current(default_kind()) == Some(id),
        publication_for(monitor, pending_for(m, Request::Update(id))) == Some(
            (default_kind(), m.get(id).unwrap().data),
        ),
        !monitor_after(monitor, pending_for(m, Request::Update(id))).delivers(
            default_kind(),
            m.get(id).unwrap().data,
        ),
{
}

} // verus!
