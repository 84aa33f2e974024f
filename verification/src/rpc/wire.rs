//! Requests and answers as bytes.
//!
//! A request is one byte that names the operation, then the id as a 64-bit
//! little-endian integer where the operation takes one, then one byte for the
//! selection where it takes one. An answer is one byte that names its form,
//! then what it carries; a clip is its id as a 64-bit little-endian integer
//! and then the clip as the history file holds it, and a list of clips is its
//! clips one after the other.

use vstd::prelude::*;
use vstd::bytes::{
    lemma_auto_spec_u64_to_from_le_bytes, spec_u64_from_le_bytes, spec_u64_to_le_bytes,
    u64_from_le_bytes, u64_to_le_bytes,
};
use vstd::slice::slice_subrange;
use crate::clip::{clip_views, Clip, ClipboardKind, ClipView};
use crate::history::{
    append_clip, byte_kind, decode_clip, encode_clip, kind_byte, lemma_decode_encoded_clip,
    read_clip,
};
use crate::monitor::MonitorState;
use crate::rpc::{Request, Response, ResponseView, StatusCode};

verus! {

/// The most bytes that a request takes.
pub const MAX_REQUEST_LEN: usize = 10;

/// The bytes of a request.
pub open spec fn request_bytes(request: Request) -> Seq<u8> {
    match request {
        Request::List => seq![0u8],
        Request::Get(id) => seq![1u8] + spec_u64_to_le_bytes(id),
        Request::Update(id) => seq![2u8] + spec_u64_to_le_bytes(id),
        Request::Mark(id, kind) => seq![3u8] + spec_u64_to_le_bytes(id) + seq![kind_byte(kind)],
        Request::Delete(id) => seq![4u8] + spec_u64_to_le_bytes(id),
        Request::Clear => seq![5u8],
        Request::Length => seq![6u8],
        Request::EnableMonitor(kind) => seq![7u8, kind_byte(kind)],
        Request::DisableMonitor(kind) => seq![8u8, kind_byte(kind)],
        Request::MonitorState(kind) => seq![9u8, kind_byte(kind)],
    }
}

/// The request that bytes stand for, where they stand for one.
pub open spec fn request_of(bytes: Seq<u8>) -> Option<Request> {
    if bytes.len() == 0 {
        None
    } else {
        let op = bytes[0];
        if op == 0 || op == 5 || op == 6 {
            if bytes.len() != 1 {
                None
            } else if op == 0 {
                Some(Request::List)
            } else if op == 5 {
                Some(Request::Clear)
            } else {
                Some(Request::Length)
            }
        } else if op == 1 || op == 2 || op == 4 {
            let id = spec_u64_from_le_bytes(bytes.subrange(1, 9));
            if bytes.len() != 9 {
                None
            } else if op == 1 {
                Some(Request::Get(id))
            } else if op == 2 {
                Some(Request::Update(id))
            } else {
                Some(Request::Delete(id))
            }
        } else if op == 3 {
            if bytes.len() != 10 {
                None
            } else {
                match byte_kind(bytes[9]) {
                    Some(kind) => Some(
                        Request::Mark(spec_u64_from_le_bytes(bytes.subrange(1, 9)), kind),
                    ),
                    None => None,
                }
            }
        } else if op == 7 || op == 8 || op == 9 {
            if bytes.len() != 2 {
                None
            } else {
                match byte_kind(bytes[1]) {
                    Some(kind) => if op == 7 {
                        Some(Request::EnableMonitor(kind))
                    } else if op == 8 {
                        Some(Request::DisableMonitor(kind))
                    } else {
                        Some(Request::MonitorState(kind))
                    },
                    None => None,
                }
            }
        } else {
            None
        }
    }
}

/// The byte that stands for a reason of failure.
pub open spec fn status_byte(code: StatusCode) -> u8 {
    match code {
        StatusCode::NotFound => 0,
        StatusCode::InvalidArgument => 1,
        StatusCode::Internal => 2,
    }
}

/// The bytes of a clip in an answer.
pub open spec fn wire_clip(clip: ClipView) -> Seq<u8> {
    spec_u64_to_le_bytes(clip.id) + encode_clip(clip)
}

/// The bytes of a list of clips in an answer, one clip after the other.
pub open spec fn wire_clips(clips: Seq<ClipView>) -> Seq<u8>
    decreases clips.len(),
{
    if clips.len() == 0 {
        Seq::empty()
    } else {
        wire_clip(clips.first()) + wire_clips(clips.drop_first())
    }
}

/// The byte that stands for a state of the monitor.
pub open spec fn state_byte(state: MonitorState) -> u8 {
    match state {
        MonitorState::Disabled => 0,
        MonitorState::Enabled => 1,
    }
}

/// The bytes of an answer.
pub open spec fn response_bytes(response: ResponseView) -> Seq<u8> {
    match response {
        ResponseView::Clips(clips) => seq![0u8] + wire_clips(clips),
        ResponseView::Clip(clip) => seq![1u8] + wire_clip(clip),
        ResponseView::Done => seq![2u8],
        ResponseView::Deleted(removed) => seq![3u8, if removed { 1u8 } else { 0u8 }],
        ResponseView::Length(n) => seq![4u8] + spec_u64_to_le_bytes(n as u64),
        ResponseView::State(state) => seq![5u8, state_byte(state)],
        ResponseView::Error(code) => seq![6u8, status_byte(code)],
    }
}

/// The clip that `bytes` start with, and the number of bytes it takes;
/// nothing where `bytes` do not start with a whole clip.
pub open spec fn wire_clip_of(bytes: Seq<u8>) -> Option<(ClipView, int)> {
    if bytes.len() < 8 {
        None
    } else {
        match decode_clip(bytes.skip(8)) {
            Some((clip, used)) => Some(
                (clip.with_id(spec_u64_from_le_bytes(bytes.subrange(0, 8))), 8 + used),
            ),
            None => None,
        }
    }
}

/// The clips that `bytes` are made of, where they are made of whole clips.
pub open spec fn wire_clips_of(bytes: Seq<u8>) -> Option<Seq<ClipView>>
    decreases bytes.len(),
{
    if bytes.len() == 0 {
        Some(Seq::empty())
    } else {
        match wire_clip_of(bytes) {
            None => None,
            Some((clip, used)) => match wire_clips_of(bytes.skip(used)) {
                None => None,
                Some(rest) => Some(seq![clip] + rest),
            },
        }
    }
}

/// The answer that bytes stand for, where they stand for one.
pub open spec fn response_of(bytes: Seq<u8>) -> Option<ResponseView> {
    if bytes.len() == 0 {
        None
    } else {
        let tag = bytes[0];
        if tag == 0 {
            match wire_clips_of(bytes.skip(1)) {
                Some(clips) => Some(ResponseView::Clips(clips)),
                None => None,
            }
        } else if tag == 1 {
            match wire_clip_of(bytes.skip(1)) {
                Some((clip, used)) => if used == bytes.len() - 1 {
                    Some(ResponseView::Clip(clip))
                } else {
                    None
                },
                None => None,
            }
        } else if tag == 2 {
            if bytes.len() == 1 {
                Some(ResponseView::Done)
            } else {
                None
            }
        } else if tag == 4 {
            if bytes.len() == 9 && spec_u64_from_le_bytes(bytes.subrange(1, 9)) <= usize::MAX {
                Some(ResponseView::Length(spec_u64_from_le_bytes(bytes.subrange(1, 9)) as nat))
            } else {
                None
            }
        } else if bytes.len() != 2 {
            None
        } else if tag == 3 && bytes[1] == 0 {
            Some(ResponseView::Deleted(false))
        } else if tag == 3 && bytes[1] == 1 {
            Some(ResponseView::Deleted(true))
        } else if tag == 5 && bytes[1] == 0 {
            Some(ResponseView::State(MonitorState::Disabled))
        } else if tag == 5 && bytes[1] == 1 {
            Some(ResponseView::State(MonitorState::Enabled))
        } else if tag == 6 && bytes[1] == 0 {
            Some(ResponseView::Error(StatusCode::NotFound))
        } else if tag == 6 && bytes[1] == 1 {
            Some(ResponseView::Error(StatusCode::InvalidArgument))
        } else if tag == 6 && bytes[1] == 2 {
            Some(ResponseView::Error(StatusCode::Internal))
        } else {
            None
        }
    }
}

/// Whether an answer can be written: its lengths fit the integers that
/// carry them.
pub open spec fn writable(response: ResponseView) -> bool {
    match response {
        ResponseView::Clips(clips) => forall|i: int|
            0 <= i < clips.len() ==> (#[trigger] clips[i]).data.len() <= u64::MAX,
        ResponseView::Clip(clip) => clip.data.len() <= u64::MAX,
        ResponseView::Length(n) => n <= usize::MAX,
        _ => true,
    }
}

/// A clip of an answer that is followed by any bytes is read back as it was
/// written, and the bytes that follow are what is left.
pub proof fn lemma_wire_clip_round_trip(clip: ClipView, tail: Seq<u8>)
    requires
        clip.data.len() <= u64::MAX,
    ensures
        wire_clip(clip).len() == 25 + clip.data.len(),
        wire_clip_of(wire_clip(clip) + tail) == Some((clip, 25 + clip.data.len() as int)),
        (wire_clip(clip) + tail).skip(25 + clip.data.len() as int) == tail,
{
    lemma_auto_spec_u64_to_from_le_bytes();
    lemma_decode_encoded_clip(clip, tail);
    let bytes = wire_clip(clip) + tail;
    assert(bytes.subrange(0, 8) =~= spec_u64_to_le_bytes(clip.id));
    assert(bytes.skip(8) =~= encode_clip(clip) + tail);
    assert(bytes.skip(25 + clip.data.len() as int) =~= (encode_clip(clip) + tail).skip(
        17 + clip.data.len() as int,
    ));
    assert(clip.with_id(0).with_id(clip.id) == clip);
}

/// The bytes of a list with one more clip at its end are the bytes of the
/// list and then those of the clip.
pub proof fn lemma_wire_push(clips: Seq<ClipView>, clip: ClipView)
    ensures
        wire_clips(clips.push(clip)) == wire_clips(clips) + wire_clip(clip),
    decreases clips.len(),
{
    let longer = clips.push(clip);
    if clips.len() == 0 {
        assert(longer.first() == clip);
        assert(longer.drop_first() =~= Seq::empty());
        assert(wire_clips(longer.drop_first()) =~= Seq::empty());
        assert(wire_clips(clips) =~= Seq::empty());
        assert(wire_clips(longer) =~= wire_clip(clip));
        assert(wire_clips(clips) + wire_clip(clip) =~= wire_clip(clip));
    } else {
        assert(longer.first() == clips.first());
        assert(longer.drop_first() =~= clips.drop_first().push(clip));
        lemma_wire_push(clips.drop_first(), clip);
        assert(wire_clips(longer) =~= wire_clips(clips) + wire_clip(clip));
    }
}

/// A list of clips of an answer is read back as it was written.
pub proof fn lemma_wire_clips_round_trip(clips: Seq<ClipView>)
    requires
        forall|i: int| 0 <= i < clips.len() ==> (#[trigger] clips[i]).data.len() <= u64::MAX,
    ensures
        wire_clips_of(wire_clips(clips)) == Some(clips),
    decreases clips.len(),
{
    if clips.len() > 0 {
        let rest = clips.drop_first();
        assert forall|i: int| 0 <= i < rest.len() implies (#[trigger] rest[i]).data.len()
            <= u64::MAX by {
            assert(rest[i] == clips[i + 1]);
        }
        lemma_wire_clips_round_trip(rest);
        lemma_wire_clip_round_trip(clips.first(), wire_clips(rest));
        assert(clips =~= seq![clips.first()] + rest);
        assert(wire_clips(clips).len() > 0);
    }
}

/// An answer that is written and read comes back as it was.
pub proof fn law_response_round_trip(response: ResponseView)
    requires
        writable(response),
    ensures
        response_of(response_bytes(response)) == Some(response),
{
    lemma_auto_spec_u64_to_from_le_bytes();
    let bytes = response_bytes(response);
    match response {
        ResponseView::Clips(clips) => {
            lemma_wire_clips_round_trip(clips);
            assert(bytes.skip(1) =~= wire_clips(clips));
        },
        ResponseView::Clip(clip) => {
            lemma_wire_clip_round_trip(clip, Seq::empty());
            assert(bytes.skip(1) =~= wire_clip(clip) + Seq::<u8>::empty());
        },
        ResponseView::Length(n) => {
            assert(bytes.subrange(1, 9) =~= spec_u64_to_le_bytes(n as u64));
        },
        _ => {},
    }
}

/// A request that is written and read comes back as it was.
pub proof fn law_request_round_trip(request: Request)
    ensures
        request_of(request_bytes(request)) == Some(request),
        request_bytes(request).len() <= MAX_REQUEST_LEN,
{
    lemma_auto_spec_u64_to_from_le_bytes();
    let bytes = request_bytes(request);
    match request {
        Request::Get(id) => {
            assert(bytes.subrange(1, 9) =~= spec_u64_to_le_bytes(id));
        },
        Request::Update(id) => {
            assert(bytes.subrange(1, 9) =~= spec_u64_to_le_bytes(id));
        },
        Request::Delete(id) => {
            assert(bytes.subrange(1, 9) =~= spec_u64_to_le_bytes(id));
        },
        Request::Mark(id, kind) => {
            assert(bytes.subrange(1, 9) =~= spec_u64_to_le_bytes(id));
            assert(bytes[9] == kind_byte(kind));
        },
        _ => {},
    }
}

/// The byte of a selection.
fn kind_to_byte(kind: ClipboardKind) -> (byte: u8)
    ensures
        byte == kind_byte(kind),
{
    match kind {
        ClipboardKind::Clipboard => 0,
        ClipboardKind::Primary => 1,
    }
}

/// The selection of a byte.
fn kind_from_byte(byte: u8) -> (kind: Option<ClipboardKind>)
    ensures
        kind == byte_kind(byte),
{
    if byte == 0 {
        Some(ClipboardKind::Clipboard)
    } else if byte == 1 {
        Some(ClipboardKind::Primary)
    } else {
        None
    }
}

/// The bytes of a request.
pub fn encode_request(request: Request) -> (bytes: Vec<u8>)
    ensures
        bytes@ == request_bytes(request),
{
    let mut bytes: Vec<u8> = Vec::new();
    match request {
        Request::List => {
            bytes.push(0u8);
        },
        Request::Get(id) => {
            bytes.push(1u8);
            let mut number = u64_to_le_bytes(id);
            bytes.append(&mut number);
        },
        Request::Update(id) => {
            bytes.push(2u8);
            let mut number = u64_to_le_bytes(id);
            bytes.append(&mut number);
        },
        Request::Mark(id, kind) => {
            bytes.push(3u8);
            let mut number = u64_to_le_bytes(id);
            bytes.append(&mut number);
            bytes.push(kind_to_byte(kind));
        },
        Request::Delete(id) => {
            bytes.push(4u8);
            let mut number = u64_to_le_bytes(id);
            bytes.append(&mut number);
        },
        Request::Clear => {
            bytes.push(5u8);
        },
        Request::Length => {
            bytes.push(6u8);
        },
        Request::EnableMonitor(kind) => {
            bytes.push(7u8);
            bytes.push(kind_to_byte(kind));
        },
        Request::DisableMonitor(kind) => {
            bytes.push(8u8);
            bytes.push(kind_to_byte(kind));
        },
        Request::MonitorState(kind) => {
            bytes.push(9u8);
            bytes.push(kind_to_byte(kind));
        },
    }
    assert(bytes@ =~= request_bytes(request));
    bytes
}

/// The request that bytes stand for; bytes that stand for none are an
/// invalid argument.
pub fn decode_request(bytes: &[u8]) -> (request: Result<Request, StatusCode>)
    ensures
        match request {
            Ok(r) => request_of(bytes@) == Some(r),
            Err(e) => e == StatusCode::InvalidArgument && request_of(bytes@) is None,
        },
{
    if bytes.len() == 0 {
        return Err(StatusCode::InvalidArgument);
    }
    let op = bytes[0];
    if op == 0 || op == 5 || op == 6 {
        if bytes.len() != 1 {
            Err(StatusCode::InvalidArgument)
        } else if op == 0 {
            Ok(Request::List)
        } else if op == 5 {
            Ok(Request::Clear)
        } else {
            Ok(Request::Length)
        }
    } else if op == 1 || op == 2 || op == 4 {
        if bytes.len() != 9 {
            return Err(StatusCode::InvalidArgument);
        }
        let id = u64_from_le_bytes(slice_subrange(bytes, 1, 9));
        if op == 1 {
            Ok(Request::Get(id))
        } else if op == 2 {
            Ok(Request::Update(id))
        } else {
            Ok(Request::Delete(id))
        }
    } else if op == 3 {
        if bytes.len() != 10 {
            return Err(StatusCode::InvalidArgument);
        }
        match kind_from_byte(bytes[9]) {
            Some(kind) => Ok(Request::Mark(u64_from_le_bytes(slice_subrange(bytes, 1, 9)), kind)),
            None => Err(StatusCode::InvalidArgument),
        }
    } else if op == 7 || op == 8 || op == 9 {
        if bytes.len() != 2 {
            return Err(StatusCode::InvalidArgument);
        }
        match kind_from_byte(bytes[1]) {
            Some(kind) => if op == 7 {
                Ok(Request::EnableMonitor(kind))
            } else if op == 8 {
                Ok(Request::DisableMonitor(kind))
            } else {
                Ok(Request::MonitorState(kind))
            },
            None => Err(StatusCode::InvalidArgument),
        }
    } else {
        Err(StatusCode::InvalidArgument)
    }
}

/// Writes one clip of an answer at the end of `bytes`.
fn append_wire_clip(bytes: &mut Vec<u8>, clip: &Clip)
    ensures
        final(bytes)@ == old(bytes)@ + wire_clip(clip@),
{
    let mut number = u64_to_le_bytes(clip.id);
    bytes.append(&mut number);
    append_clip(bytes, clip);
    assert(bytes@ =~= old(bytes)@ + wire_clip(clip@));
}

/// Reads the clip of an answer that starts at `at`, and says where the next
/// one starts; nothing where no whole clip starts there.
fn read_wire_clip(bytes: &[u8], at: usize) -> (read: Option<(Clip, usize)>)
    requires
        at <= bytes@.len(),
    ensures
        match read {
            Some((clip, next)) => {
                &&& at < next <= bytes@.len()
                &&& wire_clip_of(bytes@.skip(at as int)) == Some((clip@, next - at))
            },
            None => wire_clip_of(bytes@.skip(at as int)) is None,
        },
{
    let ghost tail = bytes@.skip(at as int);
    if bytes.len() - at < 8 {
        return None;
    }
    let id = u64_from_le_bytes(slice_subrange(bytes, at, at + 8));
    assert(tail.subrange(0, 8) =~= bytes@.subrange(at as int, at + 8));
    assert(tail.skip(8) =~= bytes@.skip(at + 8));
    match read_clip(bytes, at + 8) {
        Some((clip, next)) => {
            let Clip { id: _, data, kind, timestamp } = clip;
            Some((Clip { id, data, kind, timestamp }, next))
        },
        None => None,
    }
}

/// The bytes of an answer.
pub fn encode_response(response: &Response) -> (bytes: Vec<u8>)
    ensures
        bytes@ == response_bytes(response@),
{
    let mut bytes: Vec<u8> = Vec::new();
    match response {
        Response::Clips(clips) => {
            bytes.push(0u8);
            let ghost views = clip_views(clips@);
            assert(views.take(0) =~= Seq::empty());
            assert(bytes@ =~= seq![0u8] + wire_clips(views.take(0)));
            let mut i: usize = 0;
            while i < clips.len()
                invariant
                    views == clip_views(clips@),
                    i <= clips@.len(),
                    bytes@ == seq![0u8] + wire_clips(views.take(i as int)),
                decreases clips@.len() - i,
            {
                append_wire_clip(&mut bytes, &clips[i]);
                proof {
                    assert(views.take(i + 1) =~= views.take(i as int).push(clips@[i as int]@));
                    lemma_wire_push(views.take(i as int), clips@[i as int]@);
                    assert(bytes@ =~= seq![0u8] + wire_clips(views.take(i + 1)));
                }
                i += 1;
            }
            assert(views.take(clips@.len() as int) =~= views);
        },
        Response::Clip(clip) => {
            bytes.push(1u8);
            append_wire_clip(&mut bytes, clip);
        },
        Response::Done => {
            bytes.push(2u8);
        },
        Response::Deleted(removed) => {
            bytes.push(3u8);
            bytes.push(if *removed { 1u8 } else { 0u8 });
        },
        Response::Length(n) => {
            bytes.push(4u8);
            let mut number = u64_to_le_bytes(*n as u64);
            bytes.append(&mut number);
        },
        Response::State(state) => {
            bytes.push(5u8);
            bytes.push(
                match state {
                    MonitorState::Disabled => 0u8,
                    MonitorState::Enabled => 1u8,
                },
            );
        },
        Response::Error(code) => {
            bytes.push(6u8);
            bytes.push(
                match code {
                    StatusCode::NotFound => 0u8,
                    StatusCode::InvalidArgument => 1u8,
                    StatusCode::Internal => 2u8,
                },
            );
        },
    }
    assert(bytes@ =~= response_bytes(response@));
    bytes
}

/// The answer that bytes stand for; nothing where they stand for none.
pub fn decode_response(bytes: &[u8]) -> (response: Option<Response>)
    ensures
        match response {
            Some(r) => response_of(bytes@) == Some(r@),
            None => response_of(bytes@) is None,
        },
{
    if bytes.len() == 0 {
        return None;
    }
    let tag = bytes[0];
    if tag == 0 {
        let mut list: Vec<Clip> = Vec::new();
        let mut at: usize = 1;
        assert(clip_views(list@) =~= Seq::empty());
        assert forall|rest: Seq<ClipView>| Seq::<ClipView>::empty() + rest =~= rest by {}
        while at < bytes.len()
            invariant
                1 <= at <= bytes@.len(),
                bytes@[0] == 0,
                wire_clips_of(bytes@.skip(1)) == match wire_clips_of(bytes@.skip(at as int)) {
                    None => None,
                    Some(rest) => Some(clip_views(list@) + rest),
                },
            decreases bytes@.len() - at,
        {
            let ghost tail = bytes@.skip(at as int);
            match read_wire_clip(bytes, at) {
                None => {
                    return None;
                },
                Some((clip, next)) => {
                    proof {
                        assert(tail.skip(next - at) =~= bytes@.skip(next as int));
                        let ghost before = clip_views(list@);
                        assert(clip_views(list@.push(clip)) =~= before.push(clip@));
                        assert forall|rest: Seq<ClipView>| before + (seq![clip@] + rest)
                            =~= before.push(clip@) + rest by {}
                    }
                    list.push(clip);
                    at = next;
                },
            }
        }
        assert(bytes@.skip(at as int) =~= Seq::empty());
        assert(clip_views(list@) + Seq::<ClipView>::empty() =~= clip_views(list@));
        Some(Response::Clips(list))
    } else if tag == 1 {
        match read_wire_clip(bytes, 1) {
            Some((clip, next)) => if next == bytes.len() {
                Some(Response::Clip(clip))
            } else {
                None
            },
            None => None,
        }
    } else if tag == 2 {
        if bytes.len() == 1 {
            Some(Response::Done)
        } else {
            None
        }
    } else if tag == 4 {
        if bytes.len() != 9 {
            return None;
        }
        let n = u64_from_le_bytes(slice_subrange(bytes, 1, 9));
        if n > usize::MAX as u64 {
            None
        } else {
            Some(Response::Length(n as usize))
        }
    } else if bytes.len() != 2 {
        None
    } else if tag == 3 && bytes[1] == 0 {
        Some(Response::Deleted(false))
    } else if tag == 3 && bytes[1] == 1 {
        Some(Response::Deleted(true))
    } else if tag == 5 && bytes[1] == 0 {
        Some(Response::State(MonitorState::Disabled))
    } else if tag == 5 && bytes[1] == 1 {
        Some(Response::State(MonitorState::Enabled))
    } else if tag == 6 && bytes[1] == 0 {
        Some(Response::Error(StatusCode::NotFound))
    } else if tag == 6 && bytes[1] == 1 {
        Some(Response::Error(StatusCode::InvalidArgument))
    } else if tag == 6 && bytes[1] == 2 {
        Some(Response::Error(StatusCode::Internal))
    } else {
        None
    }
}

} // verus!
