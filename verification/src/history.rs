//! The history file: how a list of clips is laid out in bytes, and how the
//! bytes are read back.
//!
//! The file starts with five bytes that name the format, `CLIP` and the
//! version `1`. The clips follow, most recent first. Each clip is one byte for
//! its selection (`0` clipboard, `1` primary), its timestamp and the length of
//! its data as 64-bit little-endian integers, and the data. Ids are not
//! written.

use vstd::prelude::*;
use vstd::bytes::{
    lemma_auto_spec_u64_to_from_le_bytes, spec_u64_from_le_bytes, spec_u64_to_le_bytes,
    u64_from_le_bytes, u64_to_le_bytes,
};
use vstd::slice::{slice_subrange, slice_to_vec};
use vstd::string::StringExecFns;
use crate::clip::{clip_views, copy_bytes, Clip, ClipboardKind, ClipView};
use crate::manager::laws::lemma_loadable_of_distinct;
use crate::manager::model::ManagerView;

verus! {

/// Why the history could not be loaded.
#[derive(Clone, Copy, Debug, PartialEq, Eq, Structural)]
pub enum HistoryError {
    /// The file could not be read.
    Io,
    /// The file does not hold a history.
    Corrupt,
}

/// The bytes that every history file starts with.
pub open spec fn header() -> Seq<u8> {
    seq![0x43u8, 0x4cu8, 0x49u8, 0x50u8, 0x01u8]
}

/// The byte that stands for a selection.
pub open spec fn kind_byte(kind: ClipboardKind) -> u8 {
    match kind {
        ClipboardKind::Clipboard => 0,
        ClipboardKind::Primary => 1,
    }
}

/// The selection that a byte stands for.
pub open spec fn byte_kind(byte: u8) -> Option<ClipboardKind> {
    if byte == 0 {
        Some(ClipboardKind::Clipboard)
    } else if byte == 1 {
        Some(ClipboardKind::Primary)
    } else {
        None
    }
}

/// The bytes of one clip.
pub open spec fn encode_clip(clip: ClipView) -> Seq<u8> {
    seq![kind_byte(clip.kind)] + spec_u64_to_le_bytes(clip.timestamp) + spec_u64_to_le_bytes(
        clip.data.len() as u64,
    ) + clip.data
}

/// The bytes of a list of clips, one after the other.
pub open spec fn encode_clips(clips: Seq<ClipView>) -> Seq<u8>
    decreases clips.len(),
{
    if clips.len() == 0 {
        Seq::empty()
    } else {
        encode_clip(clips.first()) + encode_clips(clips.drop_first())
    }
}

/// The bytes of a history file that holds `clips`.
pub open spec fn encode_history(clips: Seq<ClipView>) -> Seq<u8> {
    header() + encode_clips(clips)
}

/// The clip that `bytes` start with, under the id 0, and the number of bytes
/// it takes; nothing where `bytes` do not start with a whole clip.
pub open spec fn decode_clip(bytes: Seq<u8>) -> Option<(ClipView, int)> {
    if bytes.len() < 17 {
        None
    } else {
        let size = spec_u64_from_le_bytes(bytes.subrange(9, 17));
        match byte_kind(bytes[0]) {
            None => None,
            Some(kind) => if bytes.len() - 17 < size {
                None
            } else {
                Some(
                    (
                        ClipView {
                            id: 0,
                            data: bytes.subrange(17, 17 + size),
                            kind,
                            timestamp: spec_u64_from_le_bytes(bytes.subrange(1, 9)),
                        },
                        17 + size,
                    ),
                )
            },
        }
    }
}

/// The clips that `bytes` are made of, where they are made of whole clips.
pub open spec fn decode_clips(bytes: Seq<u8>) -> Option<Seq<ClipView>>
    decreases bytes.len(),
{
    if bytes.len() == 0 {
        Some(Seq::empty())
    } else {
        match decode_clip(bytes) {
            None => None,
            Some((clip, used)) => match decode_clips(bytes.skip(used)) {
                None => None,
                Some(rest) => Some(seq![clip] + rest),
            },
        }
    }
}

/// The clips that a history file holds, each under the id 0; nothing where
/// the bytes are not a history file.
pub open spec fn decode_history(bytes: Seq<u8>) -> Option<Seq<ClipView>> {
    if bytes.len() >= 5 && bytes.subrange(0, 5) == header() {
        decode_clips(bytes.skip(5))
    } else {
        None
    }
}

/// The same clips, each under the id 0.
pub open spec fn unnumbered(clips: Seq<ClipView>) -> Seq<ClipView> {
    Seq::new(clips.len(), |i: int| clips[i].with_id(0))
}

/// A clip that is followed by any bytes is read back as it was written, and
/// the bytes that follow are what is left.
pub proof fn lemma_decode_encoded_clip(clip: ClipView, tail: Seq<u8>)
    requires
        clip.data.len() <= u64::MAX,
    ensures
        encode_clip(clip).len() == 17 + clip.data.len(),
        decode_clip(encode_clip(clip) + tail) == Some(
            (clip.with_id(0), 17 + clip.data.len() as int),
        ),
        (encode_clip(clip) + tail).skip(17 + clip.data.len() as int) == tail,
{
    lemma_auto_spec_u64_to_from_le_bytes();
    let bytes = encode_clip(clip) + tail;
    let stamp = spec_u64_to_le_bytes(clip.timestamp);
    let size = spec_u64_to_le_bytes(clip.data.len() as u64);
    assert(bytes[0] == kind_byte(clip.kind));
    assert(bytes.subrange(1, 9) =~= stamp);
    assert(bytes.subrange(9, 17) =~= size);
    assert(bytes.subrange(17, 17 + clip.data.len() as int) =~= clip.data);
    assert(bytes.skip(17 + clip.data.len() as int) =~= tail);
}

/// The bytes of a list with one more clip at its end are the bytes of the
/// list and then those of the clip.
pub proof fn lemma_encode_push(clips: Seq<ClipView>, clip: ClipView)
    ensures
        encode_clips(clips.push(clip)) == encode_clips(clips) + encode_clip(clip),
    decreases clips.len(),
{
    let longer = clips.push(clip);
    if clips.len() == 0 {
        assert(longer.first() == clip);
        assert(longer.drop_first() =~= Seq::empty());
        assert(encode_clips(longer.drop_first()) =~= Seq::empty());
        assert(encode_clips(clips) =~= Seq::empty());
        assert(encode_clips(longer) =~= encode_clip(clip));
        assert(encode_clips(clips) + encode_clip(clip) =~= encode_clip(clip));
    } else {
        assert(longer.first() == clips.first());
        assert(longer.drop_first() =~= clips.drop_first().push(clip));
        lemma_encode_push(clips.drop_first(), clip);
        assert(encode_clips(longer) =~= encode_clips(clips) + encode_clip(clip));
    }
}

/// What was written is what is read: a list of clips that is encoded and
/// decoded comes back in the same order with the same data, kinds and
/// timestamps, each clip under the id 0.
pub proof fn law_round_trip(clips: Seq<ClipView>)
    requires
        forall|i: int| 0 <= i < clips.len() ==> (#[trigger] clips[i]).data.len() <= u64::MAX,
    ensures
        decode_clips(encode_clips(clips)) == Some(unnumbered(clips)),
        decode_history(encode_history(clips)) == Some(unnumbered(clips)),
    decreases clips.len(),
{
    if clips.len() == 0 {
        assert(unnumbered(clips) =~= Seq::empty());
    } else {
        let rest = clips.drop_first();
        assert forall|i: int| 0 <= i < rest.len() implies (#[trigger] rest[i]).data.len()
            <= u64::MAX by {
            assert(rest[i] == clips[i + 1]);
        }
        law_round_trip(rest);
        lemma_decode_encoded_clip(clips.first(), encode_clips(rest));
        assert(unnumbered(clips) =~= seq![clips.first().with_id(0)] + unnumbered(rest));
        assert(encode_clips(clips).len() > 0);
    }
    assert(encode_history(clips).subrange(0, 5) =~= header());
    assert(encode_history(clips).skip(5) =~= encode_clips(clips));
}

/// Writes one clip at the end of `bytes`.
pub fn append_clip(bytes: &mut Vec<u8>, clip: &Clip)
    ensures
        final(bytes)@ == old(bytes)@ + encode_clip(clip@),
{
    bytes.push(
        match clip.kind {
            ClipboardKind::Clipboard => 0u8,
            ClipboardKind::Primary => 1u8,
        },
    );
    let mut stamp = u64_to_le_bytes(clip.timestamp);
    bytes.append(&mut stamp);
    let mut size = u64_to_le_bytes(clip.data.len() as u64);
    bytes.append(&mut size);
    let mut data = copy_bytes(clip.data.as_slice());
    bytes.append(&mut data);
    assert(bytes@ =~= old(bytes)@ + encode_clip(clip@));
}

/// The bytes of a history file that holds `clips`.
pub fn encode(clips: &[Clip]) -> (bytes: Vec<u8>)
    ensures
        bytes@ == encode_history(clip_views(clips@)),
{
    let mut bytes: Vec<u8> = Vec::new();
    bytes.push(0x43u8);
    bytes.push(0x4cu8);
    bytes.push(0x49u8);
    bytes.push(0x50u8);
    bytes.push(0x01u8);
    let ghost views = clip_views(clips@);
    assert(views.take(0) =~= Seq::empty());
    assert(bytes@ =~= header() + encode_clips(views.take(0)));
    let mut i: usize = 0;
    while i < clips.len()
        invariant
            views == clip_views(clips@),
            i <= clips@.len(),
            bytes@ == header() + encode_clips(views.take(i as int)),
        decreases clips@.len() - i,
    {
        let clip = &clips[i];
        let ghost written = bytes@;
        append_clip(&mut bytes, clip);
        proof {
            assert(views.take(i + 1) =~= views.take(i as int).push(clip@));
            lemma_encode_push(views.take(i as int), clip@);
            assert(bytes@ =~= header() + encode_clips(views.take(i + 1)));
        }
        i += 1;
    }
    assert(views.take(clips@.len() as int) =~= views);
    bytes
}

/// Reads the clip that starts at `at`, and says where the next one starts;
/// nothing where no whole clip starts there.
pub(crate) fn read_clip(bytes: &[u8], at: usize) -> (read: Option<(Clip, usize)>)
    requires
        at <= bytes@.len(),
    ensures
        match read {
            Some((clip, next)) => {
                &&& at < next <= bytes@.len()
                &&& decode_clip(bytes@.skip(at as int)) == Some((clip@, next - at))
            },
            None => decode_clip(bytes@.skip(at as int)) is None,
        },
{
    let ghost tail = bytes@.skip(at as int);
    let left = bytes.len() - at;
    if left < 17 {
        return None;
    }
    assert(tail[0] == bytes@[at as int]);
    let kind = if bytes[at] == 0u8 {
        ClipboardKind::Clipboard
    } else if bytes[at] == 1u8 {
        ClipboardKind::Primary
    } else {
        return None;
    };
    let timestamp = u64_from_le_bytes(slice_subrange(bytes, at + 1, at + 9));
    let size = u64_from_le_bytes(slice_subrange(bytes, at + 9, at + 17));
    assert(tail.subrange(1, 9) =~= bytes@.subrange(at + 1, at + 9));
    assert(tail.subrange(9, 17) =~= bytes@.subrange(at + 9, at + 17));
    if size > (left - 17) as u64 {
        return None;
    }
    let n = size as usize;
    let data = slice_to_vec(slice_subrange(bytes, at + 17, at + 17 + n));
    assert(tail.subrange(17, 17 + n) =~= bytes@.subrange(at + 17, at + 17 + n));
    Some((Clip { id: 0, data, kind, timestamp }, at + 17 + n))
}

/// The clips that a history file holds, each under the id 0; bytes that are
/// not a history file are corrupt.
pub fn decode(bytes: &[u8]) -> (clips: Result<Vec<Clip>, HistoryError>)
    ensures
        match clips {
            Ok(list) => decode_history(bytes@) == Some(clip_views(list@)),
            Err(e) => e == HistoryError::Corrupt && decode_history(bytes@) is None,
        },
{
    if bytes.len() < 5 {
        return Err(HistoryError::Corrupt);
    }
    if bytes[0] != 0x43u8 || bytes[1] != 0x4cu8 || bytes[2] != 0x49u8 || bytes[3] != 0x50u8
        || bytes[4] != 0x01u8 {
        assert(bytes@.subrange(0, 5)[0] == bytes@[0]);
        assert(bytes@.subrange(0, 5)[1] == bytes@[1]);
        assert(bytes@.subrange(0, 5)[2] == bytes@[2]);
        assert(bytes@.subrange(0, 5)[3] == bytes@[3]);
        assert(bytes@.subrange(0, 5)[4] == bytes@[4]);
        return Err(HistoryError::Corrupt);
    }
    assert(bytes@.subrange(0, 5) =~= header());
    let mut list: Vec<Clip> = Vec::new();
    let mut at: usize = 5;
    assert(clip_views(list@) =~= Seq::empty());
    assert forall|rest: Seq<ClipView>| Seq::<ClipView>::empty() + rest =~= rest by {}
    while at < bytes.len()
        invariant
            5 <= at <= bytes@.len(),
            decode_clips(bytes@.skip(5)) == match decode_clips(bytes@.skip(at as int)) {
                None => None,
                Some(rest) => Some(clip_views(list@) + rest),
            },
        decreases bytes@.len() - at,
    {
        let ghost tail = bytes@.skip(at as int);
        match read_clip(bytes, at) {
            None => {
                return Err(HistoryError::Corrupt);
            },
            Some((clip, next)) => {
                proof {
                    assert(tail.skip(next - at) =~= bytes@.skip(next as int));
                    let ghost before = clip_views(list@);
                    assert(clip_views(list@.push(clip)) =~= before.push(clip@));
                    assert forall|rest: Seq<ClipView>| before + (seq![clip@] + rest)
                        =~= before.push(clip@) + rest by {}
                }
                list.push(clip);
                at = next;
            },
        }
    }
    assert(bytes@.skip(at as int) =~= Seq::empty());
    assert(clip_views(list@) + Seq::<ClipView>::empty() =~= clip_views(list@));
    Ok(list)
}

/// What loading gives for what reading the file gave: the clips of the file,
/// or that the file could not be read (`None`), or that it is corrupt.
pub fn load(read: Option<Vec<u8>>) -> (clips: Result<Vec<Clip>, HistoryError>)
    ensures
        match clips {
            Ok(list) => read matches Some(bytes) && decode_history(bytes@) == Some(
                clip_views(list@),
            ),
            Err(HistoryError::Io) => read is None,
            Err(HistoryError::Corrupt) => read matches Some(bytes) && decode_history(bytes@)
                is None,
        },
{
    match read {
        None => Err(HistoryError::Io),
        Some(bytes) => decode(bytes.as_slice()),
    }
}

/// The path of the temporary file that a new history is written to before
/// it takes the place of the old one: the path of the history file and
/// `.tmp`, so that both lie in one directory.
pub fn temporary_path(path: &str) -> (temporary: String)
    ensures
        temporary@ == path@ + ".tmp"@,
{
    String::from_str(path).concat(".tmp")
}

/// A history that is saved, read back and loaded into a manager with room
/// and ids enough is the history that was saved: the same clips in the same
/// order, with their data, kinds and timestamps, each under a fresh id.
pub proof fn law_saved_history_restores(m: ManagerView, into: ManagerView)
    requires
        m.valid(),
        forall|i: int| 0 <= i < m.clips.len() ==> (#[trigger] m.clips[i]).data.len() <= u64::MAX,
        m.clips.len() <= into.capacity,
        into.next_id + m.clips.len() <= u64::MAX,
    ensures
        decode_history(encode_history(m.clips)) == Some(unnumbered(m.clips)),
        into.import(unnumbered(m.clips)).clips.len() == m.clips.len(),
        forall|k: int|
            0 <= k < m.clips.len() ==> (#[trigger] into.import(
                unnumbered(m.clips),
            ).clips[k]).same_content(m.clips[k]),
{
    law_round_trip(m.clips);
    let read = unnumbered(m.clips);
    assert forall|i: int, j: int| 0 <= i < j < read.len() implies (#[trigger] read[i]).data != (
    #[trigger] read[j]).data by {
        assert(m.clips[i].data != m.clips[j].data);
    }
    assert forall|k: int| 0 <= k < read.len() implies (#[trigger] read[k]).data.len() > 0 by {
        assert(m.clips[k].data.len() > 0);
    }
    lemma_loadable_of_distinct(read, into.capacity, into.next_id);
}

} // verus!
