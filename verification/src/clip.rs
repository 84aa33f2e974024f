//! Clips and the selections they come from.

use vstd::prelude::*;
use vstd::slice::slice_to_vec;

verus! {

/// One of the two selections of the windowing system.
#[derive(Clone, Copy, Debug, PartialEq, Eq, Structural)]
pub enum ClipboardKind {
    Clipboard,
    Primary,
}

impl ClipboardKind {
    /// The selection that `self` is not.
    pub open spec fn spec_other(self) -> ClipboardKind {
        match self {
            ClipboardKind::Clipboard => ClipboardKind::Primary,
            ClipboardKind::Primary => ClipboardKind::Clipboard,
        }
    }

    /// The selection that `self` is not.
    #[verifier::when_used_as_spec(spec_other)]
    pub fn other(self) -> (kind: ClipboardKind)
        ensures
            kind == self.spec_other(),
    {
        match self {
            ClipboardKind::Clipboard => ClipboardKind::Primary,
            ClipboardKind::Primary => ClipboardKind::Clipboard,
        }
    }
}

/// What a clip is, as a mathematical value.
pub struct ClipView {
    pub id: u64,
    pub data: Seq<u8>,
    pub kind: ClipboardKind,
    pub timestamp: u64,
}

impl ClipView {
    /// The same clip under another id.
    pub open spec fn with_id(self, id: u64) -> ClipView {
        ClipView { id, ..self }
    }

    /// Two clips agree on everything that is persisted: data, kind and
    /// timestamp.
    pub open spec fn same_content(self, other: ClipView) -> bool {
        &&& self.data == other.data
        &&& self.kind == other.kind
        &&& self.timestamp == other.timestamp
    }
}

/// A remembered clipboard payload.
#[derive(Debug, PartialEq, Eq)]
pub struct Clip {
    /// Assigned by the manager; unique while the process lives.
    pub id: u64,
    /// The payload, byte for byte.
    pub data: Vec<u8>,
    /// The selection the payload was first seen on.
    pub kind: ClipboardKind,
    /// Seconds since the epoch at which the payload was first seen.
    pub timestamp: u64,
}

impl View for Clip {
    type V = ClipView;

    open spec fn view(&self) -> ClipView {
        ClipView { id: self.id, data: self.data@, kind: self.kind, timestamp: self.timestamp }
    }
}

impl Clone for Clip {
    fn clone(&self) -> (copy: Clip)
        ensures
            copy@ == self@,
    {
        Clip {
            id: self.id,
            data: copy_bytes(self.data.as_slice()),
            kind: self.kind,
            timestamp: self.timestamp,
        }
    }
}

impl Clip {
    /// A clip of `data` seen on `kind` at `timestamp`, under `id`.
    pub fn new(id: u64, kind: ClipboardKind, data: &[u8], timestamp: u64) -> (clip: Clip)
        ensures
            clip@ == (ClipView { id, data: data@, kind, timestamp }),
    {
        Clip { id, data: copy_bytes(data), kind, timestamp }
    }
}

/// The views of a sequence of clips, in the same order.
pub open spec fn clip_views(clips: Seq<Clip>) -> Seq<ClipView> {
    Seq::new(clips.len(), |i: int| clips[i]@)
}

/// An owned copy of `bytes`.
pub fn copy_bytes(bytes: &[u8]) -> (copy: Vec<u8>)
    ensures
        copy@ == bytes@,
{
    slice_to_vec(bytes)
}

/// Whether two byte strings are the same, byte for byte.
pub fn bytes_equal(a: &[u8], b: &[u8]) -> (same: bool)
    ensures
        same == (a@ == b@),
{
    if a.len() != b.len() {
        return false;
    }
    let mut i: usize = 0;
    while i < a.len()
        invariant
            a@.len() == b@.len(),
            i <= a@.len(),
            forall|j: int| 0 <= j < i ==> a@[j] == b@[j],
        decreases a@.len() - i,
    {
        if a[i] != b[i] {
            return false;
        }
        i += 1;
    }
    assert(a@ =~= b@);
    true
}

} // verus!
