//! The clipboard monitor's own decisions: which selections are watched, which
//! changes of a selection are passed on, and which are the daemon's own
//! writes coming back.

use vstd::prelude::*;
use crate::clip::{bytes_equal, copy_bytes, ClipboardKind};

verus! {

/// How a monitor starts out.
#[derive(Clone, Copy, Debug, PartialEq, Eq, Structural)]
pub struct ClipboardMonitorOptions {
    /// Whether the contents that the enabled selections hold at startup are
    /// reported as events.
    pub load_current: bool,
    pub enable_clipboard: bool,
    pub enable_primary: bool,
    /// The least number of bytes of a payload that is passed on; 0 lets
    /// everything through.
    pub filter_min_size: usize,
}

/// Whether a selection is watched.
#[derive(Clone, Copy, Debug, PartialEq, Eq, Structural)]
pub enum MonitorState {
    Disabled,
    Enabled,
}

/// Why the monitor refuses a request.
#[derive(Clone, Copy, Debug, PartialEq, Eq, Structural)]
pub enum MonitorError {
    /// The selection is disabled.
    Disabled,
}

/// The state of a monitor as a mathematical value. The echo of a selection is
/// the payload that the daemon wrote to it last and has not seen come back.
pub struct MonitorView {
    pub load_current: bool,
    pub clipboard_enabled: bool,
    pub primary_enabled: bool,
    pub filter_min_size: nat,
    pub clipboard_echo: Option<Seq<u8>>,
    pub primary_echo: Option<Seq<u8>>,
}

impl MonitorView {
    /// The state that a monitor starts in.
    pub open spec fn initial(options: ClipboardMonitorOptions) -> MonitorView {
        MonitorView {
            load_current: options.load_current,
            clipboard_enabled: options.enable_clipboard,
            primary_enabled: options.enable_primary,
            filter_min_size: options.filter_min_size as nat,
            clipboard_echo: None,
            primary_echo: None,
        }
    }

    /// Whether a selection is watched.
    pub open spec fn enabled(self, kind: ClipboardKind) -> bool {
        match kind {
            ClipboardKind::Clipboard => self.clipboard_enabled,
            ClipboardKind::Primary => self.primary_enabled,
        }
    }

    /// The echo awaited on a selection.
    pub open spec fn echo(self, kind: ClipboardKind) -> Option<Seq<u8>> {
        match kind {
            ClipboardKind::Clipboard => self.clipboard_echo,
            ClipboardKind::Primary => self.primary_echo,
        }
    }

    /// The same state with another echo awaited on `kind`.
    pub open spec fn with_echo(self, kind: ClipboardKind, echo: Option<Seq<u8>>) -> MonitorView {
        match kind {
            ClipboardKind::Clipboard => MonitorView { clipboard_echo: echo, ..self },
            ClipboardKind::Primary => MonitorView { primary_echo: echo, ..self },
        }
    }

    /// The state after `enable`.
    pub open spec fn enable(self, kind: ClipboardKind) -> MonitorView {
        match kind {
            ClipboardKind::Clipboard => MonitorView { clipboard_enabled: true, ..self },
            ClipboardKind::Primary => MonitorView { primary_enabled: true, ..self },
        }
    }

    /// The state after `disable`: the selection is no longer watched, and no
    /// echo is awaited on it.
    pub open spec fn disable(self, kind: ClipboardKind) -> MonitorView {
        match kind {
            ClipboardKind::Clipboard => MonitorView {
                clipboard_enabled: false,
                clipboard_echo: None,
                ..self
            },
            ClipboardKind::Primary => MonitorView {
                primary_enabled: false,
                primary_echo: None,
                ..self
            },
        }
    }

    /// The state after `publish`: on an enabled selection the payload is
    /// awaited as an echo; on a disabled one nothing changes.
    pub open spec fn publish(self, kind: ClipboardKind, data: Seq<u8>) -> MonitorView {
        if self.enabled(kind) {
            self.with_echo(kind, Some(data))
        } else {
            self
        }
    }

    /// Whether a change of `kind` to `data` is passed on as an event: the
    /// selection is enabled, the payload is not the echo awaited on it, and it
    /// is not shorter than the least size.
    pub open spec fn delivers(self, kind: ClipboardKind, data: Seq<u8>) -> bool {
        &&& self.enabled(kind)
        &&& self.echo(kind) != Some(data)
        &&& data.len() >= self.filter_min_size
    }

    /// The state after `observe`: a change of an enabled selection ends the
    /// wait for an echo on it, whether it was the echo or not.
    pub open spec fn observe(self, kind: ClipboardKind) -> MonitorView {
        if self.enabled(kind) {
            self.with_echo(kind, None)
        } else {
            self
        }
    }

    /// The selections whose contents are read when the monitor starts.
    pub open spec fn initial_selections(self) -> Seq<ClipboardKind> {
        let clipboard = if self.load_current && self.clipboard_enabled {
            seq![ClipboardKind::Clipboard]
        } else {
            Seq::empty()
        };
        let primary = if self.load_current && self.primary_enabled {
            seq![ClipboardKind::Primary]
        } else {
            Seq::empty()
        };
        clipboard + primary
    }
}

/// The monitor's state: which selections are watched, the least size of a
/// payload, and the echoes awaited.
pub struct ClipboardMonitor {
    load_current: bool,
    clipboard_enabled: bool,
    primary_enabled: bool,
    filter_min_size: usize,
    clipboard_echo: Option<Vec<u8>>,
    primary_echo: Option<Vec<u8>>,
}

impl View for ClipboardMonitor {
    type V = MonitorView;

    closed spec fn view(&self) -> MonitorView {
        MonitorView {
            load_current: self.load_current,
            clipboard_enabled: self.clipboard_enabled,
            primary_enabled: self.primary_enabled,
            filter_min_size: self.filter_min_size as nat,
            clipboard_echo: match self.clipboard_echo {
                Some(echo) => Some(echo@),
                None => None,
            },
            primary_echo: match self.primary_echo {
                Some(echo) => Some(echo@),
                None => None,
            },
        }
    }
}

impl ClipboardMonitor {
    /// A monitor that starts out as `options` say, awaiting no echo.
    pub fn new(options: ClipboardMonitorOptions) -> (monitor: ClipboardMonitor)
        ensures
            monitor@ == MonitorView::initial(options),
    {
        ClipboardMonitor {
            load_current: options.load_current,
            clipboard_enabled: options.enable_clipboard,
            primary_enabled: options.enable_primary,
            filter_min_size: options.filter_min_size,
            clipboard_echo: None,
            primary_echo: None,
        }
    }

    /// Whether a selection is watched.
    pub fn is_enabled(&self, kind: ClipboardKind) -> (enabled: bool)
        ensures
            enabled == self@.enabled(kind),
    {
        match kind {
            ClipboardKind::Clipboard => self.clipboard_enabled,
            ClipboardKind::Primary => self.primary_enabled,
        }
    }

    /// Whether a selection is watched, as a state.
    pub fn state(&self, kind: ClipboardKind) -> (state: MonitorState)
        ensures
            state == if self@.enabled(kind) {
                MonitorState::Enabled
            } else {
                MonitorState::Disabled
            },
    {
        if self.is_enabled(kind) {
            MonitorState::Enabled
        } else {
            MonitorState::Disabled
        }
    }

    /// Starts watching a selection.
    pub fn enable(&mut self, kind: ClipboardKind)
        ensures
            final(self)@ == old(self)@.enable(kind),
    {
        match kind {
            ClipboardKind::Clipboard => {
                self.clipboard_enabled = true;
            },
            ClipboardKind::Primary => {
                self.primary_enabled = true;
            },
        }
    }

    /// Stops watching a selection.
    pub fn disable(&mut self, kind: ClipboardKind)
        ensures
            final(self)@ == old(self)@.disable(kind),
    {
        match kind {
            ClipboardKind::Clipboard => {
                self.clipboard_enabled = false;
                self.clipboard_echo = None;
            },
            ClipboardKind::Primary => {
                self.primary_enabled = false;
                self.primary_echo = None;
            },
        }
    }

    /// Admits a write of `data` to a selection, and from then on awaits it as
    /// an echo there. A disabled selection refuses the write.
    pub fn publish(&mut self, kind: ClipboardKind, data: &[u8]) -> (done: Result<(), MonitorError>)
        ensures
            final(self)@ == old(self)@.publish(kind, data@),
            done is Ok == old(self)@.enabled(kind),
            done matches Err(e) ==> e == MonitorError::Disabled,
    {
        if !self.is_enabled(kind) {
            return Err(MonitorError::Disabled);
        }
        match kind {
            ClipboardKind::Clipboard => {
                self.clipboard_echo = Some(copy_bytes(data));
            },
            ClipboardKind::Primary => {
                self.primary_echo = Some(copy_bytes(data));
            },
        }
        Ok(())
    }

    /// Takes note that a selection changed to `data`, and says whether the
    /// change is passed on as an event.
    pub fn observe(&mut self, kind: ClipboardKind, data: &[u8]) -> (delivered: bool)
        ensures
            final(self)@ == old(self)@.observe(kind),
            delivered == old(self)@.delivers(kind, data@),
    {
        if !self.is_enabled(kind) {
            return false;
        }
        let own = match kind {
            ClipboardKind::Clipboard => match &self.clipboard_echo {
                Some(echo) => bytes_equal(echo.as_slice(), data),
                None => false,
            },
            ClipboardKind::Primary => match &self.primary_echo {
                Some(echo) => bytes_equal(echo.as_slice(), data),
                None => false,
            },
        };
        match kind {
            ClipboardKind::Clipboard => {
                self.clipboard_echo = None;
            },
            ClipboardKind::Primary => {
                self.primary_echo = None;
            },
        }
        !own && data.len() >= self.filter_min_size
    }

    /// The selections whose contents are read when the monitor starts: the
    /// enabled ones, where the monitor loads the current contents at all.
    pub fn initial_selections(&self) -> (kinds: Vec<ClipboardKind>)
        ensures
            kinds@ == self@.initial_selections(),
    {
        let mut kinds: Vec<ClipboardKind> = Vec::new();
        if self.load_current && self.clipboard_enabled {
            kinds.push(ClipboardKind::Clipboard);
        }
        if self.load_current && self.primary_enabled {
            kinds.push(ClipboardKind::Primary);
        }
        assert(kinds@ =~= self@.initial_selections());
        kinds
    }
}

/// A payload shorter than the least size is never passed on.
pub proof fn law_short_payload_dropped(m: MonitorView, kind: ClipboardKind, data: Seq<u8>)
    requires
        data.len() < m.filter_min_size,
    ensures
        !m.delivers(kind, data),
{
}

/// A disabled selection passes nothing on and admits no write.
pub proof fn law_disabled_is_silent(m: MonitorView, kind: ClipboardKind, data: Seq<u8>)
    ensures
        !m.disable(kind).delivers(kind, data),
        m.disable(kind).publish(kind, data) == m.disable(kind),
{
}

/// The daemon's own write does not come back as an event: right after a
/// write of `data` to a selection was admitted, a change of that selection to
/// `data` is not passed on; the next change is judged on its own again.
pub proof fn law_own_write_suppressed(m: MonitorView, kind: ClipboardKind, data: Seq<u8>)
    requires
        m.enabled(kind),
    ensures
        !m.publish(kind, data).delivers(kind, data),
        m.publish(kind, data).observe(kind).echo(kind) is None,
{
}

} // verus!
