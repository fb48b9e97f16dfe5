//! A GShell: the runtime unit of a pane, switching between PTY mode and GNative mode.

use vstd::prelude::*;

verus! {

/// Stable identity of a GShell, allocated by the shell registry.
#[derive(Debug, Clone, Copy, PartialEq, Eq, Hash, Structural)]
pub struct GShellId(pub u64);

impl GShellId {
    pub fn new(value: u64) -> (id: Self)
        ensures
            id.0 == value,
    {
        GShellId(value)
    }

    pub fn value(self) -> (v: u64)
        ensures
            v == self.0,
    {
        self.0
    }
}

/// RGBA color of a GNative surface command.
#[derive(Debug, Clone, Copy, PartialEq, Eq, Structural)]
pub struct Color {
    pub r: u8,
    pub g: u8,
    pub b: u8,
    pub a: u8,
}

/// Current running mode of a GShell: PTY for shells and TUIs, GNative for
/// structured native applications.
#[derive(Debug, Clone, Copy, PartialEq, Eq, Structural)]
pub enum GShellMode {
    Pty,
    GNative,
}

/// Marker that a GShell has initialized a GNative session.
#[derive(Debug, Clone, Copy, PartialEq, Eq, Structural)]
pub struct GNativeSession;

impl GNativeSession {
    pub fn new() -> (s: Self) {
        GNativeSession
    }
}

impl Default for GNativeSession {
    fn default() -> (s: Self) {
        GNativeSession::new()
    }
}

/// Aggregate root of the GShell context: its identity, whether a GNative
/// session was initialized, and the active mode.
#[derive(Debug, Clone, Copy, PartialEq, Eq, Structural)]
pub struct GShell {
    id: GShellId,
    gnative_session: Option<GNativeSession>,
    active_mode: GShellMode,
}

impl GShell {
    pub closed spec fn spec_id(self) -> GShellId {
        self.id
    }

    pub closed spec fn has_session(self) -> bool {
        self.gnative_session is Some
    }

    pub closed spec fn spec_mode(self) -> GShellMode {
        self.active_mode
    }

    /// The invariant that every operation keeps: GNative mode only with a session.
    pub open spec fn wf(self) -> bool {
        self.spec_mode() == GShellMode::GNative ==> self.has_session()
    }

    /// Whether this is a shell as `new` makes it: in PTY mode, without a GNative session.
    pub open spec fn is_fresh(self, id: GShellId) -> bool {
        &&& self == Self::spec_new(id)
        &&& self.spec_id() == id
        &&& !self.has_session()
        &&& self.spec_mode() == GShellMode::Pty
    }

    /// The shell `new` makes.
    pub closed spec fn spec_new(id: GShellId) -> Self {
        GShell { id, gnative_session: None, active_mode: GShellMode::Pty }
    }

    /// A GShell in PTY mode without a GNative session.
    pub fn new(id: GShellId) -> (s: Self)
        ensures
            s == Self::spec_new(id),
            s.is_fresh(id),
    {
        GShell { id, gnative_session: None, active_mode: GShellMode::Pty }
    }

    pub fn id(&self) -> (id: GShellId)
        ensures
            id == self.spec_id(),
    {
        self.id
    }

    pub fn active_mode(&self) -> (m: GShellMode)
        ensures
            m == self.spec_mode(),
    {
        self.active_mode
    }

    /// Initializes a GNative session if there is none; the mode does not change.
    pub fn initialize_gnative(&mut self)
        ensures
            old(self).wf() ==> final(self).wf(),
            final(self).spec_id() == old(self).spec_id(),
            final(self).has_session(),
            final(self).spec_mode() == old(self).spec_mode(),
    {
        if self.gnative_session.is_none() {
            self.gnative_session = Some(GNativeSession::new());
        }
    }

    /// Enters GNative mode when a session was initialized; otherwise nothing changes.
    pub fn enter_gnative(&mut self)
        ensures
            old(self).wf() ==> final(self).wf(),
            final(self).spec_id() == old(self).spec_id(),
            final(self).has_session() == old(self).has_session(),
            final(self).spec_mode() == (if old(self).has_session() {
                GShellMode::GNative
            } else {
                old(self).spec_mode()
            }),
    {
        if self.gnative_session.is_some() {
            self.active_mode = GShellMode::GNative;
        }
    }

    /// Drops the GNative session and returns to PTY mode.
    pub fn exit_gnative(&mut self)
        ensures
            old(self).wf() ==> final(self).wf(),
            final(self).spec_id() == old(self).spec_id(),
            !final(self).has_session(),
            final(self).spec_mode() == GShellMode::Pty,
    {
        self.gnative_session = None;
        self.active_mode = GShellMode::Pty;
    }

    /// Switches to `mode`; GNative mode is only entered when a session was initialized.
    pub fn switch_mode(&mut self, mode: GShellMode)
        ensures
            old(self).wf() ==> final(self).wf(),
            final(self).spec_id() == old(self).spec_id(),
            final(self).has_session() == old(self).has_session(),
            final(self).spec_mode() == (match mode {
                GShellMode::Pty => GShellMode::Pty,
                GShellMode::GNative => if old(self).has_session() {
                    GShellMode::GNative
                } else {
                    old(self).spec_mode()
                },
            }),
    {
        match mode {
            GShellMode::Pty => {
                self.active_mode = GShellMode::Pty;
            },
            GShellMode::GNative => {
                if self.gnative_session.is_some() {
                    self.active_mode = GShellMode::GNative;
                }
            },
        }
    }
}

/// Every operation on a GShell keeps GNative mode tied to an initialized session:
/// a shell made by `new`, then changed by any sequence of `initialize_gnative`,
/// `enter_gnative`, `exit_gnative` and `switch_mode`, is never in GNative mode
/// without a session. Here: each step from a shell that satisfies it.
pub proof fn law_gnative_mode_needs_session(before: GShell, after: GShell, step: GShellStep)
    requires
        before.wf(),
        step_result(before, step, after),
    ensures
        after.wf(),
        after.spec_id() == before.spec_id(),
{
}

/// The operations that change a GShell, for stating what all of them keep.
pub enum GShellStep {
    InitializeGNative,
    EnterGNative,
    ExitGNative,
    SwitchMode(GShellMode),
}

/// Whether `after` is what the operation `step` makes of `before`, as the
/// operations' own contracts state it.
pub open spec fn step_result(before: GShell, step: GShellStep, after: GShell) -> bool {
    &&& after.spec_id() == before.spec_id()
    &&& match step {
        GShellStep::InitializeGNative => after.has_session() && after.spec_mode() == before.spec_mode(),
        GShellStep::EnterGNative => after.has_session() == before.has_session() && after.spec_mode() == (
        if before.has_session() {
            GShellMode::GNative
        } else {
            before.spec_mode()
        }),
        GShellStep::ExitGNative => !after.has_session() && after.spec_mode() == GShellMode::Pty,
        GShellStep::SwitchMode(mode) => after.has_session() == before.has_session() && after.spec_mode() == (
        match mode {
            GShellMode::Pty => GShellMode::Pty,
            GShellMode::GNative => if before.has_session() {
                GShellMode::GNative
            } else {
                before.spec_mode()
            },
        }),
    }
}

} // verus!
