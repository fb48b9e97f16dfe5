//! The registry of running GShells kept by the application layer: which
//! shells exist, which one is active, and the decisions that route PTY output
//! and GNative requests to them.

use std::collections::HashMap;
use vstd::prelude::*;
use crate::gshell::{GShell, GShellId, GShellMode};
use crate::ports::{PtyError, PtyResult, WindowSize};
use crate::protocol::{GRequest, detect_gnative_request, holds_gnative_request, requested_app_name};

verus! {

broadcast use vstd::std_specs::hash::group_hash_axioms;

/// What closing a shell left behind.
#[derive(Debug, Clone, Copy, PartialEq, Eq, Structural)]
pub enum CloseShellResult {
    /// Another shell is active now.
    Closed { next_active: GShellId },
    /// The closed shell was the last one.
    LastShellClosed,
}

/// An event produced from PTY output.
#[derive(Debug)]
pub enum GShellPtyEvent {
    /// Ordinary terminal output was processed; these responses go back to the PTY.
    Output { id: GShellId, responses: Vec<Vec<u8>> },
    /// The output held a GNative request, and the shell entered GNative mode.
    EnterGNative(GRequest),
}

/// Where PTY output goes.
#[derive(Debug)]
pub enum PtyOutputRoute {
    /// The output held a GNative request; the shell has entered GNative mode.
    EnterGNative(GRequest),
    /// The output is ordinary terminal output, for the terminal engine.
    Terminal,
}

/// A pending spawn: the id given to the new shell, and the shell that was active before.
#[derive(Debug, Clone, Copy, PartialEq, Eq, Structural)]
pub struct PendingSpawn {
    pub id: GShellId,
    pub previous_active: GShellId,
}

/// Where a spawn stands once the shell is registered.
#[derive(Debug, Clone, Copy, PartialEq, Eq, Structural)]
pub enum SpawnStage {
    /// Its PTY is being spawned.
    SpawningPty,
    /// Its terminal is being created.
    CreatingTerminal,
    /// Its terminal failed with this error, and its PTY is being closed.
    ClosingPty(PtyError),
}

/// What a spawn does next.
#[derive(Debug, Clone, Copy, PartialEq, Eq, Structural)]
pub enum SpawnAction {
    /// Create the shell's terminal.
    CreateTerminal,
    /// Close the shell's PTY; the spawn then fails with this error.
    ClosePty(PtyError),
    /// Roll the registration back and fail with this error.
    RollBackAndFail(PtyError),
    /// Fail with this error and keep the registration.
    Fail(PtyError),
    /// The shell runs.
    Succeed,
}

/// The next step of a spawn after the outcome of its current stage: a PTY
/// that fails to spawn rolls the registration back; a terminal that fails
/// closes the PTY first; the rollback follows only when that close succeeds,
/// and a failed close fails the spawn with its own error.
pub fn spawn_step(stage: SpawnStage, outcome: PtyResult<()>) -> (a: SpawnAction)
    ensures
        a == (match (stage, outcome) {
            (SpawnStage::SpawningPty, Ok(())) => SpawnAction::CreateTerminal,
            (SpawnStage::SpawningPty, Err(e)) => SpawnAction::RollBackAndFail(e),
            (SpawnStage::CreatingTerminal, Ok(())) => SpawnAction::Succeed,
            (SpawnStage::CreatingTerminal, Err(e)) => SpawnAction::ClosePty(e),
            (SpawnStage::ClosingPty(e), Ok(())) => SpawnAction::RollBackAndFail(e),
            (SpawnStage::ClosingPty(_), Err(e)) => SpawnAction::Fail(e),
        }),
{
    match stage {
        SpawnStage::SpawningPty => match outcome {
            Ok(()) => SpawnAction::CreateTerminal,
            Err(e) => SpawnAction::RollBackAndFail(e),
        },
        SpawnStage::CreatingTerminal => match outcome {
            Ok(()) => SpawnAction::Succeed,
            Err(e) => SpawnAction::ClosePty(e),
        },
        SpawnStage::ClosingPty(terminal_error) => match outcome {
            Ok(()) => SpawnAction::RollBackAndFail(terminal_error),
            Err(e) => SpawnAction::Fail(e),
        },
    }
}

/// Registry of running GShells, keyed by the numeric value of their ids.
pub struct GShellServiceState {
    next_id: u64,
    active: GShellId,
    shells: HashMap<u64, GShell>,
    last_window_size: Option<WindowSize>,
}

impl GShellServiceState {
    pub closed spec fn spec_shells(&self) -> Map<u64, GShell> {
        self.shells@
    }

    pub closed spec fn spec_active(&self) -> GShellId {
        self.active
    }

    pub closed spec fn spec_next_id(&self) -> u64 {
        self.next_id
    }

    pub closed spec fn spec_last_window_size(&self) -> Option<WindowSize> {
        self.last_window_size
    }

    /// The registry's invariant: each shell is stored under its own id, every
    /// id is below the next id to allocate, each shell keeps GNative mode tied to
    /// a session, and while any shell exists the active id names one of them.
    pub open spec fn wf(&self) -> bool {
        &&& forall|k: u64| #[trigger]
            self.spec_shells().contains_key(k) ==> self.spec_shells()[k].spec_id().0 == k && self.spec_shells()[k].wf()
                && k < self.spec_next_id()
        &&& self.spec_shells().len() > 0 ==> self.spec_shells().contains_key(self.spec_active().0)
        &&& self.spec_shells().dom().finite()
    }

    /// Whether `id` names a shell of the registry.
    pub open spec fn has(&self, id: GShellId) -> bool {
        self.spec_shells().contains_key(id.0)
    }

    /// A registry holding shell 1, in PTY mode, which is active.
    pub fn new() -> (s: Self)
        ensures
            s.wf(),
            s.spec_shells().dom() == set![1u64],
            s.spec_shells()[1].is_fresh(GShellId(1)),
            s.spec_active().0 == 1,
            s.spec_next_id() == 2,
            s.spec_last_window_size() is None,
    {
        let mut shells = HashMap::new();
        let initial_id = GShellId::new(1);
        shells.insert(initial_id.value(), GShell::new(initial_id));
        let s = GShellServiceState { next_id: initial_id.value() + 1, active: initial_id, shells, last_window_size: None };
        proof {
            assert(s.spec_shells().dom() =~= set![1u64]);
        }
        s
    }

    /// The active shell's id.
    pub fn active(&self) -> (id: GShellId)
        ensures
            id == self.spec_active(),
    {
        self.active
    }

    /// The id the next spawned shell gets.
    pub fn next_id(&self) -> (id: u64)
        ensures
            id == self.spec_next_id(),
    {
        self.next_id
    }

    pub fn contains(&self, id: GShellId) -> (b: bool)
        ensures
            b == self.has(id),
    {
        self.shells.contains_key(&id.0)
    }

    /// The shell stored under `id`.
    pub fn shell(&self, id: GShellId) -> (s: Option<GShell>)
        ensures
            s == (if self.has(id) { Some(self.spec_shells()[id.0]) } else { None }),
    {
        match self.shells.get(&id.0) {
            Some(s) => Some(*s),
            None => None,
        }
    }

    fn allocate_id(&mut self) -> (id: GShellId)
        requires
            old(self).spec_next_id() < u64::MAX,
        ensures
            id.0 == old(self).spec_next_id(),
            final(self).spec_next_id() == old(self).spec_next_id() + 1,
            final(self).spec_shells() == old(self).spec_shells(),
            final(self).spec_active() == old(self).spec_active(),
            final(self).spec_last_window_size() == old(self).spec_last_window_size(),
    {
        let id = GShellId::new(self.next_id);
        self.next_id = self.next_id + 1;
        id
    }

    fn insert(&mut self, shell: GShell) -> (r: PtyResult<()>)
        requires
            old(self).wf(),
            shell.wf(),
            shell.spec_id().0 < old(self).spec_next_id(),
        ensures
            final(self).wf(),
            final(self).spec_next_id() == old(self).spec_next_id(),
            final(self).spec_last_window_size() == old(self).spec_last_window_size(),
            r is Err <==> old(self).has(shell.spec_id()),
            r is Err ==> r == Err::<(), PtyError>(PtyError::SessionAlreadyExists) && final(self).spec_shells()
                == old(self).spec_shells() && final(self).spec_active() == old(self).spec_active(),
            r is Ok ==> final(self).spec_shells() == old(self).spec_shells().insert(shell.spec_id().0, shell)
                && final(self).spec_active() == shell.spec_id(),
    {
        let id = shell.id();
        if self.shells.contains_key(&id.0) {
            return Err(PtyError::SessionAlreadyExists);
        }
        self.shells.insert(id.0, shell);
        self.active = id;
        Ok(())
    }

    /// Makes `id` the active shell.
    pub fn activate(&mut self, id: GShellId) -> (r: PtyResult<()>)
        requires
            old(self).wf(),
        ensures
            final(self).wf(),
            final(self).spec_shells() == old(self).spec_shells(),
            final(self).spec_next_id() == old(self).spec_next_id(),
            final(self).spec_last_window_size() == old(self).spec_last_window_size(),
            r is Err <==> !old(self).has(id),
            r is Err ==> r == Err::<(), PtyError>(PtyError::SessionNotFound) && final(self).spec_active() == old(
                self,
            ).spec_active(),
            r is Ok ==> final(self).spec_active() == id,
    {
        if !self.shells.contains_key(&id.0) {
            return Err(PtyError::SessionNotFound);
        }
        self.active = id;
        Ok(())
    }

    pub fn last_window_size(&self) -> (s: Option<WindowSize>)
        ensures
            s == self.spec_last_window_size(),
    {
        self.last_window_size
    }

    pub fn set_last_window_size(&mut self, size: WindowSize)
        ensures
            final(self).spec_last_window_size() == Some(size),
            final(self).spec_shells() == old(self).spec_shells(),
            final(self).spec_active() == old(self).spec_active(),
            final(self).spec_next_id() == old(self).spec_next_id(),
    {
        self.last_window_size = Some(size);
    }
}


impl GShellServiceState {
    /// Some shell id other than `id`, when the registry holds one.
    fn other_shell(&self, id: u64) -> (r: Option<u64>)
        requires
            self.wf(),
        ensures
            r matches Some(k) ==> k != id && self.spec_shells().contains_key(k),
            r is None ==> forall|k: u64| #[trigger] self.spec_shells().contains_key(k) ==> k == id,
    {
        let mut found: Option<u64> = None;
        for k in it: self.shells.keys()
            invariant
                self.wf(),
                it.seq().unref().to_set() == self.spec_shells().dom(),
                found matches Some(f) ==> f != id && self.spec_shells().contains_key(f),
                found is None ==> forall|j: int| 0 <= j < it.index() ==> *it.seq()[j] == id,
            ensures
                found matches Some(f) ==> f != id && self.spec_shells().contains_key(f),
                found is None ==> forall|k: u64| #[trigger] self.spec_shells().contains_key(k) ==> k == id,
        {
            if found.is_none() && *k != id {
                found = Some(*k);
            }
        }
        found
    }
}


impl GShellServiceState {
    /// Removes shell `id`. When it was the last one, the registry is empty and the
    /// active id is left as it was. Otherwise the active shell stays active, or,
    /// when `id` was active, some other shell becomes active.
    pub fn remove(&mut self, id: GShellId) -> (r: PtyResult<CloseShellResult>)
        requires
            old(self).wf(),
        ensures
            final(self).wf(),
            final(self).spec_next_id() == old(self).spec_next_id(),
            final(self).spec_last_window_size() == old(self).spec_last_window_size(),
            r is Err <==> !old(self).has(id),
            r is Err ==> r == Err::<CloseShellResult, PtyError>(PtyError::SessionNotFound) && final(self).spec_shells()
                == old(self).spec_shells() && final(self).spec_active() == old(self).spec_active(),
            r is Ok ==> final(self).spec_shells() == old(self).spec_shells().remove(id.0),
            r == Ok::<CloseShellResult, PtyError>(CloseShellResult::LastShellClosed) <==> old(self).has(id)
                && old(self).spec_shells().len() == 1,
            r == Ok::<CloseShellResult, PtyError>(CloseShellResult::LastShellClosed) ==> final(self).spec_active()
                == old(self).spec_active(),
            r matches Ok(CloseShellResult::Closed { next_active }) ==> next_active == final(self).spec_active()
                && next_active != id && old(self).has(next_active) && (old(self).spec_active() != id ==> next_active
                == old(self).spec_active()),
    {
        if !self.shells.contains_key(&id.0) {
            return Err(PtyError::SessionNotFound);
        }
        if self.shells.len() == 1 {
            self.shells.remove(&id.0);
            proof {
                assert(self.spec_shells().len() == 0);
            }
            return Ok(CloseShellResult::LastShellClosed);
        }
        let next_active = if self.active.0 == id.0 {
            match self.other_shell(id.0) {
                Some(k) => GShellId::new(k),
                None => {
                    proof {
                        let dom = self.spec_shells().dom();
                        assert(dom.subset_of(set![id.0]));
                        vstd::set_lib::lemma_len_subset(dom, set![id.0]);
                        assert(set![id.0].len() == 1);
                    }
                    return Err(PtyError::SessionNotFound);
                },
            }
        } else {
            self.active
        };
        self.shells.remove(&id.0);
        self.active = next_active;
        proof {
            assert(self.spec_shells().len() > 0);
        }
        Ok(CloseShellResult::Closed { next_active })
    }

    /// Undoes an insert: removes shell `id` and makes `previous_active` active again.
    pub fn rollback_insert(&mut self, id: GShellId, previous_active: GShellId)
        requires
            old(self).wf(),
            old(self).spec_shells().remove(id.0).len() > 0 ==> old(self).spec_shells().remove(id.0).contains_key(
                previous_active.0,
            ),
        ensures
            final(self).wf(),
            final(self).spec_shells() == old(self).spec_shells().remove(id.0),
            final(self).spec_active() == previous_active,
            final(self).spec_next_id() == old(self).spec_next_id(),
            final(self).spec_last_window_size() == old(self).spec_last_window_size(),
    {
        self.shells.remove(&id.0);
        self.active = previous_active;
    }

    /// Starts spawning a shell: allocates the next id and registers a fresh
    /// shell under it, which becomes active. The PTY and the terminal are
    /// started next, by the caller; on failure it calls `rollback_insert` with
    /// the returned pending spawn.
    pub fn begin_spawn(&mut self) -> (r: PtyResult<PendingSpawn>)
        requires
            old(self).wf(),
            old(self).spec_next_id() < u64::MAX,
        ensures
            final(self).wf(),
            r is Ok,
            r matches Ok(p) ==> {
                &&& p.id.0 == old(self).spec_next_id()
                &&& p.previous_active == old(self).spec_active()
                &&& !old(self).has(p.id)
                &&& final(self).spec_shells() == old(self).spec_shells().insert(p.id.0, GShell::spec_new(p.id))
                &&& final(self).spec_shells()[p.id.0].is_fresh(p.id)
                &&& final(self).spec_active() == p.id
                &&& final(self).spec_next_id() == old(self).spec_next_id() + 1
            },
            final(self).spec_last_window_size() == old(self).spec_last_window_size(),
    {
        let previous_active = self.active;
        let id = self.allocate_id();
        let shell = GShell::new(id);
        match self.insert(shell) {
            Ok(()) => {},
            Err(e) => {
                return Err(e);
            },
        }
        Ok(PendingSpawn { id, previous_active })
    }
}

/// A spawn that fails after `begin_spawn` and is rolled back with
/// `rollback_insert` leaves the registry's shells and active shell as they were.
pub proof fn law_rollback_undoes_begin_spawn(
    before: GShellServiceState,
    spawned: GShellServiceState,
    after: GShellServiceState,
    pending: PendingSpawn,
)
    requires
        !before.has(pending.id),
        pending.previous_active == before.spec_active(),
        spawned.spec_shells() == before.spec_shells().insert(pending.id.0, GShell::spec_new(pending.id)),
        after.spec_shells() == spawned.spec_shells().remove(pending.id.0),
        after.spec_active() == pending.previous_active,
    ensures
        after.spec_shells() == before.spec_shells(),
        after.spec_active() == before.spec_active(),
{
    assert(after.spec_shells() =~= before.spec_shells());
}


/// Whether `after` is shell `before` in GNative mode, with a session.
pub open spec fn entered_gnative(before: GShell, after: GShell) -> bool {
    &&& after.spec_id() == before.spec_id()
    &&& after.has_session()
    &&& after.spec_mode() == GShellMode::GNative
}

/// Whether `after` is shell `before` back in PTY mode, without a session.
pub open spec fn exited_gnative(before: GShell, after: GShell) -> bool {
    &&& after.spec_id() == before.spec_id()
    &&& !after.has_session()
    &&& after.spec_mode() == GShellMode::Pty
}

impl GShellServiceState {
    /// Puts shell `id` into GNative mode, initializing its session first.
    fn enter_gnative_mode(&mut self, id: GShellId) -> (r: PtyResult<()>)
        requires
            old(self).wf(),
        ensures
            final(self).wf(),
            final(self).spec_active() == old(self).spec_active(),
            final(self).spec_next_id() == old(self).spec_next_id(),
            final(self).spec_last_window_size() == old(self).spec_last_window_size(),
            r is Err <==> !old(self).has(id),
            r is Err ==> r == Err::<(), PtyError>(PtyError::SessionNotFound) && final(self).spec_shells() == old(
                self,
            ).spec_shells(),
            r is Ok ==> final(self).spec_shells().dom() == old(self).spec_shells().dom() && entered_gnative(
                old(self).spec_shells()[id.0],
                final(self).spec_shells()[id.0],
            ) && forall|k: u64| k != id.0 ==> #[trigger] final(self).spec_shells().get(k) == old(self).spec_shells().get(k),
    {
        let mut shell = match self.shells.get(&id.0) {
            Some(s) => *s,
            None => return Err(PtyError::SessionNotFound),
        };
        shell.initialize_gnative();
        shell.enter_gnative();
        self.shells.insert(id.0, shell);
        proof {
            assert(self.spec_shells().dom() =~= old(self).spec_shells().dom());
        }
        Ok(())
    }

    /// Puts shell `id` back into PTY mode, dropping its session.
    pub fn exit_gnative(&mut self, id: GShellId) -> (r: PtyResult<()>)
        requires
            old(self).wf(),
        ensures
            final(self).wf(),
            final(self).spec_active() == old(self).spec_active(),
            final(self).spec_next_id() == old(self).spec_next_id(),
            final(self).spec_last_window_size() == old(self).spec_last_window_size(),
            r is Err <==> !old(self).has(id),
            r is Err ==> r == Err::<(), PtyError>(PtyError::SessionNotFound) && final(self).spec_shells() == old(
                self,
            ).spec_shells(),
            r is Ok ==> final(self).spec_shells().dom() == old(self).spec_shells().dom() && exited_gnative(
                old(self).spec_shells()[id.0],
                final(self).spec_shells()[id.0],
            ) && forall|k: u64| k != id.0 ==> #[trigger] final(self).spec_shells().get(k) == old(self).spec_shells().get(k),
    {
        let mut shell = match self.shells.get(&id.0) {
            Some(s) => *s,
            None => return Err(PtyError::SessionNotFound),
        };
        shell.exit_gnative();
        self.shells.insert(id.0, shell);
        proof {
            assert(self.spec_shells().dom() =~= old(self).spec_shells().dom());
        }
        Ok(())
    }

    /// Puts shell `id` into GNative mode for `request`.
    pub fn enter_gnative(&mut self, id: GShellId, request: GRequest) -> (r: PtyResult<()>)
        requires
            old(self).wf(),
        ensures
            final(self).wf(),
            final(self).spec_active() == old(self).spec_active(),
            final(self).spec_next_id() == old(self).spec_next_id(),
            final(self).spec_last_window_size() == old(self).spec_last_window_size(),
            r is Err <==> !old(self).has(id),
            r is Err ==> r == Err::<(), PtyError>(PtyError::SessionNotFound) && final(self).spec_shells() == old(
                self,
            ).spec_shells(),
            r is Ok ==> final(self).spec_shells().dom() == old(self).spec_shells().dom() && entered_gnative(
                old(self).spec_shells()[id.0],
                final(self).spec_shells()[id.0],
            ) && forall|k: u64| k != id.0 ==> #[trigger] final(self).spec_shells().get(k) == old(self).spec_shells().get(k),
    {
        match request {
            GRequest::EnterGNative { .. } => self.enter_gnative_mode(id),
        }
    }

    /// Puts the active shell into GNative mode for `request`.
    pub fn enter_active_gnative(&mut self, request: GRequest) -> (r: PtyResult<()>)
        requires
            old(self).wf(),
        ensures
            final(self).wf(),
            final(self).spec_active() == old(self).spec_active(),
            final(self).spec_next_id() == old(self).spec_next_id(),
            final(self).spec_last_window_size() == old(self).spec_last_window_size(),
            r is Err <==> !old(self).has(old(self).spec_active()),
            r is Err ==> r == Err::<(), PtyError>(PtyError::SessionNotFound) && final(self).spec_shells() == old(
                self,
            ).spec_shells(),
            r is Ok ==> final(self).spec_shells().dom() == old(self).spec_shells().dom() && entered_gnative(
                old(self).spec_shells()[old(self).spec_active().0],
                final(self).spec_shells()[old(self).spec_active().0],
            ) && forall|k: u64| k != old(self).spec_active().0 ==> #[trigger] final(self).spec_shells().get(k)
                == old(self).spec_shells().get(k),
    {
        let id = self.active;
        self.enter_gnative(id, request)
    }

    /// Puts the active shell back into PTY mode.
    pub fn exit_active_gnative(&mut self) -> (r: PtyResult<()>)
        requires
            old(self).wf(),
        ensures
            final(self).wf(),
            final(self).spec_active() == old(self).spec_active(),
            final(self).spec_next_id() == old(self).spec_next_id(),
            final(self).spec_last_window_size() == old(self).spec_last_window_size(),
            r is Err <==> !old(self).has(old(self).spec_active()),
            r is Err ==> r == Err::<(), PtyError>(PtyError::SessionNotFound) && final(self).spec_shells() == old(
                self,
            ).spec_shells(),
            r is Ok ==> final(self).spec_shells().dom() == old(self).spec_shells().dom() && exited_gnative(
                old(self).spec_shells()[old(self).spec_active().0],
                final(self).spec_shells()[old(self).spec_active().0],
            ) && forall|k: u64| k != old(self).spec_active().0 ==> #[trigger] final(self).spec_shells().get(k)
                == old(self).spec_shells().get(k),
    {
        let id = self.active;
        self.exit_gnative(id)
    }

    /// Decides where output read from the PTY of shell `id` goes. When it holds a
    /// GNative request, the shell enters GNative mode and the request is
    /// returned; otherwise the output is for the terminal engine and nothing changes.
    pub fn route_pty_output(&mut self, id: GShellId, bytes: &[u8]) -> (r: PtyResult<PtyOutputRoute>)
        requires
            old(self).wf(),
        ensures
            final(self).wf(),
            final(self).spec_active() == old(self).spec_active(),
            final(self).spec_next_id() == old(self).spec_next_id(),
            final(self).spec_last_window_size() == old(self).spec_last_window_size(),
            r is Err <==> !old(self).has(id),
            r is Err ==> r matches Err(PtyError::SessionNotFound),
            !(r matches Ok(PtyOutputRoute::EnterGNative(_))) ==> final(self).spec_shells() == old(self).spec_shells(),
            r matches Ok(PtyOutputRoute::Terminal) <==> old(self).has(id) && !holds_gnative_request(bytes@),
            r matches Ok(PtyOutputRoute::EnterGNative(_)) <==> old(self).has(id) && holds_gnative_request(bytes@),
            r matches Ok(PtyOutputRoute::EnterGNative(GRequest::EnterGNative { app })) ==> app@ == requested_app_name(
                bytes@,
            ) && final(self).spec_shells().dom() == old(self).spec_shells().dom() && entered_gnative(
                old(self).spec_shells()[id.0],
                final(self).spec_shells()[id.0],
            ) && forall|k: u64| k != id.0 ==> #[trigger] final(self).spec_shells().get(k) == old(self).spec_shells().get(k),
    {
        if !self.shells.contains_key(&id.0) {
            return Err(PtyError::SessionNotFound);
        }
        match detect_gnative_request(bytes) {
            Some(request) => {
                match self.enter_gnative_mode(id) {
                    Ok(()) => {},
                    Err(e) => {
                        return Err(e);
                    },
                }
                Ok(PtyOutputRoute::EnterGNative(request))
            },
            None => Ok(PtyOutputRoute::Terminal),
        }
    }
}


impl Default for GShellServiceState {
    fn default() -> (s: Self)
        ensures
            s.wf(),
            s.spec_shells().dom() == set![1u64],
            s.spec_shells()[1].is_fresh(GShellId(1)),
            s.spec_active().0 == 1,
            s.spec_next_id() == 2,
            s.spec_last_window_size() is None,
    {
        GShellServiceState::new()
    }
}

} // verus!
