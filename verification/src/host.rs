//! Decisions of the window-loop host: PTY output is queued per shell until
//! the next redraw, at most one redraw request is outstanding, and the
//! runtime's control flow decides whether the window loop goes on.

use std::collections::HashMap;
use vstd::prelude::*;
use crate::gshell::GShellId;
use crate::ports::WindowControlFlow;
use crate::runtime::RuntimeControlFlow;

verus! {

broadcast use vstd::std_specs::hash::group_hash_axioms;

/// PTY output waiting for the next redraw, per shell.
pub struct PtyOutputQueue {
    pending: HashMap<u64, Vec<u8>>,
}

impl PtyOutputQueue {
    /// The bytes waiting for each shell.
    pub closed spec fn pending(&self) -> Map<u64, Seq<u8>> {
        self.pending@.map_values(|v: Vec<u8>| v@)
    }

    pub fn new() -> (q: Self)
        ensures
            q.pending() == Map::<u64, Seq<u8>>::empty(),
    {
        let q = PtyOutputQueue { pending: HashMap::new() };
        proof {
            assert(q.pending() =~= Map::<u64, Seq<u8>>::empty());
        }
        q
    }

    /// Appends output of shell `id` to what waits for it; empty output changes nothing.
    pub fn queue(&mut self, id: GShellId, bytes: Vec<u8>)
        ensures
            bytes@.len() == 0 ==> final(self).pending() == old(self).pending(),
            bytes@.len() > 0 ==> final(self).pending() == old(self).pending().insert(
                id.0,
                (if old(self).pending().contains_key(id.0) {
                    old(self).pending()[id.0]
                } else {
                    Seq::empty()
                }) + bytes@,
            ),
    {
        if bytes.len() == 0 {
            return;
        }
        let mut buffer = match self.pending.remove(&id.0) {
            Some(b) => b,
            None => Vec::new(),
        };
        let ghost before = buffer@;
        let mut i: usize = 0;
        while i < bytes.len()
            invariant
                0 <= i <= bytes@.len(),
                buffer@ == before + bytes@.subrange(0, i as int),
            decreases bytes.len() - i,
        {
            buffer.push(bytes[i]);
            i = i + 1;
            proof {
                assert(buffer@ =~= before + bytes@.subrange(0, i as int));
            }
        }
        self.pending.insert(id.0, buffer);
        proof {
            assert(bytes@.subrange(0, i as int) =~= bytes@);
            assert(self.pending() =~= old(self).pending().insert(
                id.0,
                (if old(self).pending().contains_key(id.0) {
                    old(self).pending()[id.0]
                } else {
                    Seq::empty()
                }) + bytes@,
            ));
        }
    }

    fn queued_ids(&self) -> (ids: Vec<u64>)
        ensures
            ids@.no_duplicates(),
            ids@.to_set() == self.pending@.dom(),
    {
        let mut ids: Vec<u64> = Vec::new();
        for k in it: self.pending.keys()
            invariant
                it.seq().unref().to_set() == self.pending@.dom(),
                it.seq().no_duplicates(),
                ids@ == it.seq().unref().take(it.index() as int),
                ids@.no_duplicates(),
                it.index() == it.seq().len() ==> ids@.to_set() == self.pending@.dom(),
            ensures
                ids@.no_duplicates(),
                ids@.to_set() == self.pending@.dom(),
        {
            ids.push(*k);
            proof {
                assert(ids@ =~= it.seq().unref().take(it.index() + 1));
                assert(it.index() + 1 == it.seq().len() ==> ids@ =~= it.seq().unref());
                assert forall|a: int, b: int| 0 <= a < ids@.len() && 0 <= b < ids@.len() && a != b implies ids@[a]
                    != ids@[b] by {
                    assert(ids@[a] == *it.seq()[a]);
                    assert(ids@[b] == *it.seq()[b]);
                }
            }
        }
        ids
    }

    /// Takes all waiting output, one entry per shell, in no fixed order; nothing waits afterwards.
    pub fn take_all(&mut self) -> (entries: Vec<(GShellId, Vec<u8>)>)
        ensures
            final(self).pending() == Map::<u64, Seq<u8>>::empty(),
            entries@.len() == old(self).pending().dom().len(),
            forall|i: int, j: int| 0 <= i < j < entries@.len() ==> (#[trigger] entries@[i]).0 != (#[trigger] entries@[j]).0,
            forall|i: int|
                0 <= i < entries@.len() ==> old(self).pending().contains_key((#[trigger] entries@[i]).0.0)
                    && entries@[i].1@ == old(self).pending()[entries@[i].0.0],
            forall|k: u64| old(self).pending().contains_key(k) ==> exists|i: int| 0 <= i < entries@.len() && (#[trigger] entries@[i]).0.0 == k,
    {
        let ids = self.queued_ids();
        let ghost start = self.pending@;
        proof {
            assert(old(self).pending().dom() =~= start.dom());
            ids@.unique_seq_to_set();
        }
        let mut entries: Vec<(GShellId, Vec<u8>)> = Vec::new();
        let mut i: usize = 0;
        while i < ids.len()
            invariant
                ids@.no_duplicates(),
                ids@.to_set() == start.dom(),
                0 <= i <= ids@.len(),
                entries@.len() == i,
                forall|j: int| 0 <= j < i ==> (#[trigger] entries@[j]).0.0 == ids@[j] && entries@[j].1@ == start[ids@[j]]@,
                self.pending@ == start.remove_keys(ids@.subrange(0, i as int).to_set()),
            decreases ids.len() - i,
        {
            let k = ids[i];
            proof {
                assert(start.dom().contains(k)) by {
                    assert(ids@.to_set().contains(ids@[i as int]));
                }
                assert(!ids@.subrange(0, i as int).contains(k)) by {
                    if ids@.subrange(0, i as int).contains(k) {
                        let j = choose|j: int| 0 <= j < i && ids@.subrange(0, i as int)[j] == k;
                        assert(ids@[j] == ids@[i as int]);
                    }
                }
            }
            let bytes = match self.pending.remove(&k) {
                Some(b) => b,
                None => Vec::new(),
            };
            entries.push((GShellId::new(k), bytes));
            i = i + 1;
            proof {
                assert(ids@.subrange(0, i as int) =~= ids@.subrange(0, i - 1).push(k));
                ids@.subrange(0, i - 1).lemma_push_to_set_commute(k);
                assert(ids@.subrange(0, i as int).to_set() =~= ids@.subrange(0, i - 1).to_set().insert(k));
                assert(self.pending@ =~= start.remove_keys(ids@.subrange(0, i as int).to_set()));
            }
        }
        proof {
            assert(ids@.subrange(0, i as int) =~= ids@);
            assert(self.pending@ =~= Map::empty());
            assert(self.pending() =~= Map::<u64, Seq<u8>>::empty());
            assert forall|a: int, b: int| 0 <= a < b < entries@.len() implies (#[trigger] entries@[a]).0 != (#[trigger] entries@[b]).0 by {
                assert(entries@[a].0.0 == ids@[a]);
                assert(entries@[b].0.0 == ids@[b]);
            }
            assert forall|k: u64| old(self).pending().contains_key(k) implies exists|i: int| 0 <= i < entries@.len() && (#[trigger] entries@[i]).0.0 == k by {
                assert(ids@.to_set().contains(k));
                let j = choose|j: int| 0 <= j < ids@.len() && ids@[j] == k;
                assert(entries@[j].0.0 == k);
            }
            assert forall|j: int| 0 <= j < entries@.len() implies old(self).pending().contains_key((#[trigger] entries@[j]).0.0)
                && entries@[j].1@ == old(self).pending()[entries@[j].0.0] by {
                assert(ids@.to_set().contains(ids@[j]));
            }
        }
        entries
    }
}

/// The host's redraw and exit bookkeeping.
pub struct HostFlow {
    redraw_requested: bool,
    control_flow: WindowControlFlow,
}

/// What the host does after the runtime answered an event.
#[derive(Debug, Clone, Copy, PartialEq, Eq, Structural)]
pub struct HostAction {
    /// Ask the window for a redraw.
    pub request_redraw: bool,
    /// Ask the window loop to exit.
    pub request_exit: bool,
    /// The control flow reported for the event.
    pub control_flow: WindowControlFlow,
}

impl HostFlow {
    pub closed spec fn spec_redraw_requested(&self) -> bool {
        self.redraw_requested
    }

    pub closed spec fn spec_control_flow(&self) -> WindowControlFlow {
        self.control_flow
    }

    pub fn new() -> (h: Self)
        ensures
            !h.spec_redraw_requested(),
            h.spec_control_flow() == WindowControlFlow::Continue,
    {
        HostFlow { redraw_requested: false, control_flow: WindowControlFlow::Continue }
    }

    pub fn control_flow(&self) -> (c: WindowControlFlow)
        ensures
            c == self.spec_control_flow(),
    {
        self.control_flow
    }

    pub fn should_exit(&self) -> (b: bool)
        ensures
            b == (self.spec_control_flow() == WindowControlFlow::Exit),
    {
        match self.control_flow {
            WindowControlFlow::Exit => true,
            WindowControlFlow::Continue => false,
        }
    }

    /// A redraw has started: the outstanding request is served.
    pub fn begin_redraw(&mut self)
        ensures
            !final(self).spec_redraw_requested(),
            final(self).spec_control_flow() == old(self).spec_control_flow(),
    {
        self.redraw_requested = false;
    }

    /// Whether to ask the window for a redraw now: only when none is
    /// outstanding and there is a window to ask, which then has one outstanding.
    pub fn request_redraw(&mut self, has_proxy: bool) -> (ask: bool)
        ensures
            ask == (!old(self).spec_redraw_requested() && has_proxy),
            final(self).spec_redraw_requested() == (old(self).spec_redraw_requested() || has_proxy),
            final(self).spec_control_flow() == old(self).spec_control_flow(),
    {
        if self.redraw_requested {
            return false;
        }
        if has_proxy {
            self.redraw_requested = true;
            true
        } else {
            false
        }
    }

    /// Applies the runtime's answer to an event. On exit the loop ends and the
    /// window is asked to exit. Otherwise the loop goes on, and a new frame
    /// asks for a redraw when `redraw_on_frame` is set.
    pub fn apply_runtime_flow(&mut self, flow: RuntimeControlFlow, has_frame: bool, redraw_on_frame: bool, has_proxy: bool) -> (a: HostAction)
        ensures
            flow == RuntimeControlFlow::Exit ==> a == (HostAction {
                request_redraw: false,
                request_exit: has_proxy,
                control_flow: WindowControlFlow::Exit,
            }) && final(self).spec_control_flow() == WindowControlFlow::Exit && final(self).spec_redraw_requested() == old(self).spec_redraw_requested(),
            flow == RuntimeControlFlow::Continue ==> {
                let ask = has_frame && redraw_on_frame && !old(self).spec_redraw_requested() && has_proxy;
                &&& a == (HostAction { request_redraw: ask, request_exit: false, control_flow: WindowControlFlow::Continue })
                &&& final(self).spec_control_flow() == WindowControlFlow::Continue
                &&& final(self).spec_redraw_requested() == (old(self).spec_redraw_requested() || (has_frame && redraw_on_frame && has_proxy))
            },
    {
        match flow {
            RuntimeControlFlow::Continue => {
                self.control_flow = WindowControlFlow::Continue;
                let ask = if has_frame && redraw_on_frame {
                    self.request_redraw(has_proxy)
                } else {
                    false
                };
                HostAction { request_redraw: ask, request_exit: false, control_flow: WindowControlFlow::Continue }
            },
            RuntimeControlFlow::Exit => {
                self.control_flow = WindowControlFlow::Exit;
                HostAction { request_redraw: false, request_exit: has_proxy, control_flow: WindowControlFlow::Exit }
            },
        }
    }
}

} // verus!
