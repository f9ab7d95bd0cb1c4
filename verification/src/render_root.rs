//! The state that all passes over one tree share.

use vstd::prelude::*;
use crate::geometry::WindowRect;
use crate::tree_arena::{all_distinct, WidgetNode, MAX_TREE_DEPTH};
use crate::widget_state::{WidgetId, WidgetState};

verus! {

/// What the tree tells the platform after a pass.
#[derive(Clone, Copy, Debug, PartialEq, Eq, Structural)]
pub enum RenderRootSignal {
    /// The anchor area of the input method has moved to the given area.
    ImeMoved(WindowRect),
}

impl RenderRootSignal {
    pub fn new_ime_moved_signal(area: WindowRect) -> (signal: RenderRootSignal)
        ensures
            signal == RenderRootSignal::ImeMoved(area),
    {
        RenderRootSignal::ImeMoved(area)
    }
}

/// The state of one tree that is not tied to a single widget.
pub struct RenderRootState {
    /// Whether the embedding program wants the compose pass instrumented.
    pub trace_compose: bool,
    /// The signals that wait for the platform, oldest first.
    pub signal_queue: Vec<RenderRootSignal>,
    /// The widget that holds the input focus.
    pub focused_widget: Option<WidgetId>,
    /// Whether what lies under the pointer has to be found again.
    pub needs_pointer_pass: bool,
}

/// `RenderRootState` as a plain value.
pub struct RenderRootStateView {
    pub trace_compose: bool,
    pub signal_queue: Seq<RenderRootSignal>,
    pub focused_widget: Option<WidgetId>,
    pub needs_pointer_pass: bool,
}

impl RenderRootStateView {
    /// The state of a tree that no pass has walked yet: no focus, no signal,
    /// nothing asked for.
    pub open spec fn initial() -> RenderRootStateView {
        RenderRootStateView {
            trace_compose: false,
            signal_queue: Seq::empty(),
            focused_widget: None,
            needs_pointer_pass: false,
        }
    }

    /// The state after `signals` have been put on the queue.
    pub open spec fn emitting(self, signals: Seq<RenderRootSignal>) -> RenderRootStateView {
        RenderRootStateView { signal_queue: self.signal_queue + signals, ..self }
    }
}

impl View for RenderRootState {
    type V = RenderRootStateView;

    open spec fn view(&self) -> RenderRootStateView {
        RenderRootStateView {
            trace_compose: self.trace_compose,
            signal_queue: self.signal_queue@,
            focused_widget: self.focused_widget,
            needs_pointer_pass: self.needs_pointer_pass,
        }
    }
}

impl RenderRootState {
    pub fn new() -> (state: RenderRootState)
        ensures
            state@ == RenderRootStateView::initial(),
    {
        RenderRootState {
            trace_compose: false,
            signal_queue: Vec::new(),
            focused_widget: None,
            needs_pointer_pass: false,
        }
    }

    pub fn is_focused(&self, id: WidgetId) -> (focused: bool)
        ensures
            focused == (self.focused_widget == Some(id)),
    {
        match self.focused_widget {
            Some(holder) => holder == id,
            None => false,
        }
    }

    pub fn emit_signal(&mut self, signal: RenderRootSignal)
        ensures
            final(self)@ == old(self)@.emitting(seq![signal]),
    {
        self.signal_queue.push(signal);
        assert(self.signal_queue@ =~= old(self).signal_queue@ + seq![signal]);
    }

    /// Hands over the signals that wait, oldest first, and leaves the queue
    /// empty.
    pub fn take_signals(&mut self) -> (signals: Vec<RenderRootSignal>)
        ensures
            signals@ == old(self)@.signal_queue,
            final(self)@ == (RenderRootStateView { signal_queue: Seq::empty(), ..old(self)@ }),
    {
        let mut signals: Vec<RenderRootSignal> = Vec::new();
        core::mem::swap(&mut self.signal_queue, &mut signals);
        signals
    }
}

/// A widget tree together with the state that its passes share.
pub struct RenderRoot<W> {
    pub root: WidgetNode<W>,
    pub global_state: RenderRootState,
}

impl<W> RenderRoot<W> {
    /// Whether the passes can walk the tree.
    pub open spec fn wf(self) -> bool {
        self.root@.wf()
    }

    /// Takes the tree of `root` if the passes can walk it: it is no deeper
    /// than `MAX_TREE_DEPTH` and no two of its widgets share an identity.
    /// Nothing is focused and no signal waits.
    pub fn new(root: WidgetNode<W>) -> (render_root: Option<RenderRoot<W>>)
        ensures
            render_root is Some == root@.wf(),
            render_root matches Some(taken) ==> taken.root == root && taken.global_state@
                == RenderRootStateView::initial(),
    {
        if !root.fits_depth(MAX_TREE_DEPTH) {
            return None;
        }
        let mut ids: Vec<WidgetId> = Vec::new();
        root.collect_ids(&mut ids);
        if !all_distinct(&ids) {
            return None;
        }
        Some(RenderRoot { root, global_state: RenderRootState::new() })
    }

    /// The record of the root widget.
    pub fn root_state(&self) -> (state: &WidgetState)
        ensures
            *state == self.root@.state,
    {
        &self.root.state
    }

    /// Replaces the record of the widget with the identity `id` by `state`,
    /// which is given that identity, and folds the new record into the
    /// record of each ancestor, so that what the widget asks of a pass
    /// shows all the way up to the root. Returns whether the tree has such a
    /// widget; where it has none, nothing changes.
    pub fn update_widget_state(&mut self, id: WidgetId, state: WidgetState) -> (found: bool)
        requires
            old(self).wf(),
        ensures
            final(self).wf(),
            found == old(self).root@.holds(id),
            final(self).root@ == old(self).root@.updated(id, state),
            final(self).global_state == old(self).global_state,
    {
        proof {
            self.root@.lemma_updated_shape(id, state);
        }
        self.root.update_state(id, state)
    }
}

} // verus!
