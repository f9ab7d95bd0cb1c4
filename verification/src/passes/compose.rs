//! The compose pass.
//!
//! The pass walks the tree from the root. At each widget it resolves the
//! widget's position in the window, and unless nothing above, at or below
//! the widget asked for the pass, it runs the widget's compose callback,
//! tells the input method where the focused text widget went, marks the
//! widget for the passes that depend on its position, and goes on to the
//! children.

use vstd::prelude::*;
use crate::contexts::{ComposeCtx, ComposeCtxView};
use crate::geometry::{Vec2, WindowVec2};
use crate::render_root::{RenderRoot, RenderRootSignal, RenderRootState, RenderRootStateView};
use crate::tree_arena::{NodeView, WidgetNode, MAX_TREE_DEPTH};
use crate::widget::Widget;
use crate::widget_state::{WidgetId, WidgetState};

verus! {

impl<W: Widget> NodeView<W> {
    /// The translations of the roots of `forest`, first to last.
    pub open spec fn forest_translations(forest: Seq<NodeView<W>>) -> Seq<Vec2> {
        Seq::new(forest.len(), |i: int| forest[i].state.translation)
    }

    /// The trees of `forest`, each with the translation that `ctx` holds for
    /// its position set on its root.
    pub open spec fn forest_repositioned(forest: Seq<NodeView<W>>, ctx: ComposeCtxView) -> Seq<
        NodeView<W>,
    > {
        Seq::new(forest.len(), |i: int| forest[i].repositioned(ctx.child_translation(i)))
    }

    /// The records of the roots of `forest`, first to last.
    pub open spec fn forest_states(forest: Seq<NodeView<W>>) -> Seq<WidgetState> {
        Seq::new(forest.len(), |i: int| forest[i].state)
    }

    /// The tree with the position of its root resolved under
    /// `parent_translation`.
    pub open spec fn positioned(self, parent_translation: WindowVec2) -> NodeView<W> {
        NodeView { state: self.state.positioned(parent_translation), ..self }
    }

    /// The context that the compose callback of the root is given.
    pub open spec fn compose_ctx(self) -> ComposeCtxView {
        ComposeCtxView {
            widget_state: self.state,
            child_translations: Self::forest_translations(self.children),
        }
    }

    /// The tree after the compose callback of its root, where the root
    /// asked for it: the widget is as the callback left it, the root's
    /// record has taken over what the callback decided, and each child has
    /// the translation that the callback left for it. Where the root did not
    /// ask, the tree is as it was.
    pub open spec fn called_back(self) -> NodeView<W> {
        if self.state.request_compose {
            let (widget, ctx) = self.widget.composed(self.compose_ctx());
            NodeView {
                widget,
                state: self.state.absorbing(ctx.widget_state),
                children: Self::forest_repositioned(self.children, ctx),
            }
        } else {
            self
        }
    }

    /// Setting translations on the roots of a forest does not change its
    /// height.
    pub proof fn lemma_forest_repositioned_height(forest: Seq<NodeView<W>>, ctx: ComposeCtxView)
        ensures
            Self::forest_height(Self::forest_repositioned(forest, ctx)) == Self::forest_height(
                forest,
            ),
        decreases forest.len(),
    {
        let moved = Self::forest_repositioned(forest, ctx);
        if forest.len() > 0 {
            Self::lemma_forest_repositioned_height(forest.drop_last(), ctx);
            assert(moved.drop_last() =~= Self::forest_repositioned(forest.drop_last(), ctx));
            assert(moved.last().height() == forest.last().height());
        }
    }

    /// Neither resolving the root's position nor its compose callback
    /// changes the height of the tree.
    pub proof fn lemma_called_back_height(self, parent_translation: WindowVec2)
        ensures
            self.positioned(parent_translation).called_back().height() == self.height(),
    {
        let entry = self.positioned(parent_translation);
        if entry.state.request_compose {
            let (widget, ctx) = entry.widget.composed(entry.compose_ctx());
            Self::lemma_forest_repositioned_height(self.children, ctx);
        }
    }

    /// The tree after the compose pass has visited it, coming from a parent
    /// that has or has not moved and whose offset in the window is
    /// `parent_translation`.
    pub open spec fn composed(
        self,
        parent_moved: bool,
        parent_translation: WindowVec2,
    ) -> NodeView<W>
        decreases self.height(), 0nat,
    {
        let entry = self.positioned(parent_translation);
        if entry.state.skips_compose(parent_moved) {
            entry
        } else {
            let called = entry.called_back();
            proof {
                self.lemma_called_back_height(parent_translation);
            }
            let children = Self::forest_composed(
                called.children,
                parent_moved || entry.state.translation_changed,
                entry.state.window_origin.as_vec2(),
            );
            NodeView {
                widget: called.widget,
                state: called.state.composed().merged_with_all(Self::forest_states(children)),
                children,
            }
        }
    }

    /// The trees of `forest`, each after the compose pass has visited it.
    pub open spec fn forest_composed(
        forest: Seq<NodeView<W>>,
        parent_moved: bool,
        parent_translation: WindowVec2,
    ) -> Seq<NodeView<W>>
        decreases Self::forest_height(forest), 1nat,
    {
        Seq::new(
            forest.len(),
            |i: int|
                if 0 <= i < forest.len() {
                    proof {
                        Self::lemma_forest_height_bounds(forest, i);
                    }
                    forest[i].composed(parent_moved, parent_translation)
                } else {
                    arbitrary()
                },
        )
    }

    /// The signals that the compose pass emits while it visits the tree, in
    /// the order in which it emits them. `focused` is the widget that holds
    /// the input focus.
    pub open spec fn ime_signals(
        self,
        parent_moved: bool,
        parent_translation: WindowVec2,
        focused: Option<WidgetId>,
    ) -> Seq<RenderRootSignal>
        decreases self.height(), 0nat,
    {
        let entry = self.positioned(parent_translation);
        if entry.state.skips_compose(parent_moved) {
            Seq::empty()
        } else {
            let moved = parent_moved || entry.state.translation_changed;
            proof {
                self.lemma_called_back_height(parent_translation);
            }
            entry.state.ime_signal(moved, focused) + Self::forest_ime_signals(
                entry.called_back().children,
                moved,
                entry.state.window_origin.as_vec2(),
                focused,
            )
        }
    }

    /// The signals that the compose pass emits while it visits the trees of
    /// `forest` one after the other.
    pub open spec fn forest_ime_signals(
        forest: Seq<NodeView<W>>,
        parent_moved: bool,
        parent_translation: WindowVec2,
        focused: Option<WidgetId>,
    ) -> Seq<RenderRootSignal>
        decreases Self::forest_height(forest), forest.len(),
    {
        if forest.len() == 0 {
            Seq::empty()
        } else {
            Self::forest_ime_signals(
                forest.drop_last(),
                parent_moved,
                parent_translation,
                focused,
            ) + forest.last().ime_signals(parent_moved, parent_translation, focused)
        }
    }
}

impl<W: Widget> NodeView<W> {
    /// Setting translations on the roots of a forest does not change the
    /// identities in it.
    pub proof fn lemma_forest_repositioned_ids(forest: Seq<NodeView<W>>, ctx: ComposeCtxView)
        ensures
            Self::forest_ids(Self::forest_repositioned(forest, ctx)) == Self::forest_ids(forest),
        decreases forest.len(),
    {
        let moved = Self::forest_repositioned(forest, ctx);
        if forest.len() > 0 {
            Self::lemma_forest_repositioned_ids(forest.drop_last(), ctx);
            assert(moved.drop_last() =~= Self::forest_repositioned(forest.drop_last(), ctx));
            assert(moved.last().ids() == forest.last().ids());
        }
    }

    /// The compose pass keeps the shape of the tree: its height and the
    /// identities in it, each where it was.
    pub proof fn lemma_composed_shape(self, parent_moved: bool, parent_translation: WindowVec2)
        ensures
            self.composed(parent_moved, parent_translation).height() == self.height(),
            self.composed(parent_moved, parent_translation).ids() == self.ids(),
            self.wf() ==> self.composed(parent_moved, parent_translation).wf(),
        decreases self.height(), 0nat,
    {
        let entry = self.positioned(parent_translation);
        if !entry.state.skips_compose(parent_moved) {
            let called = entry.called_back();
            self.lemma_called_back_height(parent_translation);
            if entry.state.request_compose {
                let (widget, ctx) = entry.widget.composed(entry.compose_ctx());
                Self::lemma_forest_repositioned_ids(self.children, ctx);
            }
            let moved = parent_moved || entry.state.translation_changed;
            let translation = entry.state.window_origin.as_vec2();
            Self::lemma_forest_composed_shape(called.children, moved, translation);
            let children = Self::forest_composed(called.children, moved, translation);
            called.state.composed().lemma_merged_with_all(Self::forest_states(children));
        }
    }

    /// The compose pass keeps the shape of each tree of a forest.
    pub proof fn lemma_forest_composed_shape(
        forest: Seq<NodeView<W>>,
        parent_moved: bool,
        parent_translation: WindowVec2,
    )
        ensures
            Self::forest_composed(forest, parent_moved, parent_translation).len() == forest.len(),
            Self::forest_height(Self::forest_composed(forest, parent_moved, parent_translation))
                == Self::forest_height(forest),
            Self::forest_ids(Self::forest_composed(forest, parent_moved, parent_translation))
                == Self::forest_ids(forest),
        decreases Self::forest_height(forest), forest.len(),
    {
        let composed = Self::forest_composed(forest, parent_moved, parent_translation);
        if forest.len() > 0 {
            Self::lemma_forest_composed_shape(
                forest.drop_last(),
                parent_moved,
                parent_translation,
            );
            forest.last().lemma_composed_shape(parent_moved, parent_translation);
            assert(composed.drop_last() =~= Self::forest_composed(
                forest.drop_last(),
                parent_moved,
                parent_translation,
            ));
        }
    }
}

impl WidgetState {
    /// What the compose pass tells the input method about a widget whose
    /// position has been resolved: where its anchor area is now, if the
    /// widget has moved, takes text input and holds the focus; nothing
    /// otherwise.
    pub open spec fn ime_signal(self, moved: bool, focused: Option<WidgetId>) -> Seq<
        RenderRootSignal,
    > {
        if moved && self.accepts_text_input && focused == Some(self.id) {
            seq![RenderRootSignal::ImeMoved(self.ime_area())]
        } else {
            Seq::empty()
        }
    }
}

/// The translations of the roots of `children`, first to last.
fn child_translations<W: Widget>(children: &Vec<WidgetNode<W>>) -> (translations: Vec<Vec2>)
    ensures
        translations@ == NodeView::forest_translations(WidgetNode::forest_view(children@)),
{
    let n = children.len();
    let mut translations: Vec<Vec2> = Vec::new();
    let mut i: usize = 0;
    while i < n
        invariant
            i <= n,
            n == children.len(),
            translations@ == NodeView::forest_translations(
                WidgetNode::forest_view(children@),
            ).take(i as int),
        decreases n - i,
    {
        translations.push(children[i].state.translation);
        i += 1;
    }
    translations
}

/// Sets on the root of each of `children` the translation that `ctx` holds
/// for its position.
fn reposition_children<W: Widget>(children: &mut Vec<WidgetNode<W>>, ctx: &ComposeCtx)
    ensures
        WidgetNode::forest_view(final(children)@) == NodeView::forest_repositioned(
            WidgetNode::forest_view(old(children)@),
            ctx@,
        ),
{
    let ghost before = WidgetNode::forest_view(children@);
    let n = children.len();
    let mut i: usize = 0;
    while i < n
        invariant
            i <= n,
            n == children.len(),
            before == WidgetNode::forest_view(old(children)@),
            forall|j: int|
                0 <= j < i ==> (#[trigger] children@[j])@ == before[j].repositioned(
                    ctx@.child_translation(j),
                ),
            forall|j: int| i <= j < n ==> (#[trigger] children@[j])@ == before[j],
        decreases n - i,
    {
        match ctx.child_translation(i) {
            Some(translation) => {
                children[i].state.set_translation(translation);
            },
            None => {},
        }
        i += 1;
    }
}

/// Resolves the position in the window of the widget with the record
/// `state`, under a parent whose offset in the window is
/// `parent_translation`. Returns the widget's own offset.
fn resolve_position(state: &mut WidgetState, parent_translation: WindowVec2) -> (translation:
    WindowVec2)
    requires
        parent_translation.within(MAX_TREE_DEPTH - 1),
    ensures
        *final(state) == old(state).positioned(parent_translation),
        translation == final(state).window_origin.as_vec2(),
        translation.x == parent_translation.x + old(state).translation.x + old(state).origin.x,
        translation.y == parent_translation.y + old(state).translation.y + old(state).origin.y,
{
    let translation = parent_translation.translate(state.translation).translate(
        state.origin.to_vec2(),
    );
    state.window_origin = translation.to_point();
    translation
}

/// Runs the compose callback of the root of `node`, if the root asked for
/// it, and takes over what the callback decided.
fn run_compose_callback<W: Widget>(node: &mut WidgetNode<W>)
    ensures
        final(node)@ == old(node)@.called_back(),
{
    if node.state.request_compose {
        let mut ctx = ComposeCtx::new(node.state, child_translations(&node.children));
        node.widget.compose(&mut ctx);
        let edited = ctx.widget_state();
        node.state.absorb(&edited);
        reposition_children(&mut node.children, &ctx);
    }
}

/// Tells the input method where the anchor area of the widget with the
/// record `state` is, if the widget has moved, takes text input and holds
/// the focus.
fn signal_ime_move(global_state: &mut RenderRootState, state: &WidgetState, moved: bool)
    requires
        state.window_origin.as_vec2().within(MAX_TREE_DEPTH as int),
    ensures
        final(global_state)@ == old(global_state)@.emitting(
            state.ime_signal(moved, old(global_state)@.focused_widget),
        ),
{
    if moved && state.accepts_text_input && global_state.is_focused(state.id) {
        let ime_area = state.get_ime_area();
        global_state.emit_signal(RenderRootSignal::new_ime_moved_signal(ime_area));
    }
}

/// Visits the subtree of `node`: resolves the position of its root under
/// `parent_translation`, and unless the subtree can be skipped, runs the
/// root's compose callback if the root asked for it, emits the signal for
/// the input method if the root is the focused text widget and has moved,
/// marks the root for accessibility and paint, clears what asked for the
/// pass, and visits the children.
pub fn compose_widget<W: Widget>(
    global_state: &mut RenderRootState,
    node: &mut WidgetNode<W>,
    parent_moved: bool,
    parent_translation: WindowVec2,
)
    requires
        old(node)@.height() <= MAX_TREE_DEPTH,
        parent_translation.within(MAX_TREE_DEPTH - old(node)@.height()),
    ensures
        final(node)@ == old(node)@.composed(parent_moved, parent_translation),
        final(global_state)@ == old(global_state)@.emitting(
            old(node)@.ime_signals(
                parent_moved,
                parent_translation,
                old(global_state)@.focused_widget,
            ),
        ),
    decreases old(node)@.height(), 0nat,
{
    let ghost before = node@;
    let ghost global_before = global_state@;

    let moved = parent_moved || node.state.translation_changed;
    let translation = resolve_position(&mut node.state, parent_translation);

    if !parent_moved && !node.state.translation_changed && !node.state.needs_compose {
        return ;
    }
    run_compose_callback(node);
    signal_ime_move(global_state, &node.state, moved);
    node.state.finish_compose();

    proof {
        before.lemma_called_back_height(parent_translation);
    }
    recurse_on_children(global_state, &mut node.state, &mut node.children, moved, translation);
    proof {
        let entry = before.positioned(parent_translation);
        let own = entry.state.ime_signal(moved, global_before.focused_widget);
        let below = NodeView::forest_ime_signals(
            entry.called_back().children,
            moved,
            translation,
            global_before.focused_widget,
        );
        assert((global_before.signal_queue + own) + below =~= global_before.signal_queue + (own
            + below));
    }
}

/// Visits the subtrees of `children` one after the other, first to last,
/// each exactly once, and folds the record of each child into
/// `parent_state` as soon as its subtree has been visited.
pub fn recurse_on_children<W: Widget>(
    global_state: &mut RenderRootState,
    parent_state: &mut WidgetState,
    children: &mut Vec<WidgetNode<W>>,
    moved: bool,
    translation: WindowVec2,
)
    requires
        NodeView::forest_height(WidgetNode::forest_view(old(children)@)) <= MAX_TREE_DEPTH,
        translation.within(
            MAX_TREE_DEPTH - NodeView::forest_height(WidgetNode::forest_view(old(children)@)),
        ),
    ensures
        WidgetNode::forest_view(final(children)@) == NodeView::forest_composed(
            WidgetNode::forest_view(old(children)@),
            moved,
            translation,
        ),
        *final(parent_state) == old(parent_state).merged_with_all(
            NodeView::forest_states(WidgetNode::forest_view(final(children)@)),
        ),
        final(global_state)@ == old(global_state)@.emitting(
            NodeView::forest_ime_signals(
                WidgetNode::forest_view(old(children)@),
                moved,
                translation,
                old(global_state)@.focused_widget,
            ),
        ),
    decreases NodeView::forest_height(WidgetNode::forest_view(old(children)@)), 1nat,
{
    let ghost before = WidgetNode::forest_view(children@);
    let ghost parent_before = *parent_state;
    let ghost global_before = global_state@;
    let ghost focused = global_state@.focused_widget;
    let n = children.len();
    let mut i: usize = 0;
    while i < n
        invariant
            i <= n,
            n == children.len(),
            before.len() == n,
            before == WidgetNode::forest_view(old(children)@),
            parent_before == *old(parent_state),
            global_before == old(global_state)@,
            focused == global_before.focused_widget,
            NodeView::forest_height(before) <= MAX_TREE_DEPTH,
            translation.within(MAX_TREE_DEPTH - NodeView::forest_height(before)),
            forall|j: int|
                0 <= j < i ==> (#[trigger] children@[j])@ == before[j].composed(
                    moved,
                    translation,
                ),
            forall|j: int| i <= j < n ==> (#[trigger] children@[j])@ == before[j],
            *parent_state == parent_before.merged_with_all(
                NodeView::forest_states(WidgetNode::forest_view(children@)).take(i as int),
            ),
            global_state@ == global_before.emitting(
                NodeView::forest_ime_signals(before.take(i as int), moved, translation, focused),
            ),
        decreases n - i,
    {
        let ghost states_before = NodeView::forest_states(WidgetNode::forest_view(children@));
        let ghost emitted = NodeView::forest_ime_signals(
            before.take(i as int),
            moved,
            translation,
            focused,
        );
        proof {
            NodeView::lemma_forest_height_bounds(before, i as int);
        }
        compose_widget(global_state, &mut children[i], moved, translation);
        parent_state.merge_up(&children[i].state);
        proof {
            let states = NodeView::forest_states(WidgetNode::forest_view(children@));
            assert(states.take(i + 1).drop_last() =~= states_before.take(i as int));
            let signals = before[i as int].ime_signals(moved, translation, focused);
            assert(before.take(i + 1).drop_last() =~= before.take(i as int));
            assert((global_before.signal_queue + emitted) + signals
                =~= global_before.signal_queue + (emitted + signals));
        }
        i += 1;
    }
    proof {
        let states = NodeView::forest_states(WidgetNode::forest_view(children@));
        assert(states.take(n as int) =~= states);
        assert(before.take(n as int) =~= before);
    }
}

/// Runs the compose pass over the whole tree of `root`. A root that asked
/// for the pass may end up somewhere else, so what lies under the pointer
/// has to be found again.
pub fn run_compose_pass<W: Widget>(root: &mut RenderRoot<W>)
    requires
        old(root).wf(),
    ensures
        final(root).wf(),
        final(root).root@ == old(root).root@.composed(false, WindowVec2::origin()),
        final(root).global_state@ == (RenderRootStateView {
            needs_pointer_pass: old(root).global_state@.needs_pointer_pass
                || old(root).root@.state.needs_compose,
            ..old(root).global_state@
        }).emitting(
            old(root).root@.ime_signals(
                false,
                WindowVec2::origin(),
                old(root).global_state@.focused_widget,
            ),
        ),
{
    if root.root.state.needs_compose {
        root.global_state.needs_pointer_pass = true;
    }
    proof {
        root.root@.lemma_composed_shape(false, WindowVec2::origin());
    }
    compose_widget(&mut root.global_state, &mut root.root, false, WindowVec2::zero());
}

} // verus!
