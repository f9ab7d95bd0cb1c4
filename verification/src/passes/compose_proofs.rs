//! What holds of every compose pass.

use vstd::prelude::*;
use crate::geometry::WindowVec2;
use crate::render_root::RenderRootSignal;
use crate::tree_arena::{lemma_no_duplicates_in_parts, NodeView, MAX_TREE_DEPTH};
use crate::widget::Widget;
use crate::widget_state::{WidgetId, WidgetState};

verus! {

/// One visit of the compose pass: the subtree that it is paid to, as the
/// pass finds it, and what the pass hands down from the parent.
pub struct ComposeVisit<W> {
    pub tree: NodeView<W>,
    pub parent_moved: bool,
    pub parent_translation: WindowVec2,
}

impl<W: Widget> ComposeVisit<W> {
    /// Whether the visit stops at the root of its subtree: nothing above, at
    /// or below the root asked for the pass.
    pub open spec fn skipped(self) -> bool {
        self.tree.state.skips_compose(self.parent_moved)
    }

    /// Whether the root of the subtree has moved: an ancestor has, or its
    /// own translation has changed.
    pub open spec fn moved(self) -> bool {
        self.parent_moved || self.tree.state.translation_changed
    }

    /// Whether the visit tells the input method of a move: it is not
    /// skipped, and the root of its subtree has moved, takes text input and
    /// holds the focus.
    pub open spec fn emits(self, focused: Option<WidgetId>) -> bool {
        &&& !self.skipped()
        &&& self.moved()
        &&& self.tree.state.accepts_text_input
        &&& focused == Some(self.tree.state.id)
    }

    /// The subtree after the visit.
    pub open spec fn composed(self) -> NodeView<W> {
        self.tree.composed(self.parent_moved, self.parent_translation)
    }
}

impl<W: Widget> NodeView<W> {
    /// The visit that the compose pass pays to the widget at `path`, or
    /// `None` where the pass does not get there: `path` leaves the tree, or
    /// the pass skips a subtree on the way. The subtree of the visit is as
    /// the pass finds it, with the translation that the parent's callback
    /// left on its root.
    pub open spec fn compose_visit(
        self,
        parent_moved: bool,
        parent_translation: WindowVec2,
        path: Seq<int>,
    ) -> Option<ComposeVisit<W>>
        decreases path.len(),
    {
        if path.len() == 0 {
            Some(ComposeVisit { tree: self, parent_moved, parent_translation })
        } else {
            let entry = self.positioned(parent_translation);
            if entry.state.skips_compose(parent_moved) || !(0 <= path[0] < self.children.len()) {
                None
            } else {
                entry.called_back().children[path[0]].compose_visit(
                    parent_moved || entry.state.translation_changed,
                    entry.state.window_origin.as_vec2(),
                    path.drop_first(),
                )
            }
        }
    }

    /// A subtree that nothing asked the pass for is left alone. When no
    /// ancestor has moved and the root neither changed its translation nor
    /// waits for the pass, the pass resolves the root's position and does
    /// nothing else: no callback runs, every widget below the root is as it
    /// was, and no signal is emitted. A root whose position was resolved
    /// before keeps it.
    pub proof fn lemma_clean_subtree_left_alone(
        self,
        parent_translation: WindowVec2,
        focused: Option<WidgetId>,
        path: Seq<int>,
    )
        requires
            self.state.skips_compose(false),
            self.has_path(path),
        ensures
            self.composed(false, parent_translation) == self.positioned(parent_translation),
            self.composed(false, parent_translation).subtree(path).widget == self.subtree(
                path,
            ).widget,
            path.len() > 0 ==> self.composed(false, parent_translation).subtree(path)
                == self.subtree(path),
            self.state.window_origin == self.state.window_translation(
                parent_translation,
            ).as_point() ==> self.composed(false, parent_translation) == self,
            self.ime_signals(false, parent_translation, focused) == Seq::<
                RenderRootSignal,
            >::empty(),
    {
    }

    /// What the pass leaves at and below a widget depends only on the visit
    /// that it pays to that widget: the subtree at `path` after the pass
    /// over the whole tree is the subtree of the visit after that visit.
    pub proof fn lemma_composed_subtree(
        self,
        parent_moved: bool,
        parent_translation: WindowVec2,
        path: Seq<int>,
    )
        requires
            self.compose_visit(parent_moved, parent_translation, path) is Some,
        ensures
            self.has_path(path),
            self.composed(parent_moved, parent_translation).has_path(path),
            self.composed(parent_moved, parent_translation).subtree(path) == self.compose_visit(
                parent_moved,
                parent_translation,
                path,
            )->0.composed(),
        decreases path.len(),
    {
        if path.len() > 0 {
            let entry = self.positioned(parent_translation);
            let child = entry.called_back().children[path[0]];
            child.lemma_composed_subtree(
                parent_moved || entry.state.translation_changed,
                entry.state.window_origin.as_vec2(),
                path.drop_first(),
            );
            child.lemma_has_path_of_children(self.children[path[0]], path.drop_first());
        }
    }

    /// Whether a path leads somewhere depends on the children alone.
    pub proof fn lemma_has_path_of_children(self, other: NodeView<W>, path: Seq<int>)
        requires
            self.children == other.children,
        ensures
            self.has_path(path) == other.has_path(path),
    {
    }

    /// After its visit, the root of a subtree neither waits for the compose
    /// pass nor carries a changed translation, and the rest of its record is
    /// as the visit settled it: the position is the one resolved on the way
    /// in, and unless the visit was skipped, the request for the callback is
    /// used up and accessibility and paint are asked for.
    pub proof fn lemma_composed_root(self, parent_moved: bool, parent_translation: WindowVec2)
        ensures
            ({
                let entry = self.positioned(parent_translation);
                let settled = if entry.state.skips_compose(parent_moved) {
                    entry.state
                } else {
                    entry.called_back().state.composed()
                };
                let after = self.composed(parent_moved, parent_translation).state;
                &&& after == (WidgetState { needs_layout: after.needs_layout, ..settled })
                &&& settled.needs_layout ==> after.needs_layout
                &&& !after.needs_compose
                &&& !after.translation_changed
                &&& after.window_origin == entry.state.window_origin
            }),
        decreases self.height(), 0nat,
    {
        let entry = self.positioned(parent_translation);
        if !entry.state.skips_compose(parent_moved) {
            let called = entry.called_back();
            let moved = parent_moved || entry.state.translation_changed;
            let translation = entry.state.window_origin.as_vec2();
            let children = Self::forest_composed(called.children, moved, translation);
            let states = Self::forest_states(children);
            self.lemma_called_back_height(parent_translation);
            assert forall|i: int| 0 <= i < states.len() implies !(#[trigger] states[i])
                .needs_compose by {
                Self::lemma_forest_height_bounds(called.children, i);
                called.children[i].lemma_composed_root(moved, translation);
            }
            called.state.composed().lemma_merged_with_all(states);
        }
    }

    /// Every widget that the pass visits is done with the pass afterwards:
    /// it does not wait for it and its translation does not count as
    /// changed, and unless its visit was skipped, its request for the
    /// callback is used up.
    pub proof fn lemma_visited_flags_cleared(
        self,
        parent_moved: bool,
        parent_translation: WindowVec2,
        path: Seq<int>,
    )
        requires
            self.compose_visit(parent_moved, parent_translation, path) is Some,
        ensures
            ({
                let visit = self.compose_visit(parent_moved, parent_translation, path)->0;
                let after = self.composed(parent_moved, parent_translation).subtree(path).state;
                &&& !after.needs_compose
                &&& !after.translation_changed
                &&& !visit.skipped() ==> !after.request_compose
            }),
    {
        let visit = self.compose_visit(parent_moved, parent_translation, path)->0;
        self.lemma_composed_subtree(parent_moved, parent_translation, path);
        visit.tree.lemma_composed_root(visit.parent_moved, visit.parent_translation);
    }

    /// The position that the pass resolves for a widget that it visits is
    /// the offset of the widget's parent in the window, then the widget's
    /// translation as the visit finds it, then its origin.
    pub proof fn lemma_window_origin_resolved(
        self,
        parent_moved: bool,
        parent_translation: WindowVec2,
        path: Seq<int>,
    )
        requires
            self.compose_visit(parent_moved, parent_translation, path) is Some,
        ensures
            ({
                let visit = self.compose_visit(parent_moved, parent_translation, path)->0;
                self.composed(parent_moved, parent_translation).subtree(path).state.window_origin
                    == visit.tree.state.window_translation(visit.parent_translation).as_point()
            }),
    {
        let visit = self.compose_visit(parent_moved, parent_translation, path)->0;
        self.lemma_composed_subtree(parent_moved, parent_translation, path);
        visit.tree.lemma_composed_root(visit.parent_moved, visit.parent_translation);
    }

    /// The sum of origin and translation over the widgets on `path`, from
    /// the root to the widget that `path` leads to, each translation as the
    /// pass finds it when it visits the widget.
    pub open spec fn visit_offset(
        self,
        parent_moved: bool,
        parent_translation: WindowVec2,
        path: Seq<int>,
    ) -> (int, int)
        decreases path.len(),
    {
        let here = (
            self.state.origin.x + self.state.translation.x,
            self.state.origin.y + self.state.translation.y,
        );
        if path.len() == 0 {
            here
        } else {
            let entry = self.positioned(parent_translation);
            let below = entry.called_back().children[path[0]].visit_offset(
                parent_moved || entry.state.translation_changed,
                entry.state.window_origin.as_vec2(),
                path.drop_first(),
            );
            (here.0 + below.0, here.1 + below.1)
        }
    }

    /// The position in the window of every widget that the pass visits is
    /// the sum of origin and translation over the widget and all its
    /// ancestors, each translation as the pass found it, on top of the
    /// offset that the pass started from.
    pub proof fn lemma_window_origin_visit_sum(
        self,
        parent_moved: bool,
        parent_translation: WindowVec2,
        path: Seq<int>,
    )
        requires
            self.height() <= MAX_TREE_DEPTH,
            parent_translation.within(MAX_TREE_DEPTH - self.height()),
            self.compose_visit(parent_moved, parent_translation, path) is Some,
        ensures
            ({
                let origin = self.composed(parent_moved, parent_translation).subtree(
                    path,
                ).state.window_origin;
                let offset = self.visit_offset(parent_moved, parent_translation, path);
                &&& origin.x == parent_translation.x + offset.0
                &&& origin.y == parent_translation.y + offset.1
            }),
        decreases path.len(),
    {
        let entry = self.positioned(parent_translation);
        self.lemma_composed_root(parent_moved, parent_translation);
        if path.len() > 0 {
            let k = path[0];
            let child = entry.called_back().children[k];
            let moved = parent_moved || entry.state.translation_changed;
            let translation = entry.state.window_origin.as_vec2();
            self.lemma_called_back_height(parent_translation);
            Self::lemma_forest_height_bounds(entry.called_back().children, k);
            child.lemma_window_origin_visit_sum(moved, translation, path.drop_first());
        }
    }

    /// Whether the pass leaves the widget at `path` with the translation
    /// that its visit found on it: the widget's compose callback, if it ran,
    /// did not give the widget another one.
    pub open spec fn keeps_translation(
        self,
        parent_moved: bool,
        parent_translation: WindowVec2,
        path: Seq<int>,
    ) -> bool {
        self.compose_visit(parent_moved, parent_translation, path) matches Some(visit)
            && self.composed(parent_moved, parent_translation).subtree(path).state.translation
            == visit.tree.state.translation
    }

    /// The sum of origin and translation over the widgets on `path`, from
    /// the root to the widget that `path` leads to.
    pub open spec fn path_offset(self, path: Seq<int>) -> (int, int)
        decreases path.len(),
    {
        let here = (
            self.state.origin.x + self.state.translation.x,
            self.state.origin.y + self.state.translation.y,
        );
        if path.len() == 0 {
            here
        } else {
            let below = self.children[path[0]].path_offset(path.drop_first());
            (here.0 + below.0, here.1 + below.1)
        }
    }

    /// After the pass, the position in the window of every widget that the
    /// pass has visited is the sum of origin and translation over the widget
    /// and all its ancestors, on top of the offset that the pass started
    /// from. This holds of the widgets whose own translation, and that of
    /// each ancestor, is as the pass found it: a callback that gives its own
    /// widget another translation does so after the position is resolved.
    pub proof fn lemma_window_origin_path_sum(
        self,
        parent_moved: bool,
        parent_translation: WindowVec2,
        path: Seq<int>,
    )
        requires
            self.height() <= MAX_TREE_DEPTH,
            parent_translation.within(MAX_TREE_DEPTH - self.height()),
            self.compose_visit(parent_moved, parent_translation, path) is Some,
            forall|k: int|
                0 <= k <= path.len() ==> self.keeps_translation(
                    parent_moved,
                    parent_translation,
                    #[trigger] path.take(k),
                ),
        ensures
            ({
                let after = self.composed(parent_moved, parent_translation);
                let origin = after.subtree(path).state.window_origin;
                &&& origin.x == parent_translation.x + after.path_offset(path).0
                &&& origin.y == parent_translation.y + after.path_offset(path).1
            }),
        decreases path.len(),
    {
        let entry = self.positioned(parent_translation);
        self.lemma_composed_root(parent_moved, parent_translation);
        assert(self.keeps_translation(parent_moved, parent_translation, path.take(0)));
        if path.len() > 0 {
            let k = path[0];
            let rest = path.drop_first();
            let child = entry.called_back().children[k];
            let moved = parent_moved || entry.state.translation_changed;
            let translation = entry.state.window_origin.as_vec2();
            self.lemma_called_back_height(parent_translation);
            Self::lemma_forest_height_bounds(entry.called_back().children, k);
            assert forall|j: int| 0 <= j <= rest.len() implies child.keeps_translation(
                moved,
                translation,
                #[trigger] rest.take(j),
            ) by {
                assert(path.take(j + 1).drop_first() =~= rest.take(j));
            }
            child.lemma_window_origin_path_sum(moved, translation, rest);
        }
    }

    /// A second pass right after the first changes nothing and emits no
    /// signal. This holds where the root's compose callback, if it ran in
    /// the first pass, left the root's own translation as it found it: the
    /// second pass resolves the root's position again, from the translation
    /// that the first pass left.
    pub proof fn lemma_second_pass_changes_nothing(self, focused: Option<WidgetId>)
        requires
            self.composed(false, WindowVec2::origin()).state.translation
                == self.state.translation,
        ensures
            ({
                let once = self.composed(false, WindowVec2::origin());
                &&& once.composed(false, WindowVec2::origin()) == once
                &&& once.ime_signals(false, WindowVec2::origin(), focused) == Seq::<
                    RenderRootSignal,
                >::empty()
            }),
    {
        self.lemma_composed_root(false, WindowVec2::origin());
    }

    /// A signal from a forest comes from a widget of the forest: the focus
    /// is held by one of them.
    pub proof fn lemma_forest_ime_signals_from_focus(
        forest: Seq<NodeView<W>>,
        parent_moved: bool,
        parent_translation: WindowVec2,
        focused: Option<WidgetId>,
    )
        requires
            Self::forest_ime_signals(forest, parent_moved, parent_translation, focused).len() > 0,
        ensures
            focused is Some,
            Self::forest_ids(forest).contains(focused->0),
        decreases Self::forest_height(forest), forest.len(),
    {
        let rest = forest.drop_last();
        let last = forest.last();
        if Self::forest_ime_signals(rest, parent_moved, parent_translation, focused).len() > 0 {
            Self::lemma_forest_ime_signals_from_focus(
                rest,
                parent_moved,
                parent_translation,
                focused,
            );
            let ids = Self::forest_ids(rest);
            let at = choose|at: int| 0 <= at < ids.len() && ids[at] == focused->0;
            assert((ids + last.ids())[at] == focused->0);
        } else {
            last.lemma_ime_signals_from_focus(parent_moved, parent_translation, focused);
            let ids = last.ids();
            let at = choose|at: int| 0 <= at < ids.len() && ids[at] == focused->0;
            assert((Self::forest_ids(rest) + ids)[Self::forest_ids(rest).len() + at]
                == focused->0);
        }
    }

    /// A signal from a tree comes from a widget of the tree: the focus is
    /// held by one of them.
    pub proof fn lemma_ime_signals_from_focus(
        self,
        parent_moved: bool,
        parent_translation: WindowVec2,
        focused: Option<WidgetId>,
    )
        requires
            self.ime_signals(parent_moved, parent_translation, focused).len() > 0,
        ensures
            focused is Some,
            self.ids().contains(focused->0),
        decreases self.height(), 0nat,
    {
        let entry = self.positioned(parent_translation);
        let moved = parent_moved || entry.state.translation_changed;
        let called = entry.called_back();
        if entry.state.ime_signal(moved, focused).len() > 0 {
            assert(self.ids()[0] == focused->0);
        } else {
            self.lemma_called_back_height(parent_translation);
            self.lemma_called_back_ids(parent_translation);
            Self::lemma_forest_ime_signals_from_focus(
                called.children,
                moved,
                entry.state.window_origin.as_vec2(),
                focused,
            );
            let ids = Self::forest_ids(self.children);
            let at = choose|at: int| 0 <= at < ids.len() && ids[at] == focused->0;
            assert(self.ids()[1 + at] == focused->0);
        }
    }

    /// Neither resolving the root's position nor its compose callback
    /// changes the identities below the root.
    pub proof fn lemma_called_back_ids(self, parent_translation: WindowVec2)
        ensures
            Self::forest_ids(self.positioned(parent_translation).called_back().children)
                == Self::forest_ids(self.children),
    {
        let entry = self.positioned(parent_translation);
        if entry.state.request_compose {
            let (widget, ctx) = entry.widget.composed(entry.compose_ctx());
            Self::lemma_forest_repositioned_ids(self.children, ctx);
        }
    }

    /// A pass over a forest in which no two widgets share an identity emits
    /// at most one signal.
    pub proof fn lemma_forest_at_most_one_ime_signal(
        forest: Seq<NodeView<W>>,
        parent_moved: bool,
        parent_translation: WindowVec2,
        focused: Option<WidgetId>,
    )
        requires
            Self::forest_ids(forest).no_duplicates(),
        ensures
            Self::forest_ime_signals(forest, parent_moved, parent_translation, focused).len()
                <= 1,
        decreases Self::forest_height(forest), forest.len(),
    {
        if forest.len() > 0 {
            let rest = forest.drop_last();
            let last = forest.last();
            lemma_no_duplicates_in_parts(Self::forest_ids(rest), last.ids());
            Self::lemma_forest_at_most_one_ime_signal(
                rest,
                parent_moved,
                parent_translation,
                focused,
            );
            last.lemma_at_most_one_ime_signal(parent_moved, parent_translation, focused);
            if Self::forest_ime_signals(rest, parent_moved, parent_translation, focused).len() > 0
                && last.ime_signals(parent_moved, parent_translation, focused).len() > 0 {
                Self::lemma_forest_ime_signals_from_focus(
                    rest,
                    parent_moved,
                    parent_translation,
                    focused,
                );
                last.lemma_ime_signals_from_focus(parent_moved, parent_translation, focused);
            }
        }
    }

    /// A pass over a tree in which no two widgets share an identity emits at
    /// most one signal: the input method hears of the focused text widget
    /// once, however the tree is laid out.
    pub proof fn lemma_at_most_one_ime_signal(
        self,
        parent_moved: bool,
        parent_translation: WindowVec2,
        focused: Option<WidgetId>,
    )
        requires
            self.ids().no_duplicates(),
        ensures
            self.ime_signals(parent_moved, parent_translation, focused).len() <= 1,
        decreases self.height(), 0nat,
    {
        let entry = self.positioned(parent_translation);
        if !entry.state.skips_compose(parent_moved) {
            let moved = parent_moved || entry.state.translation_changed;
            let translation = entry.state.window_origin.as_vec2();
            let called = entry.called_back();
            self.lemma_called_back_height(parent_translation);
            self.lemma_called_back_ids(parent_translation);
            lemma_no_duplicates_in_parts(seq![self.state.id], Self::forest_ids(self.children));
            Self::lemma_forest_at_most_one_ime_signal(
                called.children,
                moved,
                translation,
                focused,
            );
            if entry.state.ime_signal(moved, focused).len() > 0 && Self::forest_ime_signals(
                called.children,
                moved,
                translation,
                focused,
            ).len() > 0 {
                Self::lemma_forest_ime_signals_from_focus(
                    called.children,
                    moved,
                    translation,
                    focused,
                );
                assert(seq![self.state.id].contains(self.state.id)) by {
                    assert(seq![self.state.id][0] == self.state.id);
                }
            }
        }
    }

    /// Where a pass over a forest emits at most one signal and the pass
    /// over one of its trees emits one, that is the signal.
    pub proof fn lemma_forest_ime_signals_of_tree(
        forest: Seq<NodeView<W>>,
        parent_moved: bool,
        parent_translation: WindowVec2,
        focused: Option<WidgetId>,
        k: int,
    )
        requires
            0 <= k < forest.len(),
            Self::forest_ime_signals(forest, parent_moved, parent_translation, focused).len()
                <= 1,
            forest[k].ime_signals(parent_moved, parent_translation, focused).len() == 1,
        ensures
            Self::forest_ime_signals(forest, parent_moved, parent_translation, focused)
                == forest[k].ime_signals(parent_moved, parent_translation, focused),
        decreases forest.len(),
    {
        let rest = forest.drop_last();
        let before = Self::forest_ime_signals(rest, parent_moved, parent_translation, focused);
        if k < forest.len() - 1 {
            if before.len() == 0 {
                Self::lemma_forest_ime_signals_empty_in(
                    rest,
                    parent_moved,
                    parent_translation,
                    focused,
                    k,
                );
            }
            Self::lemma_forest_ime_signals_of_tree(
                rest,
                parent_moved,
                parent_translation,
                focused,
                k,
            );
        }
    }

    /// Where a pass over a forest emits no signal, the pass over any of its
    /// trees emits none.
    pub proof fn lemma_forest_ime_signals_empty_in(
        forest: Seq<NodeView<W>>,
        parent_moved: bool,
        parent_translation: WindowVec2,
        focused: Option<WidgetId>,
        k: int,
    )
        requires
            0 <= k < forest.len(),
            Self::forest_ime_signals(forest, parent_moved, parent_translation, focused).len()
                == 0,
        ensures
            forest[k].ime_signals(parent_moved, parent_translation, focused).len() == 0,
        decreases forest.len(),
    {
        if k < forest.len() - 1 {
            Self::lemma_forest_ime_signals_empty_in(
                forest.drop_last(),
                parent_moved,
                parent_translation,
                focused,
                k,
            );
        }
    }

    /// Where the pass over no tree of a forest emits a signal, the pass
    /// over the forest emits none.
    pub proof fn lemma_forest_ime_signals_empty(
        forest: Seq<NodeView<W>>,
        parent_moved: bool,
        parent_translation: WindowVec2,
        focused: Option<WidgetId>,
    )
        requires
            forall|k: int|
                0 <= k < forest.len() ==> (#[trigger] forest[k]).ime_signals(
                    parent_moved,
                    parent_translation,
                    focused,
                ).len() == 0,
        ensures
            Self::forest_ime_signals(forest, parent_moved, parent_translation, focused)
                == Seq::<RenderRootSignal>::empty(),
        decreases forest.len(),
    {
        if forest.len() > 0 {
            Self::lemma_forest_ime_signals_empty(
                forest.drop_last(),
                parent_moved,
                parent_translation,
                focused,
            );
        }
    }

    /// When the pass visits the focused widget, the widget takes text input
    /// and it has moved, whether by itself or with an ancestor, the pass
    /// emits exactly one signal: the widget's anchor area at its new
    /// position. No two widgets of the tree share an identity.
    pub proof fn lemma_ime_signal_emitted(
        self,
        parent_moved: bool,
        parent_translation: WindowVec2,
        focused: Option<WidgetId>,
        path: Seq<int>,
    )
        requires
            self.ids().no_duplicates(),
            self.compose_visit(parent_moved, parent_translation, path) matches Some(visit)
                && visit.emits(focused),
        ensures
            self.ime_signals(parent_moved, parent_translation, focused) == seq![
                RenderRootSignal::ImeMoved(
                    self.composed(parent_moved, parent_translation).subtree(
                        path,
                    ).state.ime_area(),
                ),
            ],
        decreases path.len(),
    {
        let entry = self.positioned(parent_translation);
        let moved = parent_moved || entry.state.translation_changed;
        let translation = entry.state.window_origin.as_vec2();
        let called = entry.called_back();
        let below = Self::forest_ime_signals(called.children, moved, translation, focused);
        self.lemma_at_most_one_ime_signal(parent_moved, parent_translation, focused);
        self.lemma_composed_root(parent_moved, parent_translation);
        if path.len() > 0 {
            let k = path[0];
            let child = called.children[k];
            self.lemma_called_back_ids(parent_translation);
            lemma_no_duplicates_in_parts(seq![self.state.id], Self::forest_ids(self.children));
            Self::lemma_forest_ids_distinct(called.children, k);
            child.lemma_ime_signal_emitted(moved, translation, focused, path.drop_first());
            if below.len() == 0 {
                Self::lemma_forest_ime_signals_empty_in(
                    called.children,
                    moved,
                    translation,
                    focused,
                    k,
                );
            }
            Self::lemma_forest_ime_signals_of_tree(
                called.children,
                moved,
                translation,
                focused,
                k,
            );
        }
    }

    /// Where the focused text widget has not moved, the pass emits no
    /// signal: if no visit of the pass finds a widget that holds the focus,
    /// takes text input and has moved, by itself or with an ancestor, the
    /// input method hears nothing.
    pub proof fn lemma_no_ime_signal_without_move(
        self,
        parent_moved: bool,
        parent_translation: WindowVec2,
        focused: Option<WidgetId>,
    )
        requires
            forall|path: Seq<int>|
                (#[trigger] self.compose_visit(parent_moved, parent_translation, path))
                    matches Some(visit) ==> !visit.emits(focused),
        ensures
            self.ime_signals(parent_moved, parent_translation, focused) == Seq::<
                RenderRootSignal,
            >::empty(),
        decreases self.height(),
    {
        let entry = self.positioned(parent_translation);
        if !entry.state.skips_compose(parent_moved) {
            let moved = parent_moved || entry.state.translation_changed;
            let translation = entry.state.window_origin.as_vec2();
            let called = entry.called_back();
            assert(self.compose_visit(parent_moved, parent_translation, Seq::empty()) is Some);
            self.lemma_called_back_height(parent_translation);
            assert forall|k: int| 0 <= k < called.children.len() implies (#[trigger] called
                .children[k]).ime_signals(moved, translation, focused).len() == 0 by {
                let child = called.children[k];
                Self::lemma_forest_height_bounds(called.children, k);
                assert forall|rest: Seq<int>|
                    (#[trigger] child.compose_visit(moved, translation, rest)) is Some
                    implies !child.compose_visit(moved, translation, rest)->0.emits(focused) by {
                    let path = seq![k] + rest;
                    assert(path.drop_first() =~= rest);
                    assert(self.compose_visit(parent_moved, parent_translation, path)
                        == child.compose_visit(moved, translation, rest));
                }
                child.lemma_no_ime_signal_without_move(moved, translation, focused);
            }
            Self::lemma_forest_ime_signals_empty(called.children, moved, translation, focused);
        }
    }
}

} // verus!
