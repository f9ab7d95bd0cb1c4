//! The tree that holds, for each widget, its behaviour, its record and its
//! children.

use std::collections::HashSet;
use vstd::prelude::*;
use crate::geometry::Vec2;
use crate::widget_state::{WidgetId, WidgetState};

verus! {

/// The deepest tree that the passes walk: a root counts as one level.
pub const MAX_TREE_DEPTH: usize = 1024;

/// One widget in the tree, with the subtrees of its children in the order
/// in which the passes visit them.
pub struct WidgetNode<W> {
    pub widget: W,
    pub state: WidgetState,
    pub children: Vec<WidgetNode<W>>,
}

/// `WidgetNode` as a plain value.
pub struct NodeView<W> {
    pub widget: W,
    pub state: WidgetState,
    pub children: Seq<NodeView<W>>,
}

impl<W> WidgetNode<W> {
    /// The tree as a plain value: the widget and the record of its root,
    /// and the views of the subtrees of its children, first to last.
    pub open spec fn view(self) -> NodeView<W>
        decreases self,
    {
        NodeView {
            widget: self.widget,
            state: self.state,
            children: Self::forest_view(self.children@),
        }
    }

    /// The views of `forest`, tree by tree.
    pub open spec fn forest_view(forest: Seq<WidgetNode<W>>) -> Seq<NodeView<W>>
        decreases forest,
    {
        Seq::new(
            forest.len(),
            |i: int|
                if 0 <= i < forest.len() {
                    forest[i].view()
                } else {
                    arbitrary()
                },
        )
    }
}

impl<W> WidgetNode<W> {
    /// A widget without children.
    pub fn new(widget: W, state: WidgetState) -> (node: WidgetNode<W>)
        ensures
            node@ == (NodeView { widget, state, children: Seq::empty() }),
    {
        let node = WidgetNode { widget, state, children: Vec::new() };
        assert(node@.children =~= Seq::empty());
        node
    }

    /// A widget above the trees of `children`, which the passes visit first
    /// to last.
    pub fn with_children(widget: W, state: WidgetState, children: Vec<WidgetNode<W>>) -> (node:
        WidgetNode<W>)
        ensures
            node@ == (NodeView { widget, state, children: Self::forest_view(children@) }),
    {
        WidgetNode { widget, state, children }
    }

    /// Whether the tree has at most `levels` levels.
    pub fn fits_depth(&self, levels: usize) -> (fits: bool)
        ensures
            fits == (self@.height() <= levels),
        decreases levels,
    {
        if levels == 0 {
            return false;
        }
        let ghost forest = Self::forest_view(self.children@);
        let n = self.children.len();
        let mut i: usize = 0;
        while i < n
            invariant
                i <= n,
                n == self.children.len(),
                levels > 0,
                forest == Self::forest_view(self.children@),
                forall|j: int| 0 <= j < i ==> (#[trigger] forest[j]).height() <= levels - 1,
            decreases n - i,
        {
            if !self.children[i].fits_depth(levels - 1) {
                proof {
                    NodeView::lemma_forest_height_bounds(forest, i as int);
                }
                return false;
            }
            i += 1;
        }
        proof {
            NodeView::lemma_forest_height_least(forest, (levels - 1) as nat);
        }
        true
    }

    /// Appends the identities of the widgets in the tree to `ids`, a parent
    /// before its children and the children first to last.
    pub fn collect_ids(&self, ids: &mut Vec<WidgetId>)
        ensures
            final(ids)@ == old(ids)@ + self@.ids(),
        decreases self@.height(),
    {
        let ghost forest = Self::forest_view(self.children@);
        let ghost before = ids@;
        ids.push(self.state.id);
        let n = self.children.len();
        let mut i: usize = 0;
        while i < n
            invariant
                i <= n,
                n == self.children.len(),
                forest == Self::forest_view(self.children@),
                before == old(ids)@,
                ids@ == before + (seq![self.state.id] + NodeView::forest_ids(
                    forest.take(i as int),
                )),
            decreases n - i,
        {
            proof {
                NodeView::lemma_forest_height_bounds(forest, i as int);
            }
            self.children[i].collect_ids(ids);
            proof {
                assert(forest.take(i + 1).drop_last() =~= forest.take(i as int));
            }
            i += 1;
        }
        assert(forest.take(n as int) =~= forest);
    }

    /// The subtree of the first widget, a parent before its children and
    /// the children first to last, that has the identity `id`.
    pub fn get_node(&self, id: WidgetId) -> (found: Option<&WidgetNode<W>>)
        ensures
            found is Some == self@.holds(id),
            found matches Some(node) ==> node.state.id == id,
            match found {
                Some(node) => self@.find(id) == Some(node@),
                None => self@.find(id) is None,
            },
        decreases self@.height(),
    {
        if self.state.id == id {
            return Some(self);
        }
        let ghost forest = Self::forest_view(self.children@);
        let n = self.children.len();
        let mut i: usize = 0;
        while i < n
            invariant
                i <= n,
                n == self.children.len(),
                self.state.id != id,
                forest == Self::forest_view(self.children@),
                forall|j: int| 0 <= j < i ==> !(#[trigger] forest[j]).holds(id),
            decreases n - i,
        {
            proof {
                NodeView::lemma_forest_height_bounds(forest, i as int);
            }
            let found = self.children[i].get_node(id);
            if found.is_some() {
                proof {
                    NodeView::lemma_forest_holder(forest, id);
                }
                return found;
            }
            i += 1;
        }
        proof {
            NodeView::lemma_forest_holder(forest, id);
        }
        None
    }

    /// Replaces the record of the first widget with the identity `id` by
    /// `state`, which is given that identity, and folds the new record into
    /// the record of each ancestor. Returns whether the tree has such a
    /// widget; where it has none, nothing changes.
    pub fn update_state(&mut self, id: WidgetId, state: WidgetState) -> (found: bool)
        ensures
            found == old(self)@.holds(id),
            final(self)@ == old(self)@.updated(id, state),
        decreases old(self)@.height(),
    {
        if self.state.id == id {
            let mut record = state;
            record.id = id;
            self.state = record;
            return true;
        }
        let ghost forest = Self::forest_view(self.children@);
        let n = self.children.len();
        let mut i: usize = 0;
        while i < n
            invariant
                i <= n,
                n == self.children.len(),
                self.widget == old(self).widget,
                self.state == old(self).state,
                self.state.id != id,
                forest == Self::forest_view(old(self).children@),
                forest == Self::forest_view(self.children@),
                forall|j: int| 0 <= j < i ==> !(#[trigger] forest[j]).holds(id),
            decreases n - i,
        {
            proof {
                NodeView::lemma_forest_height_bounds(forest, i as int);
                NodeView::lemma_forest_holder(forest, id);
            }
            if self.children[i].update_state(id, state) {
                self.state.merge_up(&self.children[i].state);
                assert(Self::forest_view(self.children@) =~= forest.update(
                    i as int,
                    forest[i as int].updated(id, state),
                ));
                return true;
            }
            i += 1;
        }
        proof {
            NodeView::lemma_forest_holder(forest, id);
        }
        false
    }
}

/// Whether nothing occurs twice in `ids`.
pub fn all_distinct(ids: &Vec<WidgetId>) -> (distinct: bool)
    ensures
        distinct == ids@.no_duplicates(),
{
    broadcast use vstd::std_specs::hash::group_hash_axioms;

    let mut seen: HashSet<u64> = HashSet::new();
    let n = ids.len();
    let mut i: usize = 0;
    while i < n
        invariant
            i <= n,
            n == ids.len(),
            forall|raw: u64|
                seen@.contains(raw) <==> exists|j: int| 0 <= j < i && (#[trigger] ids@[j]).0 == raw,
            forall|a: int, b: int| 0 <= a < b < i ==> ids@[a] != ids@[b],
        decreases n - i,
    {
        let fresh = seen.insert(ids[i].0);
        if !fresh {
            return false;
        }
        i += 1;
    }
    true
}

impl<W> NodeView<W> {
    /// The number of levels of the tree.
    pub open spec fn height(self) -> nat
        decreases self,
    {
        1 + Self::forest_height(self.children)
    }

    /// The number of levels of the highest tree of `forest`.
    pub open spec fn forest_height(forest: Seq<NodeView<W>>) -> nat
        decreases forest,
    {
        if forest.len() == 0 {
            0
        } else {
            let last = forest.last().height();
            let rest = Self::forest_height(forest.drop_last());
            if last > rest {
                last
            } else {
                rest
            }
        }
    }

    /// No tree of `forest` is higher than the forest.
    pub proof fn lemma_forest_height_bounds(forest: Seq<NodeView<W>>, i: int)
        requires
            0 <= i < forest.len(),
        ensures
            forest[i].height() <= Self::forest_height(forest),
        decreases forest.len(),
    {
        if i < forest.len() - 1 {
            Self::lemma_forest_height_bounds(forest.drop_last(), i);
        }
    }

    /// Whether `path` leads to a widget of the tree. A path names, from the
    /// root down, the position of each child to go to; the empty path leads
    /// to the root.
    pub open spec fn has_path(self, path: Seq<int>) -> bool
        decreases path.len(),
    {
        path.len() == 0 || (0 <= path[0] < self.children.len() && self.children[path[0]].has_path(
            path.drop_first(),
        ))
    }

    /// The subtree of the widget that `path` leads to.
    pub open spec fn subtree(self, path: Seq<int>) -> NodeView<W>
        decreases path.len(),
    {
        if path.len() == 0 {
            self
        } else {
            self.children[path[0]].subtree(path.drop_first())
        }
    }

    /// The tree with the translation of its root set to `translation`, or
    /// the tree as it is where there is none to set.
    pub open spec fn repositioned(self, translation: Option<Vec2>) -> NodeView<W> {
        match translation {
            Some(t) => NodeView { state: self.state.with_translation(t), ..self },
            None => self,
        }
    }

    /// The identities of the widgets in the tree, a parent before its
    /// children and the children first to last.
    pub open spec fn ids(self) -> Seq<WidgetId>
        decreases self,
    {
        seq![self.state.id] + Self::forest_ids(self.children)
    }

    /// Whether the passes can walk the tree: it is no deeper than
    /// `MAX_TREE_DEPTH`, and no two of its widgets share an identity.
    pub open spec fn wf(self) -> bool {
        &&& self.height() <= MAX_TREE_DEPTH
        &&& self.ids().no_duplicates()
    }

    /// The identities of the widgets in `forest`, tree by tree.
    pub open spec fn forest_ids(forest: Seq<NodeView<W>>) -> Seq<WidgetId>
        decreases forest,
    {
        if forest.len() == 0 {
            Seq::empty()
        } else {
            Self::forest_ids(forest.drop_last()) + forest.last().ids()
        }
    }

    /// No forest is higher than its highest tree.
    pub proof fn lemma_forest_height_least(forest: Seq<NodeView<W>>, bound: nat)
        requires
            forall|i: int| 0 <= i < forest.len() ==> (#[trigger] forest[i]).height() <= bound,
        ensures
            Self::forest_height(forest) <= bound,
        decreases forest.len(),
    {
        if forest.len() > 0 {
            Self::lemma_forest_height_least(forest.drop_last(), bound);
        }
    }

    /// Whether the tree has a widget with the identity `id`.
    pub open spec fn holds(self, id: WidgetId) -> bool
        decreases self,
    {
        self.state.id == id || Self::forest_holder(self.children, id) is Some
    }

    /// The position of the first tree of `forest` that has a widget with
    /// the identity `id`.
    pub open spec fn forest_holder(forest: Seq<NodeView<W>>, id: WidgetId) -> Option<int>
        decreases forest,
    {
        if forest.len() == 0 {
            None
        } else if forest.first().holds(id) {
            Some(0)
        } else {
            match Self::forest_holder(forest.drop_first(), id) {
                Some(k) => Some(k + 1),
                None => None,
            }
        }
    }

    /// The first holder is a tree of the forest, it holds the identity, and
    /// no tree before it does; there is none exactly where no tree holds
    /// the identity.
    pub proof fn lemma_forest_holder(forest: Seq<NodeView<W>>, id: WidgetId)
        ensures
            match Self::forest_holder(forest, id) {
                Some(k) => {
                    &&& 0 <= k < forest.len()
                    &&& forest[k].holds(id)
                    &&& forall|j: int| 0 <= j < k ==> !(#[trigger] forest[j]).holds(id)
                },
                None => forall|j: int| 0 <= j < forest.len() ==> !(#[trigger] forest[j]).holds(id),
            },
        decreases forest.len(),
    {
        if forest.len() > 0 && !forest.first().holds(id) {
            let rest = forest.drop_first();
            Self::lemma_forest_holder(rest, id);
            assert(forall|j: int| 0 < j < forest.len() ==> forest[j] == rest[j - 1]);
        }
    }

    /// The subtree of the first widget, a parent before its children and
    /// the children first to last, that has the identity `id`.
    pub open spec fn find(self, id: WidgetId) -> Option<NodeView<W>>
        decreases self,
    {
        if self.state.id == id {
            Some(self)
        } else {
            match Self::forest_holder(self.children, id) {
                Some(k) => {
                    proof {
                        Self::lemma_forest_holder(self.children, id);
                    }
                    self.children[k].find(id)
                },
                None => None,
            }
        }
    }

    /// The tree after the record of the first widget with the identity `id`
    /// has been replaced by `state`, which is given that identity, and the
    /// new record has been folded into the record of each ancestor, from
    /// the widget's parent up to the root. A tree without such a widget is
    /// left as it is.
    pub open spec fn updated(self, id: WidgetId, state: WidgetState) -> NodeView<W>
        decreases self,
    {
        if self.state.id == id {
            NodeView { state: WidgetState { id, ..state }, ..self }
        } else {
            match Self::forest_holder(self.children, id) {
                Some(k) => {
                    proof {
                        Self::lemma_forest_holder(self.children, id);
                    }
                    let child = self.children[k].updated(id, state);
                    NodeView {
                        state: self.state.merged_with(child.state),
                        children: self.children.update(k, child),
                        ..self
                    }
                },
                None => self,
            }
        }
    }

    /// The identities of a forest in which one tree has been replaced by a
    /// tree with the same identities are as they were.
    pub proof fn lemma_forest_ids_update(forest: Seq<NodeView<W>>, k: int, tree: NodeView<W>)
        requires
            0 <= k < forest.len(),
            tree.ids() == forest[k].ids(),
        ensures
            Self::forest_ids(forest.update(k, tree)) == Self::forest_ids(forest),
        decreases forest.len(),
    {
        let changed = forest.update(k, tree);
        if k < forest.len() - 1 {
            Self::lemma_forest_ids_update(forest.drop_last(), k, tree);
            assert(changed.drop_last() =~= forest.drop_last().update(k, tree));
        } else {
            assert(changed.drop_last() =~= forest.drop_last());
        }
    }

    /// The height of a forest in which one tree has been replaced by a
    /// tree of the same height is as it was.
    pub proof fn lemma_forest_height_update(forest: Seq<NodeView<W>>, k: int, tree: NodeView<W>)
        requires
            0 <= k < forest.len(),
            tree.height() == forest[k].height(),
        ensures
            Self::forest_height(forest.update(k, tree)) == Self::forest_height(forest),
        decreases forest.len(),
    {
        let changed = forest.update(k, tree);
        if k < forest.len() - 1 {
            Self::lemma_forest_height_update(forest.drop_last(), k, tree);
            assert(changed.drop_last() =~= forest.drop_last().update(k, tree));
        } else {
            assert(changed.drop_last() =~= forest.drop_last());
        }
    }

    /// Replacing a record keeps the shape of the tree: its height and the
    /// identities in it, each where it was.
    pub proof fn lemma_updated_shape(self, id: WidgetId, state: WidgetState)
        ensures
            self.updated(id, state).height() == self.height(),
            self.updated(id, state).ids() == self.ids(),
            self.wf() ==> self.updated(id, state).wf(),
        decreases self,
    {
        if self.state.id != id {
            Self::lemma_forest_holder(self.children, id);
            match Self::forest_holder(self.children, id) {
                Some(k) => {
                    let child = self.children[k].updated(id, state);
                    self.children[k].lemma_updated_shape(id, state);
                    Self::lemma_forest_ids_update(self.children, k, child);
                    Self::lemma_forest_height_update(self.children, k, child);
                },
                None => {},
            }
        }
    }

    /// A forest has a tree that holds an identity exactly where the
    /// identity is listed among those of the forest.
    pub proof fn lemma_forest_holds_listed(forest: Seq<NodeView<W>>, id: WidgetId)
        ensures
            Self::forest_holder(forest, id) is Some == Self::forest_ids(forest).contains(id),
        decreases forest, 1nat,
    {
        Self::lemma_forest_holder(forest, id);
        if forest.len() > 0 {
            let rest = forest.drop_last();
            let last = forest.last();
            let before = Self::forest_ids(rest);
            let listed = before + last.ids();
            Self::lemma_forest_holds_listed(rest, id);
            Self::lemma_forest_holder(rest, id);
            last.lemma_holds_listed(id);
            if Self::forest_holder(forest, id) is Some {
                let k = Self::forest_holder(forest, id)->0;
                if k < rest.len() {
                    assert(rest[k].holds(id));
                    let at = choose|at: int| 0 <= at < before.len() && before[at] == id;
                    assert(listed[at] == id);
                } else {
                    let at = choose|at: int| 0 <= at < last.ids().len() && last.ids()[at] == id;
                    assert(listed[before.len() + at] == id);
                }
            }
        }
    }

    /// A tree holds an identity exactly where the identity is listed among
    /// those of the tree.
    pub proof fn lemma_holds_listed(self, id: WidgetId)
        ensures
            self.holds(id) == self.ids().contains(id),
        decreases self, 0nat,
    {
        let below = Self::forest_ids(self.children);
        Self::lemma_forest_holds_listed(self.children, id);
        if self.state.id == id {
            assert(self.ids()[0] == id);
        } else if below.contains(id) {
            let at = choose|at: int| 0 <= at < below.len() && below[at] == id;
            assert(self.ids()[1 + at] == id);
        }
    }

    /// Where no two widgets of a forest share an identity, no two widgets
    /// of one of its trees do.
    pub proof fn lemma_forest_ids_distinct(forest: Seq<NodeView<W>>, k: int)
        requires
            0 <= k < forest.len(),
            Self::forest_ids(forest).no_duplicates(),
        ensures
            forest[k].ids().no_duplicates(),
        decreases forest.len(),
    {
        lemma_no_duplicates_in_parts(Self::forest_ids(forest.drop_last()), forest.last().ids());
        if k < forest.len() - 1 {
            Self::lemma_forest_ids_distinct(forest.drop_last(), k);
        }
    }
}

/// Where nothing occurs twice in `a + b`, nothing occurs twice in `a` or in
/// `b`, and nothing occurs in both.
pub proof fn lemma_no_duplicates_in_parts<T>(a: Seq<T>, b: Seq<T>)
    requires
        (a + b).no_duplicates(),
    ensures
        a.no_duplicates(),
        b.no_duplicates(),
        forall|x: T| !(a.contains(x) && b.contains(x)),
{
    let whole = a + b;
    assert forall|i: int, j: int| 0 <= i < a.len() && 0 <= j < a.len() && i != j implies a[i]
        != a[j] by {
        assert(whole[i] == a[i] && whole[j] == a[j]);
    }
    assert forall|i: int, j: int| 0 <= i < b.len() && 0 <= j < b.len() && i != j implies b[i]
        != b[j] by {
        assert(whole[a.len() + i] == b[i] && whole[a.len() + j] == b[j]);
    }
    assert forall|x: T| !(a.contains(x) && b.contains(x)) by {
        if a.contains(x) && b.contains(x) {
            let i = choose|i: int| 0 <= i < a.len() && a[i] == x;
            let j = choose|j: int| 0 <= j < b.len() && b[j] == x;
            assert(whole[i] == x && whole[a.len() + j] == x);
        }
    }
}

} // verus!
