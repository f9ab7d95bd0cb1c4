//! The compose pass of a widget tree: it resolves every widget's position in
//! the window from the translations and origins of its ancestors, skips the
//! subtrees that nothing has touched, and tells the input method when the
//! focused text widget has moved.
//!
//! A tree is made of `WidgetNode`s, each with a widget, its `WidgetState`
//! and its children. `RenderRoot::new` takes a tree that the passes can
//! walk, and `run_compose_pass` runs the pass over it. What the pass leaves
//! behind is `NodeView::composed` of what it found, and the signals that it
//! emits are `NodeView::ime_signals`; `passes::compose_proofs` holds what
//! follows from the two for every tree.
//!
//! Coordinates are whole numbers of device units. Translations, origins and
//! sizes are 32 bits wide, positions in the window 64 bits, and a tree has
//! at most `MAX_TREE_DEPTH` levels, so that no position leaves its range.

pub mod contexts;
pub mod geometry;
pub mod passes;
pub mod render_root;
pub mod tree_arena;
pub mod widget;
pub mod widget_state;

pub use contexts::{ComposeCtx, ComposeCtxView};
pub use geometry::{Point, Size, Vec2, WindowPoint, WindowRect, WindowVec2, LEVEL_REACH};
pub use passes::compose::{compose_widget, recurse_on_children, run_compose_pass};
pub use passes::compose_proofs::ComposeVisit;
pub use render_root::{RenderRoot, RenderRootSignal, RenderRootState, RenderRootStateView};
pub use tree_arena::{all_distinct, NodeView, WidgetNode, MAX_TREE_DEPTH};
pub use widget::Widget;
pub use widget_state::{WidgetId, WidgetState};
