//! What a widget's compose callback is given to work with.

use vstd::prelude::*;
use crate::geometry::{Size, Vec2, WindowPoint};
use crate::widget_state::{WidgetId, WidgetState};

verus! {

/// The context of one compose callback. It holds a copy of the widget's
/// record and the translation of each child, by the child's position among
/// its siblings. The callback reads and edits the copy; the pass then takes
/// over what a callback may decide.
pub struct ComposeCtx {
    widget_state: WidgetState,
    child_translations: Vec<Vec2>,
}

/// `ComposeCtx` as a plain value.
pub struct ComposeCtxView {
    pub widget_state: WidgetState,
    pub child_translations: Seq<Vec2>,
}

impl ComposeCtxView {
    /// The translation that the context holds for the child at `index`, if
    /// it holds one.
    pub open spec fn child_translation(self, index: int) -> Option<Vec2> {
        if 0 <= index < self.child_translations.len() {
            Some(self.child_translations[index])
        } else {
            None
        }
    }
}

impl View for ComposeCtx {
    type V = ComposeCtxView;

    closed spec fn view(&self) -> ComposeCtxView {
        ComposeCtxView {
            widget_state: self.widget_state,
            child_translations: self.child_translations@,
        }
    }
}

impl ComposeCtx {
    pub fn new(widget_state: WidgetState, child_translations: Vec<Vec2>) -> (ctx: ComposeCtx)
        ensures
            ctx@ == (ComposeCtxView { widget_state, child_translations: child_translations@ }),
    {
        ComposeCtx { widget_state, child_translations }
    }

    /// The widget's record as the callback has left it.
    pub fn widget_state(&self) -> (state: WidgetState)
        ensures
            state == self@.widget_state,
    {
        self.widget_state
    }

    pub fn widget_id(&self) -> (id: WidgetId)
        ensures
            id == self@.widget_state.id,
    {
        self.widget_state.id
    }

    pub fn size(&self) -> (size: Size)
        ensures
            size == self@.widget_state.size,
    {
        self.widget_state.size
    }

    /// The widget's position in the window, as this pass has resolved it.
    pub fn window_origin(&self) -> (origin: WindowPoint)
        ensures
            origin == self@.widget_state.window_origin,
    {
        self.widget_state.window_origin
    }

    pub fn translation(&self) -> (translation: Vec2)
        ensures
            translation == self@.widget_state.translation,
    {
        self.widget_state.translation
    }

    pub fn set_translation(&mut self, translation: Vec2)
        ensures
            final(self)@ == (ComposeCtxView {
                widget_state: old(self)@.widget_state.with_translation(translation),
                ..old(self)@
            }),
    {
        self.widget_state.set_translation(translation);
    }

    pub fn request_layout(&mut self)
        ensures
            final(self)@ == (ComposeCtxView {
                widget_state: old(self)@.widget_state.with_layout_request(),
                ..old(self)@
            }),
    {
        self.widget_state.request_layout();
    }

    pub fn request_compose(&mut self)
        ensures
            final(self)@ == (ComposeCtxView {
                widget_state: old(self)@.widget_state.with_compose_request(),
                ..old(self)@
            }),
    {
        self.widget_state.request_compose();
    }

    pub fn request_accessibility_update(&mut self)
        ensures
            final(self)@ == (ComposeCtxView {
                widget_state: old(self)@.widget_state.with_accessibility_request(),
                ..old(self)@
            }),
    {
        self.widget_state.request_accessibility_update();
    }

    pub fn child_count(&self) -> (count: usize)
        ensures
            count == self@.child_translations.len(),
    {
        self.child_translations.len()
    }

    /// The translation of the child at `index`, or `None` where the widget
    /// has no such child.
    pub fn child_translation(&self, index: usize) -> (translation: Option<Vec2>)
        ensures
            translation == self@.child_translation(index as int),
    {
        if index < self.child_translations.len() {
            Some(self.child_translations[index])
        } else {
            None
        }
    }

    /// Sets the translation of the child at `index`. Returns whether the
    /// widget has such a child; where it has none, nothing changes.
    pub fn set_child_translation(&mut self, index: usize, translation: Vec2) -> (found: bool)
        ensures
            found == (index < old(self)@.child_translations.len()),
            found ==> final(self)@ == (ComposeCtxView {
                child_translations: old(self)@.child_translations.update(index as int, translation),
                ..old(self)@
            }),
            !found ==> final(self)@ == old(self)@,
    {
        if index < self.child_translations.len() {
            self.child_translations[index] = translation;
            true
        } else {
            false
        }
    }
}

} // verus!
