//! The record that the tree keeps for each widget.

use vstd::prelude::*;
use crate::geometry::{Point, Size, Vec2, WindowPoint, WindowRect, WindowVec2};

verus! {

/// The identity of a widget. It is unique within a tree and stays with the
/// widget for as long as the widget is mounted.
#[derive(Clone, Copy, Debug, PartialEq, Eq, Hash, Structural)]
pub struct WidgetId(pub u64);

impl WidgetId {
    pub fn new(raw: u64) -> (id: WidgetId)
        ensures
            id == WidgetId(raw),
    {
        WidgetId(raw)
    }

    pub fn to_raw(self) -> (raw: u64)
        ensures
            raw == self.0,
    {
        self.0
    }
}

/// What the passes know about one widget: where layout put it, how far it is
/// translated, where that places it in the window, and which passes still
/// have work to do on it.
#[derive(Clone, Copy, Debug, PartialEq, Eq, Structural)]
pub struct WidgetState {
    pub id: WidgetId,
    /// The position that layout assigned, relative to the parent.
    pub origin: Point,
    /// An offset on top of `origin`.
    pub translation: Vec2,
    /// The extent that layout assigned.
    pub size: Size,
    /// The position in the window. The compose pass derives it; it means
    /// nothing before the first pass has reached the widget.
    pub window_origin: WindowPoint,
    pub accepts_text_input: bool,
    /// `translation` was modified since the last compose pass.
    pub translation_changed: bool,
    /// This widget or one below it is waiting for the compose pass.
    pub needs_compose: bool,
    /// This widget asked for its own compose callback.
    pub request_compose: bool,
    pub needs_layout: bool,
    pub request_layout: bool,
    pub needs_paint: bool,
    pub needs_accessibility: bool,
    pub request_accessibility: bool,
}

impl WidgetState {
    /// The record of a widget that has just been mounted: nothing has moved
    /// and no pass is asked for.
    pub open spec fn mounted(id: WidgetId, origin: Point, size: Size) -> WidgetState {
        WidgetState {
            id,
            origin,
            translation: Vec2 { x: 0, y: 0 },
            size,
            window_origin: WindowPoint { x: 0, y: 0 },
            accepts_text_input: false,
            translation_changed: false,
            needs_compose: false,
            request_compose: false,
            needs_layout: false,
            request_layout: false,
            needs_paint: false,
            needs_accessibility: false,
            request_accessibility: false,
        }
    }

    pub fn new(id: WidgetId, origin: Point, size: Size) -> (state: WidgetState)
        ensures
            state == Self::mounted(id, origin, size),
    {
        WidgetState {
            id,
            origin,
            translation: Vec2 { x: 0, y: 0 },
            size,
            window_origin: WindowPoint { x: 0, y: 0 },
            accepts_text_input: false,
            translation_changed: false,
            needs_compose: false,
            request_compose: false,
            needs_layout: false,
            request_layout: false,
            needs_paint: false,
            needs_accessibility: false,
            request_accessibility: false,
        }
    }

    /// The record once its translation has been set to `translation`: a
    /// value that differs from the present one is stored and marked as a
    /// change, the present value leaves the record as it is.
    pub open spec fn with_translation(self, translation: Vec2) -> WidgetState {
        if translation == self.translation {
            self
        } else {
            WidgetState { translation, translation_changed: true, ..self }
        }
    }

    pub fn set_translation(&mut self, translation: Vec2)
        ensures
            *final(self) == old(self).with_translation(translation),
    {
        if translation != self.translation {
            self.translation = translation;
            self.translation_changed = true;
        }
    }

    /// The record once the widget has asked for layout.
    pub open spec fn with_layout_request(self) -> WidgetState {
        WidgetState { needs_layout: true, request_layout: true, ..self }
    }

    pub fn request_layout(&mut self)
        ensures
            *final(self) == old(self).with_layout_request(),
    {
        self.needs_layout = true;
        self.request_layout = true;
    }

    /// The record once the widget has asked for its compose callback.
    pub open spec fn with_compose_request(self) -> WidgetState {
        WidgetState { needs_compose: true, request_compose: true, ..self }
    }

    pub fn request_compose(&mut self)
        ensures
            *final(self) == old(self).with_compose_request(),
    {
        self.needs_compose = true;
        self.request_compose = true;
    }

    /// The record once the widget has asked for an accessibility update.
    pub open spec fn with_accessibility_request(self) -> WidgetState {
        WidgetState { needs_accessibility: true, request_accessibility: true, ..self }
    }

    pub fn request_accessibility_update(&mut self)
        ensures
            *final(self) == old(self).with_accessibility_request(),
    {
        self.needs_accessibility = true;
        self.request_accessibility = true;
    }

    /// The widget's offset in the window under a parent whose own offset is
    /// `parent_translation`: the parent's offset, then this widget's
    /// translation, then its origin.
    pub open spec fn window_translation(self, parent_translation: WindowVec2) -> WindowVec2 {
        parent_translation.translated(self.translation).translated(self.origin.as_vec2())
    }

    /// The record with its window origin resolved under `parent_translation`.
    pub open spec fn positioned(self, parent_translation: WindowVec2) -> WidgetState {
        WidgetState {
            window_origin: self.window_translation(parent_translation).as_point(),
            ..self
        }
    }

    /// Whether the compose pass has nothing to do at this widget or below it:
    /// no ancestor moved, its translation did not change, and neither it nor
    /// a descendant asked for the pass.
    pub open spec fn skips_compose(self, parent_moved: bool) -> bool {
        !parent_moved && !self.translation_changed && !self.needs_compose
    }

    /// The record after a compose callback has worked on the copy `edited`.
    /// Only what a callback may decide is taken over: the translation and
    /// the requests for further passes.
    pub open spec fn absorbing(self, edited: WidgetState) -> WidgetState {
        WidgetState {
            translation: edited.translation,
            translation_changed: edited.translation_changed,
            needs_compose: edited.needs_compose,
            request_compose: edited.request_compose,
            needs_layout: edited.needs_layout,
            request_layout: edited.request_layout,
            needs_accessibility: edited.needs_accessibility,
            request_accessibility: edited.request_accessibility,
            ..self
        }
    }

    pub fn absorb(&mut self, edited: &WidgetState)
        ensures
            *final(self) == old(self).absorbing(*edited),
    {
        self.translation = edited.translation;
        self.translation_changed = edited.translation_changed;
        self.needs_compose = edited.needs_compose;
        self.request_compose = edited.request_compose;
        self.needs_layout = edited.needs_layout;
        self.request_layout = edited.request_layout;
        self.needs_accessibility = edited.needs_accessibility;
        self.request_accessibility = edited.request_accessibility;
    }

    /// The record once the compose pass is through with the widget itself:
    /// accessibility and paint have to follow the new position, and what
    /// asked for this pass is used up.
    pub open spec fn composed(self) -> WidgetState {
        WidgetState {
            request_accessibility: true,
            needs_accessibility: true,
            needs_paint: true,
            needs_compose: false,
            request_compose: false,
            translation_changed: false,
            ..self
        }
    }

    pub fn finish_compose(&mut self)
        ensures
            *final(self) == old(self).composed(),
    {
        self.request_accessibility = true;
        self.needs_accessibility = true;
        self.needs_paint = true;
        self.needs_compose = false;
        self.request_compose = false;
        self.translation_changed = false;
    }

    /// The record of a parent after the record `child` of one of its
    /// children has been folded into it: what a pass still has to do below
    /// shows on the parent.
    pub open spec fn merged_with(self, child: WidgetState) -> WidgetState {
        WidgetState {
            needs_layout: self.needs_layout || child.needs_layout,
            needs_compose: self.needs_compose || child.needs_compose,
            needs_paint: self.needs_paint || child.needs_paint,
            needs_accessibility: self.needs_accessibility || child.needs_accessibility,
            ..self
        }
    }

    pub fn merge_up(&mut self, child: &WidgetState)
        ensures
            *final(self) == old(self).merged_with(*child),
    {
        self.needs_layout = self.needs_layout || child.needs_layout;
        self.needs_compose = self.needs_compose || child.needs_compose;
        self.needs_paint = self.needs_paint || child.needs_paint;
        self.needs_accessibility = self.needs_accessibility || child.needs_accessibility;
    }

    /// The record of a parent after the records `children` have been folded
    /// into it one by one, first to last.
    pub open spec fn merged_with_all(self, children: Seq<WidgetState>) -> WidgetState
        decreases children.len(),
    {
        if children.len() == 0 {
            self
        } else {
            self.merged_with_all(children.drop_last()).merged_with(children.last())
        }
    }

    /// Folding children into a parent changes nothing but the four marks
    /// that it folds, and sets each of them where the parent or a child had
    /// it set.
    pub proof fn lemma_merged_with_all(self, children: Seq<WidgetState>)
        ensures
            self.merged_with_all(children) == (WidgetState {
                needs_layout: self.needs_layout || exists|i: int|
                    0 <= i < children.len() && (#[trigger] children[i]).needs_layout,
                needs_compose: self.needs_compose || exists|i: int|
                    0 <= i < children.len() && (#[trigger] children[i]).needs_compose,
                needs_paint: self.needs_paint || exists|i: int|
                    0 <= i < children.len() && (#[trigger] children[i]).needs_paint,
                needs_accessibility: self.needs_accessibility || exists|i: int|
                    0 <= i < children.len() && (#[trigger] children[i]).needs_accessibility,
                ..self
            }),
        decreases children.len(),
    {
        if children.len() > 0 {
            let rest = children.drop_last();
            self.lemma_merged_with_all(rest);
            assert(forall|i: int| 0 <= i < rest.len() ==> rest[i] == children[i]);
        }
    }

    /// The area at which an input method should anchor itself for this
    /// widget: its layout box, in the window.
    pub open spec fn ime_area(self) -> WindowRect {
        WindowRect::placed(self.window_origin, self.size)
    }

    pub fn get_ime_area(&self) -> (area: WindowRect)
        requires
            WindowRect::can_place(self.window_origin, self.size),
        ensures
            area == self.ime_area(),
    {
        WindowRect::from_origin_size(self.window_origin, self.size)
    }
}

} // verus!
