//! The behaviour that a widget brings to the tree.

use vstd::prelude::*;
use crate::contexts::{ComposeCtx, ComposeCtxView};

verus! {

/// A widget, as far as the compose pass is concerned.
pub trait Widget: Sized {
    /// The widget and the context as the compose callback leaves them. A
    /// callback is a function of the widget and of the context it is given;
    /// an implementation states here which one.
    open spec fn composed(self, ctx: ComposeCtxView) -> (Self, ComposeCtxView) {
        arbitrary()
    }

    /// The compose callback. The pass calls it on a widget that asked for
    /// it, after the widget's position in the window has been resolved and
    /// before the pass goes on to the children. A widget with nothing to do
    /// leaves the context as it is.
    fn compose(&mut self, ctx: &mut ComposeCtx)
        ensures
            (*final(self), final(ctx)@) == old(self).composed(old(ctx)@),
    ;
}

} // verus!
