//! Ownership tokens for layers and widgets, and what `add_widget` returns.
//!
//! A token is given back to the `Context` that made it to say that what it
//! stands for may go; the removal itself waits for the next event or render.
use vstd::prelude::*;

verus! {

/// A deferred change to a layer.
#[derive(Clone, Copy, Debug, PartialEq, Eq, Structural)]
pub enum LayerInstruction {
    /// The last token of the layer is gone: remove it with all its widgets.
    Drop,
    /// Show (true) or hide (false) the layer.
    SetActive(bool),
    /// Flip whether the layer is shown.
    Toggle,
}

/// A token for a layer. More tokens for the same layer come from
/// `Context::share_layer`; the layer goes once every token is released.
#[derive(Debug)]
pub struct LayerId {
    id: u64,
}

/// A token for a layer that cannot be shared: the only one of its layer.
#[derive(Debug)]
pub struct SingularLayerId(LayerId);

/// A token for one widget.
#[derive(Debug)]
pub struct WidgetId {
    layer: u64,
    id: u64,
}

/// What adding a widget gives back: the token of the widget, and the
/// channel through which the application follows it.
pub struct Response<R> {
    pub channel: R,
    pub id: WidgetId,
}

impl LayerId {
    pub(crate) fn new(id: u64) -> (r: LayerId)
        ensures
            r.spec_id() == id,
    {
        LayerId { id }
    }

    pub closed spec fn spec_id(&self) -> u64 {
        self.id
    }

    /// The number of the layer this token stands for.
    pub fn id(&self) -> (r: u64)
        ensures
            r == self.spec_id(),
    {
        self.id
    }
}

impl SingularLayerId {
    pub(crate) fn new(layer: LayerId) -> (r: SingularLayerId)
        ensures
            r.spec_id() == layer.spec_id(),
    {
        SingularLayerId(layer)
    }

    pub(crate) fn as_layer_id(&self) -> (r: &LayerId)
        ensures
            r.spec_id() == self.spec_id(),
    {
        &self.0
    }

    pub closed spec fn spec_id(&self) -> u64 {
        self.0.spec_id()
    }

    /// The number of the layer this token stands for.
    pub fn id(&self) -> (r: u64)
        ensures
            r == self.spec_id(),
    {
        self.0.id()
    }

    /// The token as an ordinary one, which can then be shared.
    pub fn into_layer_id(self) -> (r: LayerId)
        ensures
            r.spec_id() == self.spec_id(),
    {
        self.0
    }
}

impl WidgetId {
    pub(crate) fn new(layer: u64, id: u64) -> (r: WidgetId)
        ensures
            r.spec_layer() == layer,
            r.spec_id() == id,
    {
        WidgetId { layer, id }
    }

    pub closed spec fn spec_layer(&self) -> u64 {
        self.layer
    }

    pub closed spec fn spec_id(&self) -> u64 {
        self.id
    }

    /// The number of the widget's layer.
    pub fn layer(&self) -> (r: u64)
        ensures
            r == self.spec_layer(),
    {
        self.layer
    }

    /// The number of the widget within its layer.
    pub fn id(&self) -> (r: u64)
        ensures
            r == self.spec_id(),
    {
        self.id
    }
}

} // verus!
