//! What the application holds to follow and steer collapsible panels.
use vstd::prelude::*;
use crate::clickable::Clickable;
use crate::concealer::{ConcealerManagerReturn, ConcealerReturn};
use crate::context::{widget_added, widget_of, Context, LayerNotFound};
use crate::dropdown::Dropdown;
use crate::input::nfc_of;
use crate::text_field::InputLink;
use crate::widget::Widget;
use crate::model::{has_key, position, ContextView};
use crate::responses::{LayerInstruction, Response, SingularLayerId, WidgetId};
use crate::widget::WidgetConfig;

verus! {

/// A channel that shows and hides a group of widgets.
pub trait Concealer {
    /// The number of the layer shown and hidden.
    spec fn spec_layer(&self) -> u64;

    /// Asks for the widgets to be hidden (true) or shown; it takes effect at
    /// the next event or render.
    fn set_concealed(&mut self, context: &mut Context, concealed: bool)
        ensures
            final(self).spec_layer() == old(self).spec_layer(),
            final(context)@ == (ContextView {
                layer_msgs: old(context)@.layer_msgs.push(
                    (old(self).spec_layer(), LayerInstruction::SetActive(!concealed)),
                ),
                ..old(context)@
            }),
    ;

    /// Whether the widgets are hidden, as of the last event or render.
    fn is_concealing(&self, context: &Context) -> (r: bool)
        requires
            context@.wf(),
        ensures
            r == !(has_key(context@.layers, self.spec_layer()) && context@.layers[position(
                context@.layers,
                self.spec_layer(),
            )].1.active),
    ;

    /// Adds a widget to the hidden group.
    fn add_widget<R, C: WidgetConfig<R>>(&mut self, context: &mut Context, config: C) -> (r: Result<
        Response<R>,
        LayerNotFound,
    >)
        requires
            old(context)@.wf(),
            has_key(old(context)@.drained().layers, old(self).spec_layer()) ==> old(context)@.drained().layers[position(
                old(context)@.drained().layers,
                old(self).spec_layer(),
            )].1.next_id < u64::MAX,
        ensures
            final(self).spec_layer() == old(self).spec_layer(),
            final(context)@.wf(),
            !has_key(old(context)@.drained().layers, old(self).spec_layer()) ==> r is Err
                && final(context)@ == old(context)@.drained(),
            has_key(old(context)@.drained().layers, old(self).spec_layer()) ==> (r matches Ok(resp)
                && widget_added(config, old(context)@.drained(), old(self).spec_layer(), resp, final(context)@)),
    ;
}

impl Concealer for ConcealerReturn {
    open spec fn spec_layer(&self) -> u64 {
        self.layer.spec_id()
    }

    fn set_concealed(&mut self, context: &mut Context, concealed: bool) {
        self.layer.set_is_active(context, !concealed)
    }

    fn is_concealing(&self, context: &Context) -> (r: bool) {
        !self.layer.get_active(context)
    }

    fn add_widget<R, C: WidgetConfig<R>>(&mut self, context: &mut Context, config: C) -> (r: Result<
        Response<R>,
        LayerNotFound,
    >) {
        self.layer.add_widget(context, config)
    }
}

/// The clicks on the panel's button.
impl Clickable for ConcealerReturn {
    open spec fn pending(&self) -> nat {
        self.main_button@
    }

    fn has_clicked(&mut self) -> (r: bool) {
        self.main_button.has_clicked()
    }
}

impl ConcealerManagerReturn {
    pub fn new(channels: Vec<ConcealerReturn>) -> (r: Self)
        ensures
            r.channels == channels,
    {
        ConcealerManagerReturn { channels }
    }

    /// Chooses the open panel of the manager `id` without showing or hiding
    /// any layer; see `Context::set_active_concealer`.
    pub fn set_active_concealer(&self, context: &mut Context, id: &WidgetId, new_active: Option<usize>) -> (r: bool)
        requires
            old(context)@.wf(),
        ensures
            final(context)@.wf(),
            r == (widget_of(old(context)@.layers, id.spec_layer(), id.spec_id()) matches Some(
                Widget::ConcealerManager(_),
            )),
            r ==> (widget_of(final(context)@.layers, id.spec_layer(), id.spec_id()) matches Some(
                Widget::ConcealerManager(m),
            ) && m.active == new_active),
    {
        let r = context.set_active_concealer(id, new_active);
        proof {
            if r {
                let ls = final(context)@.layers;
                let l = id.spec_layer();
                let w = id.spec_id();
                let i = position(old(context)@.layers, l);
                let j = position(old(context)@.layers[i].1.widgets, w);
                crate::model::lemma_position(ls, l, i);
                crate::model::lemma_position(ls[i].1.widgets, w, j);
            }
        }
        r
    }

    /// The open panel of the manager `id`, if any.
    pub fn get_current_active(&self, context: &Context, id: &WidgetId) -> (r: Option<usize>)
        requires
            context@.wf(),
        ensures
            r == (match widget_of(context@.layers, id.spec_layer(), id.spec_id()) {
                Some(Widget::ConcealerManager(m)) => m.active,
                _ => None,
            }),
    {
        context.active_concealer(id)
    }
    /// The token of the layer of panel `id`.
    pub fn get_layer(&self, id: usize) -> (r: Option<&SingularLayerId>)
        ensures
            id < self.channels@.len() ==> r == Some(&self.channels@[id as int].layer),
            id >= self.channels@.len() ==> r is None,
    {
        if id < self.channels.len() {
            Some(&self.channels[id].layer)
        } else {
            None
        }
    }

    /// The token of the layer of panel `id`, to use in place.
    pub fn get_layer_mut(&mut self, id: usize) -> (r: Option<&mut SingularLayerId>)
        ensures
            id >= old(self).channels@.len() ==> r is None && *final(self) == *old(self),
            id < old(self).channels@.len() ==> (r matches Some(x) && *x == old(self).channels@[id as int].layer
                && final(self).channels@ == old(self).channels@.update(
                id as int,
                ConcealerReturn { layer: *final(x), ..old(self).channels@[id as int] },
            )),
    {
        if id < self.channels.len() {
            Some(&mut self.channels[id].layer)
        } else {
            None
        }
    }

    /// The channel of panel `id`.
    pub fn get_channel(&self, id: usize) -> (r: Option<&ConcealerReturn>)
        ensures
            id < self.channels@.len() ==> r == Some(&self.channels@[id as int]),
            id >= self.channels@.len() ==> r is None,
    {
        if id < self.channels.len() {
            Some(&self.channels[id])
        } else {
            None
        }
    }

    /// The number of panels.
    pub fn len(&self) -> (r: usize)
        ensures
            r == self.channels@.len(),
    {
        self.channels.len()
    }
}

impl Dropdown {
    /// Whether the drop-down `id` is open; see `Context::dropdown_is_open`.
    pub fn is_open(&self, context: &Context, id: &WidgetId) -> (r: bool)
        requires
            context@.wf(),
        ensures
            r == (match widget_of(context@.layers, id.spec_layer(), id.spec_id()) {
                Some(Widget::DropDown(d)) => d.is_open,
                _ => false,
            }),
    {
        context.dropdown_is_open(id)
    }
}

impl InputLink {
    /// The text of the field `id`; see `Context::input_value`.
    pub fn get(&self, context: &Context, id: &WidgetId) -> (r: Option<String>)
        requires
            context@.wf(),
        ensures
            match widget_of(context@.layers, id.spec_layer(), id.spec_id()) {
                Some(Widget::Input(i)) => r matches Some(v) && v@ == i.value@,
                _ => r is None,
            },
    {
        context.input_value(id)
    }

    /// Replaces the text of the field `id` with `value`, normalized; returns
    /// whether `id` is a text field. See `Context::set_input_value`.
    pub fn set(&self, context: &mut Context, id: &WidgetId, value: String) -> (r: bool)
        requires
            old(context)@.wf(),
        ensures
            final(context)@.wf(),
            r == (widget_of(old(context)@.layers, id.spec_layer(), id.spec_id()) matches Some(
                Widget::Input(_),
            )),
            r ==> (widget_of(final(context)@.layers, id.spec_layer(), id.spec_id()) matches Some(
                Widget::Input(i),
            ) && i.value@ == nfc_of(value@)),
    {
        let ghost v = value@;
        let r = context.set_input_value(id, value);
        proof {
            if r {
                let ls = final(context)@.layers;
                let l = id.spec_layer();
                let w = id.spec_id();
                let i = position(old(context)@.layers, l);
                let j = position(old(context)@.layers[i].1.widgets, w);
                crate::model::lemma_position(ls, l, i);
                crate::model::lemma_position(ls[i].1.widgets, w, j);
            }
        }
        r
    }
}

} // verus!
