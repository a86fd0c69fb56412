//! The context: the single owner of every layer and widget. It applies the
//! messages that tokens leave, routes input and lists what to draw.
use vstd::prelude::*;
use indexmap::IndexMap;
use crate::geometry::Vector;
use crate::index_map::{
    layer_at, layer_at_mut, layer_entries, layers_index_of, layers_insert, layers_len, layers_new,
    layers_shift_remove, widget_at, widget_at_mut, widget_entries, widgets_index_of,
    widgets_insert, widgets_len, widgets_new, widgets_shift_remove,
};
use crate::clickable::{joined, BasicClickable};
use crate::draw::{ops_view, CursorIcon, DrawOp};
use crate::model::{
    apply_layer_msg, apply_layer_msgs, apply_widget_msg, apply_widget_msgs, has_key, keys_at_most,
    focus_top_of, keys_unique, last_focus_hit, last_hit, layer_items, layer_shown, layer_related, layers_related, lemma_last_focus_hit_push, lemma_last_hit_push,
    lemma_position, lemma_push_keys, lemma_related_wf, lemma_remove_keys, lemma_remove_layer,
    lemma_update_layers, lemma_update_widget, lemma_visible_take, position, top_of, updated_at,
    visible, ContextView, LayerView,
};
use crate::text_field::Key;
use crate::responses::{LayerId, LayerInstruction, Response, SingularLayerId, WidgetId};
use crate::input::nfc_of;
use crate::widget::{Widget, WidgetConfig};

verus! {

/// A group of widgets that is shown, hidden and removed as one.
pub struct Layer {
    is_active: bool,
    widgets: IndexMap<u64, Widget>,
    current_id: u64,
    handles: u64,
}

impl View for Layer {
    type V = LayerView;

    closed spec fn view(&self) -> LayerView {
        LayerView {
            active: self.is_active,
            next_id: self.current_id,
            handles: self.handles,
            widgets: widget_entries(self.widgets),
        }
    }
}

impl Layer {
    /// A shown layer without widgets, with one token.
    pub fn new() -> (r: Layer)
        ensures
            r@ == (LayerView { active: true, next_id: 0, handles: 1, widgets: seq![] }),
    {
        Layer { is_active: true, widgets: widgets_new(), current_id: 0, handles: 1 }
    }

    /// Stores `widget` under the next number, which it returns.
    pub fn insert(&mut self, widget: Widget) -> (r: u64)
        requires
            old(self)@.next_id < u64::MAX,
            keys_at_most(old(self)@.widgets, old(self)@.next_id),
        ensures
            r == old(self)@.next_id + 1,
            final(self)@ == (LayerView {
                next_id: r,
                widgets: old(self)@.widgets.push((r, widget)),
                ..old(self)@
            }),
    {
        self.current_id = self.current_id + 1;
        let id = self.current_id;
        proof {
            let ws = widget_entries(self.widgets);
            assert forall|i: int| 0 <= i < ws.len() implies (#[trigger] ws[i]).0 != id by {
                assert(ws[i].0 <= old(self)@.next_id);
            }
        }
        widgets_insert(&mut self.widgets, id, widget);
        id
    }

    /// Removes the widget with number `id`, if there is one.
    pub fn remove(&mut self, id: u64)
        requires
            keys_unique(old(self)@.widgets),
        ensures
            final(self)@ == (if has_key(old(self)@.widgets, id) {
                LayerView {
                    widgets: old(self)@.widgets.remove(position(old(self)@.widgets, id)),
                    ..old(self)@
                }
            } else {
                old(self)@
            }),
    {
        let ghost ws = widget_entries(self.widgets);
        widgets_shift_remove(&mut self.widgets, id);
        proof {
            if has_key(ws, id) {
                let i = position(ws, id);
                lemma_position(ws, id, i);
                assert(ws[i].0 == id);
                assert(forall|j: int| 0 <= j < ws.len() && j != i ==> ws[j].0 != id);
            }
        }
    }

    /// The widget with number `index`, to change in place.
    pub fn get_mut(&mut self, index: u64) -> (r: Option<&mut Widget>)
        requires
            keys_unique(old(self)@.widgets),
        ensures
            !has_key(old(self)@.widgets, index) ==> r is None && final(self)@ == old(self)@,
            has_key(old(self)@.widgets, index) ==> (r matches Some(x) && {
                let j = position(old(self)@.widgets, index);
                &&& *x == old(self)@.widgets[j].1
                &&& final(self)@ == (LayerView {
                    widgets: old(self)@.widgets.update(j, (index, *final(x))),
                    ..old(self)@
                })
            }),
    {
        let ghost ws = old(self)@.widgets;
        match widgets_index_of(&self.widgets, index) {
            None => None,
            Some(j) => {
                proof {
                    lemma_position(ws, index, j as int);
                }
                Some(widget_at_mut(&mut self.widgets, j))
            },
        }
    }

    pub fn is_active(&self) -> (r: bool)
        ensures
            r == self@.active,
    {
        self.is_active
    }

    /// Sets the hover state of every widget of a shown layer.
    fn hover_widgets(&mut self, lid: u64, p: Vector, top: Option<(u64, u64)>)
        ensures
            layer_related(lid, old(self)@, final(self)@, hover_rel(p, top)),
    {
        if !self.is_active {
            return;
        }
        let ghost ws = old(self)@.widgets;
        let n = widgets_len(&self.widgets);
        let mut j: usize = 0;
        while j < n
            invariant
                n == ws.len(),
                self.is_active == old(self)@.active,
                self.is_active,
                self.current_id == old(self)@.next_id,
                self.handles == old(self)@.handles,
                self@.widgets.len() == n,
                j <= n,
                forall|k: int|
                    0 <= k < j ==> (#[trigger] self@.widgets[k]).0 == ws[k].0 && ws[k].1.hover_next(
                        p,
                        top == Some((lid, ws[k].0)),
                        self@.widgets[k].1,
                    ),
                forall|k: int| j <= k < n ==> #[trigger] self@.widgets[k] == ws[k],
            decreases n - j,
        {
            let (wid, _) = widget_at(&self.widgets, j);
            let on = match top {
                Some(t) => t.0 == lid && t.1 == wid,
                None => false,
            };
            let w = widget_at_mut(&mut self.widgets, j);
            w.set_hover(p, on);
            j = j + 1;
        }
    }

    /// Takes focus from the widgets of a shown layer, as a press does to
    /// all but the widget that takes focus (`top`).
    fn unfocus_widgets(&mut self, lid: u64, p: Vector, top: Option<(u64, u64)>)
        ensures
            layer_related(lid, old(self)@, final(self)@, unfocus_rel(p, top)),
    {
        if !self.is_active {
            return;
        }
        let ghost ws = old(self)@.widgets;
        let n = widgets_len(&self.widgets);
        let mut j: usize = 0;
        while j < n
            invariant
                n == ws.len(),
                self.is_active == old(self)@.active,
                self.is_active,
                self.current_id == old(self)@.next_id,
                self.handles == old(self)@.handles,
                self@.widgets.len() == n,
                j <= n,
                forall|k: int|
                    0 <= k < j ==> (#[trigger] self@.widgets[k]).0 == ws[k].0 && unfocus_rel(p, top)(
                        lid,
                        ws[k].0,
                        ws[k].1,
                        self@.widgets[k].1,
                    ),
                forall|k: int| j <= k < n ==> #[trigger] self@.widgets[k] == ws[k],
            decreases n - j,
        {
            let (wid, _) = widget_at(&self.widgets, j);
            let is_top = match top {
                Some(t) => t.0 == lid && t.1 == wid,
                None => false,
            };
            let w = widget_at_mut(&mut self.widgets, j);
            if !is_top && (!w.contains(p) || w.is_focusable(p)) {
                w.set_focus(p, false);
            }
            j = j + 1;
        }
    }
}

/// One input event from the host.
#[derive(Clone, Copy, Debug, PartialEq, Eq, Structural)]
pub enum Event {
    /// The pointer moved to this position.
    PointerMoved(Vector),
    /// A pointer button went down or up; `left` tells the left button from
    /// the others.
    PointerInput { left: bool, down: bool },
    /// A key went down or up.
    KeyboardInput { key: Key, down: bool },
    /// A character was typed.
    ReceivedCharacter(char),
    /// Anything else, which widgets ignore.
    Other,
}

/// How a pointer move changes a reachable widget: the topmost one under
/// the pointer is hovered, every other one is not.
pub open spec fn hover_rel(p: Vector, top: Option<(u64, u64)>) -> spec_fn(u64, u64, Widget, Widget) -> bool {
    |l: u64, w: u64, a: Widget, b: Widget| a.hover_next(p, top == Some((l, w)), b)
}

/// How a press changes the reachable widgets other than `keep`, the one
/// that takes focus: those away from the pointer, and the focusable ones
/// under it, lose focus.
pub open spec fn unfocus_rel(p: Vector, keep: Option<(u64, u64)>) -> spec_fn(u64, u64, Widget, Widget) -> bool {
    |l: u64, w: u64, a: Widget, b: Widget|
        if keep == Some((l, w)) {
            b == a
        } else if !a.spec_contains(p) || a.spec_focusable(p) {
            a.focus_next(p, false, b)
        } else {
            b == a
        }
}

/// How a click at `p` that asks `cmds` of layers changes a widget.
pub open spec fn click_rel(p: Vector, cmds: Seq<(u64, LayerInstruction)>) -> spec_fn(Widget, Widget) -> bool {
    |a: Widget, b: Widget| a.click_next(p, b, cmds)
}

pub open spec fn key_rel(key: Key, down: bool) -> spec_fn(Widget, Widget) -> bool {
    |a: Widget, b: Widget| a.key_next(key, down, b)
}

pub open spec fn typed_rel(c: char) -> spec_fn(Widget, Widget) -> bool {
    |a: Widget, b: Widget| a.typed_next(c, b)
}

/// The cursor icon over the topmost widget under `p`, or the default one.
pub open spec fn cursor_of(ls: Seq<(u64, LayerView)>, p: Vector) -> CursorIcon {
    match last_hit(visible(ls), p) {
        Some(k) => visible(ls)[k].2.spec_cursor(p),
        None => CursorIcon::Default,
    }
}

/// What was found of `s`: its last widget under `p` with its cursor, and
/// its last widget under `p` that can take focus.
pub open spec fn hit_state(
    s: Seq<(u64, u64, Widget)>,
    p: Vector,
    top: Option<(u64, u64)>,
    cursor: CursorIcon,
    ftop: Option<(u64, u64)>,
) -> bool {
    &&& match last_hit(s, p) {
        Some(k) => top == Some((s[k].0, s[k].1)) && cursor == s[k].2.spec_cursor(p),
        None => top is None && cursor == CursorIcon::Default,
    }
    &&& match last_focus_hit(s, p) {
        Some(k) => ftop == Some((s[k].0, s[k].1)),
        None => ftop is None,
    }
}

/// A press at the pointer of `d` gave `after`. Over empty space it changes
/// nothing. Otherwise widgets lose focus as `unfocus_rel` says, all but the
/// last one under the pointer that can take focus (giving `mid`); then the
/// topmost widget under the pointer is clicked and asks `cmds` of layers.
pub open spec fn press_done(
    d: ContextView,
    after: ContextView,
    mid: Seq<(u64, LayerView)>,
    cmds: Seq<(u64, LayerInstruction)>,
) -> bool {
    let p = d.pointer;
    &&& after.layer_msgs == d.layer_msgs + cmds
    &&& match top_of(d.layers, p) {
        Some(t) => {
            &&& layers_related(d.layers, mid, unfocus_rel(p, focus_top_of(d.layers, p)))
            &&& updated_at(mid, t.0, t.1, after.layers, click_rel(p, cmds))
        },
        None => mid == d.layers && after.layers == d.layers && cmds.len() == 0,
    }
}

/// What handling `e` does to the drained context `d`, giving `after` and
/// the cursor icon `r` for the host.
pub open spec fn event_done(d: ContextView, e: Event, after: ContextView, r: Option<CursorIcon>) -> bool {
    match e {
        Event::PointerMoved(p) => {
            let top = top_of(d.layers, p);
            &&& r == Some(cursor_of(d.layers, p))
            &&& layers_related(d.layers, after.layers, hover_rel(p, top))
            &&& after == (ContextView { layers: after.layers, pointer: p, ..d })
        },
        Event::PointerInput { left, down } => {
            &&& r is None
            &&& if !left || (down && d.left_down) || (!down && !d.left_down) {
                after == d
            } else if !down {
                after == (ContextView { left_down: false, ..d })
            } else {
                &&& after.left_down
                &&& after.focus == (if top_of(d.layers, d.pointer) is Some {
                    focus_top_of(d.layers, d.pointer)
                } else {
                    d.focus
                })
                &&& after.pointer == d.pointer
                &&& after.last_layer_id == d.last_layer_id
                &&& after.widget_msgs == d.widget_msgs
                &&& exists|mid: Seq<(u64, LayerView)>, cmds: Seq<(u64, LayerInstruction)>|
                    #[trigger] press_done(d, after, mid, cmds)
            }
        },
        Event::KeyboardInput { key, down } => {
            &&& r is None
            &&& after == (ContextView { layers: after.layers, ..d })
            &&& match d.focus {
                Some(f) => if layer_shown(d.layers, f.0) {
                    updated_at(d.layers, f.0, f.1, after.layers, key_rel(key, down))
                } else {
                    after.layers == d.layers
                },
                None => after.layers == d.layers,
            }
        },
        Event::ReceivedCharacter(c) => {
            &&& r is None
            &&& after == (ContextView { layers: after.layers, ..d })
            &&& match d.focus {
                Some(f) => if layer_shown(d.layers, f.0) {
                    updated_at(d.layers, f.0, f.1, after.layers, typed_rel(c))
                } else {
                    after.layers == d.layers
                },
                None => after.layers == d.layers,
            }
        },
        Event::Other => r is None && after == d,
    }
}

/// One widget's part of a frame: its place in the drawing order, its
/// numbers and its drawing operations.
pub struct RenderedWidget {
    pub order: u64,
    pub layer: u64,
    pub widget: u64,
    pub ops: Vec<DrawOp>,
}

/// The widget numbered `w` in layer `l`, if both are there.
pub open spec fn widget_of(ls: Seq<(u64, LayerView)>, l: u64, w: u64) -> Option<Widget> {
    if has_key(ls, l) && has_key(ls[position(ls, l)].1.widgets, w) {
        let ws = ls[position(ls, l)].1.widgets;
        Some(ws[position(ws, w)].1)
    } else {
        None
    }
}

/// `r` lists the widgets of `vis` in order, numbered from zero, each with
/// its drawing operations.
pub open spec fn frame_of(vis: Seq<(u64, u64, Widget)>, r: Seq<RenderedWidget>) -> bool {
    &&& r.len() == vis.len()
    &&& forall|k: int|
        0 <= k < r.len() ==> (#[trigger] r[k]).order == k && r[k].layer == vis[k].0 && r[k].widget
            == vis[k].1 && ops_view(r[k].ops@) == vis[k].2.spec_ops()
}

/// `add_widget` found no layer for the token.
#[derive(Clone, Copy, Debug, PartialEq, Eq, Structural)]
pub struct LayerNotFound;

/// Owns every layer and widget of an interface.
pub struct Context {
    to_display: IndexMap<u64, Layer>,
    widget_with_focus: Option<(u64, u64)>,
    last_layer_id: u64,
    mouse_cursor: Vector,
    layer_channel: Vec<(u64, LayerInstruction)>,
    widget_channel: Vec<(u64, u64)>,
    left_mouse_button_down: bool,
}

/// The layers of a map, seen through their views.
pub open spec fn layers_view(m: IndexMap<u64, Layer>) -> Seq<(u64, LayerView)> {
    layer_entries(m).map_values(|e: (u64, Layer)| (e.0, e.1@))
}

/// The context after widget `w` was stored as number `nid` in the layer at
/// position `i`, and what it asks of layers was applied (a panel's layer is
/// hidden).
pub open spec fn with_added(d: ContextView, i: int, nid: u64, w: Widget) -> ContextView {
    ContextView {
        layers: apply_layer_msgs(
            d.layers.update(
                i,
                (
                    d.layers[i].0,
                    LayerView { next_id: nid, widgets: d.layers[i].1.widgets.push((nid, w)), ..d.layers[i].1 },
                ),
            ),
            w.spec_setup(),
        ),
        ..d
    }
}

/// `resp` and `after` are what adding a widget built from `config` to layer
/// `lid` of the drained context `d` gives.
pub open spec fn widget_added<R, C: WidgetConfig<R>>(
    config: C,
    d: ContextView,
    lid: u64,
    resp: Response<R>,
    after: ContextView,
) -> bool {
    let i = position(d.layers, lid);
    let nid = (d.layers[i].1.next_id + 1) as u64;
    &&& resp.id.spec_layer() == lid
    &&& resp.id.spec_id() == nid
    &&& exists|w: Widget| config.built(w, resp.channel) && after == with_added(d, i, nid, w)
}

impl View for Context {
    type V = ContextView;

    closed spec fn view(&self) -> ContextView {
        ContextView {
            layers: layers_view(self.to_display),
            focus: self.widget_with_focus,
            last_layer_id: self.last_layer_id,
            pointer: self.mouse_cursor,
            layer_msgs: self.layer_channel@,
            widget_msgs: self.widget_channel@,
            left_down: self.left_mouse_button_down,
        }
    }
}

impl Context {
    /// A context without layers.
    pub fn new() -> (r: Context)
        ensures
            r@ == (ContextView {
                layers: seq![],
                focus: None,
                last_layer_id: 0,
                pointer: Vector { x: 0, y: 0 },
                layer_msgs: seq![],
                widget_msgs: seq![],
                left_down: false,
            }),
            r@.wf(),
    {
        let r = Context {
            to_display: layers_new(),
            widget_with_focus: None,
            last_layer_id: 0,
            mouse_cursor: Vector { x: 0, y: 0 },
            layer_channel: Vec::new(),
            widget_channel: Vec::new(),
            left_mouse_button_down: false,
        };
        proof {
            assert(r@.layers =~= seq![]);
        }
        r
    }

    /// Whether another layer can get a fresh number.
    pub fn can_add_layer(&self) -> (r: bool)
        ensures
            r == (self@.last_layer_id < u64::MAX),
    {
        self.last_layer_id < u64::MAX
    }

    /// Adds a shown, empty layer under the next number, with one token.
    pub fn add_layer(&mut self) -> (r: LayerId)
        requires
            old(self)@.wf(),
            old(self)@.last_layer_id < u64::MAX,
        ensures
            r.spec_id() == old(self)@.last_layer_id + 1,
            final(self)@ == (ContextView {
                layers: old(self)@.layers.push(
                    (r.spec_id(), LayerView { active: true, next_id: 0, handles: 1, widgets: seq![] }),
                ),
                last_layer_id: r.spec_id(),
                ..old(self)@
            }),
            final(self)@.wf(),
    {
        self.last_layer_id = self.last_layer_id + 1;
        let id = self.last_layer_id;
        let layer = Layer::new();
        let ghost lv = layer@;
        let ghost before = layer_entries(self.to_display);
        proof {
            assert forall|i: int| 0 <= i < before.len() implies (#[trigger] before[i]).0 != id by {
                assert(layers_view(self.to_display)[i].0 == before[i].0);
            }
        }
        layers_insert(&mut self.to_display, id, layer);
        proof {
            let ls = old(self)@.layers;
            assert(layers_view(self.to_display) =~= ls.push((id, lv)));
            assert(keys_at_most(ls, (id - 1) as u64));
            lemma_push_keys(ls, id, lv, (id - 1) as u64);
            let t = ls.push((id, lv));
            assert forall|i: int| 0 <= i < t.len() implies keys_unique((#[trigger] t[i]).1.widgets)
                && keys_at_most(t[i].1.widgets, t[i].1.next_id) by {
                if i < ls.len() {
                    assert(t[i] == ls[i]);
                }
            }
        }
        LayerId::new(id)
    }

    /// Same as `add_layer`, with a token that cannot be shared: for a
    /// widget that controls a whole layer.
    pub fn add_singular_layer(&mut self) -> (r: SingularLayerId)
        requires
            old(self)@.wf(),
            old(self)@.last_layer_id < u64::MAX,
        ensures
            r.spec_id() == old(self)@.last_layer_id + 1,
            final(self)@ == (ContextView {
                layers: old(self)@.layers.push(
                    (r.spec_id(), LayerView { active: true, next_id: 0, handles: 1, widgets: seq![] }),
                ),
                last_layer_id: r.spec_id(),
                ..old(self)@
            }),
            final(self)@.wf(),
    {
        let id = self.add_layer();
        SingularLayerId::new(id)
    }

    /// Applies one layer message.
    fn apply_layer_instruction(&mut self, m: (u64, LayerInstruction))
        requires
            old(self)@.wf(),
        ensures
            final(self)@ == (ContextView { layers: apply_layer_msg(old(self)@.layers, m), ..old(self)@ }),
            final(self)@.wf(),
    {
        let ghost ls = old(self)@.layers;
        let ghost es = layer_entries(self.to_display);
        match layers_index_of(&self.to_display, m.0) {
            None => {
                proof {
                    assert forall|i: int| 0 <= i < ls.len() implies (#[trigger] ls[i]).0 != m.0 by {
                        assert(ls[i].0 == es[i].0);
                    }
                }
            },
            Some(i) => {
                proof {
                    assert(ls[i as int].0 == m.0);
                    lemma_position(ls, m.0, i as int);
                }
                match m.1 {
                    LayerInstruction::Drop => {
                        proof {
                            assert forall|j: int| 0 <= j < es.len() && j != i implies es[j].0 != m.0 by {
                                assert(ls[j].0 == es[j].0);
                            }
                        }
                        layers_shift_remove(&mut self.to_display, m.0);
                        proof {
                            assert(layers_view(self.to_display) =~= ls.remove(i as int));
                            lemma_remove_layer(ls, i as int, self.last_layer_id);
                        }
                    },
                    LayerInstruction::SetActive(b) => {
                        let layer = layer_at_mut(&mut self.to_display, i);
                        layer.is_active = b;
                        proof {
                            let l = LayerView { active: b, ..ls[i as int].1 };
                            assert(layers_view(self.to_display) =~= ls.update(i as int, (m.0, l)));
                            lemma_update_layers(ls, i as int, l);
                        }
                    },
                    LayerInstruction::Toggle => {
                        let layer = layer_at_mut(&mut self.to_display, i);
                        layer.is_active = !layer.is_active;
                        proof {
                            let l = LayerView { active: !ls[i as int].1.active, ..ls[i as int].1 };
                            assert(layers_view(self.to_display) =~= ls.update(i as int, (m.0, l)));
                            lemma_update_layers(ls, i as int, l);
                        }
                    },
                }
            },
        }
    }

    /// Applies layer messages at once, in order.
    fn apply_layer_instructions(&mut self, msgs: &Vec<(u64, LayerInstruction)>)
        requires
            old(self)@.wf(),
        ensures
            final(self)@ == (ContextView { layers: apply_layer_msgs(old(self)@.layers, msgs@), ..old(self)@ }),
            final(self)@.wf(),
    {
        let ghost v0 = old(self)@;
        let mut i: usize = 0;
        while i < msgs.len()
            invariant
                i <= msgs@.len(),
                self@ == (ContextView { layers: apply_layer_msgs(v0.layers, msgs@.take(i as int)), ..v0 }),
                self@.wf(),
            decreases msgs@.len() - i,
        {
            self.apply_layer_instruction(msgs[i]);
            proof {
                assert(msgs@.take(i + 1).drop_last() =~= msgs@.take(i as int));
            }
            i = i + 1;
        }
        proof {
            assert(msgs@.take(i as int) =~= msgs@);
        }
    }

    /// Applies one widget message.
    fn apply_widget_instruction(&mut self, m: (u64, u64))
        requires
            old(self)@.wf(),
        ensures
            final(self)@ == (ContextView { layers: apply_widget_msg(old(self)@.layers, m), ..old(self)@ }),
            final(self)@.wf(),
    {
        let ghost ls = old(self)@.layers;
        let ghost es = layer_entries(self.to_display);
        match layers_index_of(&self.to_display, m.0) {
            None => {
                proof {
                    assert forall|i: int| 0 <= i < ls.len() implies (#[trigger] ls[i]).0 != m.0 by {
                        assert(ls[i].0 == es[i].0);
                    }
                }
            },
            Some(i) => {
                proof {
                    assert(ls[i as int].0 == m.0);
                    lemma_position(ls, m.0, i as int);
                }
                let layer = layer_at_mut(&mut self.to_display, i);
                layer.remove(m.1);
                proof {
                    let l = ls[i as int].1;
                    if has_key(l.widgets, m.1) {
                        let nl = LayerView { widgets: l.widgets.remove(position(l.widgets, m.1)), ..l };
                        assert(layers_view(self.to_display) =~= ls.update(i as int, (m.0, nl)));
                        lemma_remove_keys(l.widgets, position(l.widgets, m.1), l.next_id);
                        lemma_update_layers(ls, i as int, nl);
                    } else {
                        assert(layers_view(self.to_display) =~= ls);
                    }
                }
            },
        }
    }

    /// Applies every pending message: layer messages first, then widget
    /// messages, each in the order they were sent.
    pub fn handle_extern_events(&mut self)
        requires
            old(self)@.wf(),
        ensures
            final(self)@ == old(self)@.drained(),
            final(self)@.wf(),
    {
        let mut msgs: Vec<(u64, LayerInstruction)> = Vec::new();
        std::mem::swap(&mut msgs, &mut self.layer_channel);
        let ghost v0 = old(self)@;
        let mut i: usize = 0;
        while i < msgs.len()
            invariant
                i <= msgs@.len(),
                msgs@ == v0.layer_msgs,
                self@ == (ContextView {
                    layers: apply_layer_msgs(v0.layers, msgs@.take(i as int)),
                    layer_msgs: seq![],
                    ..v0
                }),
                self@.wf(),
            decreases msgs@.len() - i,
        {
            self.apply_layer_instruction(msgs[i]);
            proof {
                assert(msgs@.take(i + 1).drop_last() =~= msgs@.take(i as int));
            }
            i = i + 1;
        }
        proof {
            assert(msgs@.take(i as int) =~= msgs@);
        }
        let ghost v1 = self@;
        let mut wmsgs: Vec<(u64, u64)> = Vec::new();
        std::mem::swap(&mut wmsgs, &mut self.widget_channel);
        let mut j: usize = 0;
        while j < wmsgs.len()
            invariant
                j <= wmsgs@.len(),
                wmsgs@ == v1.widget_msgs,
                self@ == (ContextView {
                    layers: apply_widget_msgs(v1.layers, wmsgs@.take(j as int)),
                    widget_msgs: seq![],
                    ..v1
                }),
                self@.wf(),
            decreases wmsgs@.len() - j,
        {
            self.apply_widget_instruction(wmsgs[j]);
            proof {
                assert(wmsgs@.take(j + 1).drop_last() =~= wmsgs@.take(j as int));
            }
            j = j + 1;
        }
        proof {
            assert(wmsgs@.take(j as int) =~= wmsgs@);
        }
    }

    /// Gives up the widget's token: the widget goes at the next event or
    /// render.
    pub fn drop_widget(&mut self, id: WidgetId)
        ensures
            final(self)@ == (ContextView {
                widget_msgs: old(self)@.widget_msgs.push((id.spec_layer(), id.spec_id())),
                ..old(self)@
            }),
    {
        self.widget_channel.push((id.layer(), id.id()));
    }

    /// Another token for the layer of `layer`.
    pub fn share_layer(&mut self, layer: &LayerId) -> (r: LayerId)
        requires
            old(self)@.wf(),
            has_key(old(self)@.layers, layer.spec_id()) ==> old(self)@.layers[position(
                old(self)@.layers,
                layer.spec_id(),
            )].1.handles < u64::MAX,
        ensures
            r.spec_id() == layer.spec_id(),
            final(self)@ == (if has_key(old(self)@.layers, layer.spec_id()) {
                let i = position(old(self)@.layers, layer.spec_id());
                let l = old(self)@.layers[i].1;
                ContextView {
                    layers: old(self)@.layers.update(
                        i,
                        (layer.spec_id(), LayerView { handles: (l.handles + 1) as u64, ..l }),
                    ),
                    ..old(self)@
                }
            } else {
                old(self)@
            }),
            final(self)@.wf(),
    {
        let id = layer.id();
        let ghost ls = old(self)@.layers;
        let ghost es = layer_entries(self.to_display);
        match layers_index_of(&self.to_display, id) {
            None => {
                proof {
                    assert forall|i: int| 0 <= i < ls.len() implies (#[trigger] ls[i]).0 != id by {
                        assert(ls[i].0 == es[i].0);
                    }
                }
            },
            Some(i) => {
                proof {
                    assert(ls[i as int].0 == id);
                    lemma_position(ls, id, i as int);
                }
                let l = layer_at_mut(&mut self.to_display, i);
                l.handles = l.handles + 1;
                proof {
                    let nl = LayerView { handles: (ls[i as int].1.handles + 1) as u64, ..ls[i as int].1 };
                    assert(layers_view(self.to_display) =~= ls.update(i as int, (id, nl)));
                    lemma_update_layers(ls, i as int, nl);
                }
            },
        }
        LayerId::new(id)
    }

    /// Gives up a token of a layer. When it was the last, the layer goes,
    /// with all its widgets, at the next event or render.
    pub fn release_layer(&mut self, layer: LayerId)
        requires
            old(self)@.wf(),
        ensures
            final(self)@ == (if has_key(old(self)@.layers, layer.spec_id()) {
                let i = position(old(self)@.layers, layer.spec_id());
                let l = old(self)@.layers[i].1;
                let n = if l.handles > 0 { (l.handles - 1) as u64 } else { 0u64 };
                ContextView {
                    layers: old(self)@.layers.update(i, (layer.spec_id(), LayerView { handles: n, ..l })),
                    layer_msgs: if n == 0 {
                        old(self)@.layer_msgs.push((layer.spec_id(), LayerInstruction::Drop))
                    } else {
                        old(self)@.layer_msgs
                    },
                    ..old(self)@
                }
            } else {
                old(self)@
            }),
            final(self)@.wf(),
    {
        let id = layer.id();
        let ghost ls = old(self)@.layers;
        let ghost es = layer_entries(self.to_display);
        match layers_index_of(&self.to_display, id) {
            None => {
                proof {
                    assert forall|i: int| 0 <= i < ls.len() implies (#[trigger] ls[i]).0 != id by {
                        assert(ls[i].0 == es[i].0);
                    }
                }
            },
            Some(i) => {
                proof {
                    assert(ls[i as int].0 == id);
                    lemma_position(ls, id, i as int);
                }
                let l = layer_at_mut(&mut self.to_display, i);
                if l.handles > 0 {
                    l.handles = l.handles - 1;
                }
                let last = l.handles == 0;
                proof {
                    let old_l = ls[i as int].1;
                    let n = if old_l.handles > 0 { (old_l.handles - 1) as u64 } else { 0u64 };
                    let nl = LayerView { handles: n, ..old_l };
                    assert(layers_view(self.to_display) =~= ls.update(i as int, (id, nl)));
                    lemma_update_layers(ls, i as int, nl);
                }
                if last {
                    self.layer_channel.push((id, LayerInstruction::Drop));
                }
            },
        }
    }

    /// Gives up the token of a singular layer: the layer goes at the next
    /// event or render.
    pub fn release_singular_layer(&mut self, layer: SingularLayerId)
        requires
            old(self)@.wf(),
        ensures
            final(self)@ == (if has_key(old(self)@.layers, layer.spec_id()) {
                let i = position(old(self)@.layers, layer.spec_id());
                let l = old(self)@.layers[i].1;
                let n = if l.handles > 0 { (l.handles - 1) as u64 } else { 0u64 };
                ContextView {
                    layers: old(self)@.layers.update(i, (layer.spec_id(), LayerView { handles: n, ..l })),
                    layer_msgs: if n == 0 {
                        old(self)@.layer_msgs.push((layer.spec_id(), LayerInstruction::Drop))
                    } else {
                        old(self)@.layer_msgs
                    },
                    ..old(self)@
                }
            } else {
                old(self)@
            }),
            final(self)@.wf(),
    {
        self.release_layer(layer.into_layer_id());
    }

    /// Asks for the layer to be shown or hidden; it takes effect at the
    /// next event or render.
    pub fn set_layer_active(&mut self, layer: u64, active: bool)
        ensures
            final(self)@ == (ContextView {
                layer_msgs: old(self)@.layer_msgs.push((layer, LayerInstruction::SetActive(active))),
                ..old(self)@
            }),
    {
        self.layer_channel.push((layer, LayerInstruction::SetActive(active)));
    }

    /// Whether the layer is shown, as of the last event or render; false
    /// for a layer that is gone.
    pub fn layer_active(&self, layer: u64) -> (r: bool)
        requires
            self@.wf(),
        ensures
            r == (has_key(self@.layers, layer) && self@.layers[position(self@.layers, layer)].1.active),
    {
        let ghost ls = self@.layers;
        let ghost es = layer_entries(self.to_display);
        match layers_index_of(&self.to_display, layer) {
            None => {
                proof {
                    assert forall|i: int| 0 <= i < ls.len() implies (#[trigger] ls[i]).0 != layer by {
                        assert(ls[i].0 == es[i].0);
                    }
                }
                false
            },
            Some(i) => {
                proof {
                    assert(ls[i as int].0 == layer);
                    lemma_position(ls, layer, i as int);
                }
                let (_, l) = layer_at(&self.to_display, i);
                l.is_active()
            },
        }
    }

    /// Adds a widget built from `config` to the layer of `layer`, once the
    /// pending messages are applied. Fails when that layer is gone.
    pub fn add_widget<R, C: WidgetConfig<R>>(&mut self, config: C, layer: &LayerId) -> (r: Result<
        Response<R>,
        LayerNotFound,
    >)
        requires
            old(self)@.wf(),
            has_key(old(self)@.drained().layers, layer.spec_id()) ==> old(self)@.drained().layers[position(
                old(self)@.drained().layers,
                layer.spec_id(),
            )].1.next_id < u64::MAX,
        ensures
            final(self)@.wf(),
            !has_key(old(self)@.drained().layers, layer.spec_id()) ==> r is Err && final(self)@
                == old(self)@.drained(),
            has_key(old(self)@.drained().layers, layer.spec_id()) ==> (r matches Ok(resp) && widget_added(config, old(self)@.drained(), layer.spec_id(), resp, final(self)@)),
    {
        self.handle_extern_events();
        let id = layer.id();
        let ghost d = self@;
        let ghost ls = d.layers;
        let ghost es = layer_entries(self.to_display);
        match layers_index_of(&self.to_display, id) {
            None => {
                proof {
                    assert forall|i: int| 0 <= i < ls.len() implies (#[trigger] ls[i]).0 != id by {
                        assert(ls[i].0 == es[i].0);
                    }
                }
                Err(LayerNotFound)
            },
            Some(i) => {
                proof {
                    assert(ls[i as int].0 == id);
                    lemma_position(ls, id, i as int);
                }
                let (widget, channel) = config.to_widget();
                let setup = widget.setup();
                let ghost w = widget;
                let l = layer_at_mut(&mut self.to_display, i);
                let nid = l.insert(widget);
                proof {
                    let old_l = ls[i as int].1;
                    let nl = LayerView { next_id: nid, widgets: old_l.widgets.push((nid, w)), ..old_l };
                    assert(layers_view(self.to_display) =~= ls.update(i as int, (id, nl)));
                    lemma_push_keys(old_l.widgets, nid, w, old_l.next_id);
                    lemma_update_layers(ls, i as int, nl);
                }
                self.apply_layer_instructions(&setup);
                proof {
                    assert(self@ == with_added(d, i as int, nid, w));
                }
                Ok(Response { channel, id: WidgetId::new(id, nid) })
            },
        }
    }
}

impl LayerId {
    /// Adds a widget to this token's layer; see `Context::add_widget`.
    pub fn add_widget<R, C: WidgetConfig<R>>(&self, context: &mut Context, config: C) -> (r: Result<
        Response<R>,
        LayerNotFound,
    >)
        requires
            old(context)@.wf(),
            has_key(old(context)@.drained().layers, self.spec_id()) ==> old(context)@.drained().layers[position(
                old(context)@.drained().layers,
                self.spec_id(),
            )].1.next_id < u64::MAX,
        ensures
            final(context)@.wf(),
            !has_key(old(context)@.drained().layers, self.spec_id()) ==> r is Err && final(context)@
                == old(context)@.drained(),
            has_key(old(context)@.drained().layers, self.spec_id()) ==> (r matches Ok(resp) && widget_added(config, old(context)@.drained(), self.spec_id(), resp, final(context)@)),
    {
        context.add_widget(config, self)
    }

    /// Asks for this token's layer to be shown or hidden; it takes effect at
    /// the next event or render.
    pub fn set_is_active(&self, context: &mut Context, is_active: bool)
        ensures
            final(context)@ == (ContextView {
                layer_msgs: old(context)@.layer_msgs.push((self.spec_id(), LayerInstruction::SetActive(is_active))),
                ..old(context)@
            }),
    {
        context.set_layer_active(self.id(), is_active)
    }

    /// Whether this token's layer is shown, as of the last event or render.
    pub fn get_active(&self, context: &Context) -> (r: bool)
        requires
            context@.wf(),
        ensures
            r == (has_key(context@.layers, self.spec_id()) && context@.layers[position(
                context@.layers,
                self.spec_id(),
            )].1.active),
    {
        context.layer_active(self.id())
    }
}

impl SingularLayerId {
    /// Adds a widget to this token's layer; see `Context::add_widget`.
    pub fn add_widget<R, C: WidgetConfig<R>>(&mut self, context: &mut Context, config: C) -> (r: Result<
        Response<R>,
        LayerNotFound,
    >)
        requires
            old(context)@.wf(),
            has_key(old(context)@.drained().layers, old(self).spec_id()) ==> old(context)@.drained().layers[position(
                old(context)@.drained().layers,
                old(self).spec_id(),
            )].1.next_id < u64::MAX,
        ensures
            final(self).spec_id() == old(self).spec_id(),
            final(context)@.wf(),
            !has_key(old(context)@.drained().layers, old(self).spec_id()) ==> r is Err && final(context)@
                == old(context)@.drained(),
            has_key(old(context)@.drained().layers, old(self).spec_id()) ==> (r matches Ok(resp) && widget_added(config, old(context)@.drained(), old(self).spec_id(), resp, final(context)@)),
    {
        context.add_widget(config, self.as_layer_id())
    }

    /// Whether this token's layer is shown, as of the last event or render.
    pub fn get_active(&self, context: &Context) -> (r: bool)
        requires
            context@.wf(),
        ensures
            r == (has_key(context@.layers, self.spec_id()) && context@.layers[position(
                context@.layers,
                self.spec_id(),
            )].1.active),
    {
        context.layer_active(self.id())
    }

    /// Asks for this token's layer to be shown or hidden.
    pub fn set_is_active(&mut self, context: &mut Context, is_active: bool)
        ensures
            final(self).spec_id() == old(self).spec_id(),
            final(context)@ == (ContextView {
                layer_msgs: old(context)@.layer_msgs.push((old(self).spec_id(), LayerInstruction::SetActive(is_active))),
                ..old(context)@
            }),
    {
        context.set_layer_active(self.id(), is_active)
    }
}


impl Context {
    /// The topmost reachable widget under `p`, the cursor over it, and the
    /// last reachable widget under `p` that can take focus.
    fn find_top(&self, p: Vector) -> (r: (Option<(u64, u64)>, CursorIcon, Option<(u64, u64)>))
        ensures
            r.0 == top_of(self@.layers, p),
            r.1 == cursor_of(self@.layers, p),
            r.2 == focus_top_of(self@.layers, p),
    {
        let ghost ls = self@.layers;
        let mut top: Option<(u64, u64)> = None;
        let mut cursor = CursorIcon::Default;
        let mut ftop: Option<(u64, u64)> = None;
        let n = layers_len(&self.to_display);
        let mut i: usize = 0;
        while i < n
            invariant
                n == ls.len(),
                ls == self@.layers,
                i <= n,
                hit_state(visible(ls.take(i as int)), p, top, cursor, ftop),
            decreases n - i,
        {
            let (lid, layer) = layer_at(&self.to_display, i);
            proof {
                assert(ls[i as int] == (lid, layer@));
                lemma_visible_take(ls, i as int);
            }
            let ghost pre = visible(ls.take(i as int));
            let ghost items = layer_items(lid, layer@);
            if layer.is_active() {
                let m = widgets_len(&layer.widgets);
                let mut j: usize = 0;
                while j < m
                    invariant
                        m == layer@.widgets.len(),
                        layer@.active,
                        items == layer_items(lid, layer@),
                        j <= m,
                        hit_state(pre + items.take(j as int), p, top, cursor, ftop),
                    decreases m - j,
                {
                    let (wid, w) = widget_at(&layer.widgets, j);
                    let ghost s = pre + items.take(j as int);
                    let ghost x = (lid, wid, *w);
                    proof {
                        assert(items[j as int] == x);
                        assert(s.push(x) =~= pre + items.take(j + 1));
                        lemma_last_hit_push(s, x, p);
                        lemma_last_focus_hit_push(s, x, p);
                    }
                    if w.contains(p) {
                        top = Some((lid, wid));
                        cursor = w.cursor_icon(p);
                        if w.is_focusable(p) {
                            ftop = Some((lid, wid));
                        }
                    }
                    proof {
                        crate::model::lemma_last_hit(s, p);
                        crate::model::lemma_last_focus_hit(s, p);
                        assert(hit_state(s.push(x), p, top, cursor, ftop));
                    }
                    j = j + 1;
                }
                proof {
                    assert(items.take(m as int) =~= items);
                }
            } else {
                proof {
                    assert(pre + items =~= pre);
                }
            }
            i = i + 1;
        }
        proof {
            assert(ls.take(n as int) =~= ls);
        }
        (top, cursor, ftop)
    }

    /// Sets the hover state of every reachable widget.
    fn hover_all(&mut self, p: Vector, top: Option<(u64, u64)>)
        requires
            old(self)@.wf(),
        ensures
            layers_related(old(self)@.layers, final(self)@.layers, hover_rel(p, top)),
            final(self)@ == (ContextView { layers: final(self)@.layers, ..old(self)@ }),
            final(self)@.wf(),
    {
        let ghost ls = old(self)@.layers;
        let n = layers_len(&self.to_display);
        let mut i: usize = 0;
        while i < n
            invariant
                n == ls.len(),
                i <= n,
                self@ == (ContextView { layers: self@.layers, ..old(self)@ }),
                self@.layers.len() == n,
                forall|k: int|
                    0 <= k < i ==> (#[trigger] self@.layers[k]).0 == ls[k].0 && layer_related(
                        ls[k].0,
                        ls[k].1,
                        self@.layers[k].1,
                        hover_rel(p, top),
                    ),
                forall|k: int| i <= k < n ==> #[trigger] self@.layers[k] == ls[k],
            decreases n - i,
        {
            let ghost before = self@.layers;
            let (lid, _) = layer_at(&self.to_display, i);
            proof {
                assert(before[i as int] == ls[i as int]);
                assert(before[i as int].0 == lid);
            }
            let layer = layer_at_mut(&mut self.to_display, i);
            let ghost before_l = layer@;
            proof {
                assert(before_l == ls[i as int].1);
            }
            layer.hover_widgets(lid, p, top);
            let ghost after_l = layer@;
            proof {
                assert(self@.layers =~= before.update(i as int, (lid, after_l)));
                assert(lid == ls[i as int].0);
                assert(layer_related(lid, ls[i as int].1, after_l, hover_rel(p, top)));
            }
            i = i + 1;
        }
        proof {
            lemma_related_wf(ls, self@.layers, hover_rel(p, top), self.last_layer_id);
        }
    }

    /// Takes focus from the reachable widgets that a press at `p` leaves.
    fn unfocus_all(&mut self, p: Vector, top: Option<(u64, u64)>)
        requires
            old(self)@.wf(),
        ensures
            layers_related(old(self)@.layers, final(self)@.layers, unfocus_rel(p, top)),
            final(self)@ == (ContextView { layers: final(self)@.layers, ..old(self)@ }),
            final(self)@.wf(),
    {
        let ghost ls = old(self)@.layers;
        let n = layers_len(&self.to_display);
        let mut i: usize = 0;
        while i < n
            invariant
                n == ls.len(),
                i <= n,
                self@ == (ContextView { layers: self@.layers, ..old(self)@ }),
                self@.layers.len() == n,
                forall|k: int|
                    0 <= k < i ==> (#[trigger] self@.layers[k]).0 == ls[k].0 && layer_related(
                        ls[k].0,
                        ls[k].1,
                        self@.layers[k].1,
                        unfocus_rel(p, top),
                    ),
                forall|k: int| i <= k < n ==> #[trigger] self@.layers[k] == ls[k],
            decreases n - i,
        {
            let ghost before = self@.layers;
            let (lid, _) = layer_at(&self.to_display, i);
            proof {
                assert(before[i as int] == ls[i as int]);
                assert(before[i as int].0 == lid);
            }
            let layer = layer_at_mut(&mut self.to_display, i);
            let ghost before_l = layer@;
            proof {
                assert(before_l == ls[i as int].1);
            }
            layer.unfocus_widgets(lid, p, top);
            let ghost after_l = layer@;
            proof {
                assert(self@.layers =~= before.update(i as int, (lid, after_l)));
                assert(lid == ls[i as int].0);
                assert(layer_related(lid, ls[i as int].1, after_l, unfocus_rel(p, top)));
            }
            i = i + 1;
        }
        proof {
            lemma_related_wf(ls, self@.layers, unfocus_rel(p, top), self.last_layer_id);
        }
    }

    /// Where the widget numbered `w` of layer `l` is, if both are there.
    fn locate(&self, l: u64, w: u64) -> (r: Option<(usize, usize)>)
        requires
            self@.wf(),
        ensures
            r is None ==> !(has_key(self@.layers, l) && has_key(
                self@.layers[position(self@.layers, l)].1.widgets,
                w,
            )),
            r matches Some(ij) ==> {
                &&& has_key(self@.layers, l)
                &&& ij.0 == position(self@.layers, l)
                &&& has_key(self@.layers[ij.0 as int].1.widgets, w)
                &&& ij.1 == position(self@.layers[ij.0 as int].1.widgets, w)
                &&& ij.0 < self@.layers.len()
                &&& ij.1 < self@.layers[ij.0 as int].1.widgets.len()
            },
    {
        let ghost ls = self@.layers;
        let ghost es = layer_entries(self.to_display);
        match layers_index_of(&self.to_display, l) {
            None => {
                proof {
                    assert forall|i: int| 0 <= i < ls.len() implies (#[trigger] ls[i]).0 != l by {
                        assert(ls[i].0 == es[i].0);
                    }
                }
                None
            },
            Some(i) => {
                proof {
                    assert(ls[i as int].0 == l);
                    lemma_position(ls, l, i as int);
                }
                let (_, layer) = layer_at(&self.to_display, i);
                let ghost ws = layer@.widgets;
                match widgets_index_of(&layer.widgets, w) {
                    None => None,
                    Some(j) => {
                        proof {
                            lemma_position(ws, w, j as int);
                        }
                        Some((i, j))
                    },
                }
            },
        }
    }

    /// Gives the widget at `i`, `j` focus if asked, then a click at `p`.
    fn click_at(&mut self, l: u64, w: u64, i: usize, j: usize, p: Vector, give_focus: bool) -> (r: Vec<
        (u64, LayerInstruction),
    >)
        requires
            old(self)@.wf(),
            has_key(old(self)@.layers, l),
            i == position(old(self)@.layers, l),
            has_key(old(self)@.layers[i as int].1.widgets, w),
            j == position(old(self)@.layers[i as int].1.widgets, w),
            i < old(self)@.layers.len(),
            j < old(self)@.layers[i as int].1.widgets.len(),
        ensures
            updated_at(old(self)@.layers, l, w, final(self)@.layers, click_rel(p, r@)),
            final(self)@ == (ContextView { layers: final(self)@.layers, ..old(self)@ }),
            final(self)@.wf(),
    {
        let ghost ls = old(self)@.layers;
        let layer = layer_at_mut(&mut self.to_display, i);
        let widget = widget_at_mut(&mut layer.widgets, j);
        let ghost a = *widget;
        if give_focus {
            widget.set_focus(p, true);
        }
        proof {
            assert(*widget == a);
        }
        let cmds = widget.on_click(p);
        let ghost b = *widget;
        proof {
            let ws = ls[i as int].1.widgets;
            assert(self@.layers =~= ls.update(
                i as int,
                (l, LayerView { widgets: ws.update(j as int, (w, b)), ..ls[i as int].1 }),
            ));
            lemma_update_widget(ls, i as int, j as int, b, self.last_layer_id);
        }
        cmds
    }

    /// Hands a key to the widget at `i`, `j`.
    fn key_at(&mut self, l: u64, w: u64, i: usize, j: usize, key: Key, down: bool)
        requires
            old(self)@.wf(),
            has_key(old(self)@.layers, l),
            i == position(old(self)@.layers, l),
            has_key(old(self)@.layers[i as int].1.widgets, w),
            j == position(old(self)@.layers[i as int].1.widgets, w),
            i < old(self)@.layers.len(),
            j < old(self)@.layers[i as int].1.widgets.len(),
        ensures
            updated_at(old(self)@.layers, l, w, final(self)@.layers, key_rel(key, down)),
            final(self)@ == (ContextView { layers: final(self)@.layers, ..old(self)@ }),
            final(self)@.wf(),
    {
        let ghost ls = old(self)@.layers;
        let layer = layer_at_mut(&mut self.to_display, i);
        let widget = widget_at_mut(&mut layer.widgets, j);
        widget.on_key_press(key, down);
        let ghost b = *widget;
        proof {
            let ws = ls[i as int].1.widgets;
            assert(self@.layers =~= ls.update(
                i as int,
                (l, LayerView { widgets: ws.update(j as int, (w, b)), ..ls[i as int].1 }),
            ));
            lemma_update_widget(ls, i as int, j as int, b, self.last_layer_id);
        }
    }

    /// Hands a typed character to the widget at `i`, `j`.
    fn typed_at(&mut self, l: u64, w: u64, i: usize, j: usize, c: char)
        requires
            old(self)@.wf(),
            has_key(old(self)@.layers, l),
            i == position(old(self)@.layers, l),
            has_key(old(self)@.layers[i as int].1.widgets, w),
            j == position(old(self)@.layers[i as int].1.widgets, w),
            i < old(self)@.layers.len(),
            j < old(self)@.layers[i as int].1.widgets.len(),
        ensures
            updated_at(old(self)@.layers, l, w, final(self)@.layers, typed_rel(c)),
            final(self)@ == (ContextView { layers: final(self)@.layers, ..old(self)@ }),
            final(self)@.wf(),
    {
        let ghost ls = old(self)@.layers;
        let layer = layer_at_mut(&mut self.to_display, i);
        let widget = widget_at_mut(&mut layer.widgets, j);
        widget.on_typed(c);
        let ghost b = *widget;
        proof {
            let ws = ls[i as int].1.widgets;
            assert(self@.layers =~= ls.update(
                i as int,
                (l, LayerView { widgets: ws.update(j as int, (w, b)), ..ls[i as int].1 }),
            ));
            lemma_update_widget(ls, i as int, j as int, b, self.last_layer_id);
        }
    }

    /// Gives the widget at `i`, `j` focus; no widget kind changes on it.
    fn focus_at(&mut self, l: u64, w: u64, i: usize, j: usize, p: Vector)
        requires
            old(self)@.wf(),
            has_key(old(self)@.layers, l),
            i == position(old(self)@.layers, l),
            has_key(old(self)@.layers[i as int].1.widgets, w),
            j == position(old(self)@.layers[i as int].1.widgets, w),
            i < old(self)@.layers.len(),
            j < old(self)@.layers[i as int].1.widgets.len(),
        ensures
            final(self)@ == old(self)@,
    {
        let ghost ls = old(self)@.layers;
        let layer = layer_at_mut(&mut self.to_display, i);
        let widget = widget_at_mut(&mut layer.widgets, j);
        let ghost a = *widget;
        widget.set_focus(p, true);
        proof {
            assert(*widget == a);
            let ws = ls[i as int].1.widgets;
            assert(ws.update(j as int, (w, a)) =~= ws);
            assert(self@.layers =~= ls);
        }
    }

    /// A press of the left button at the pointer. Over empty space nothing
    /// changes, the focus included. Otherwise the last widget under the
    /// pointer that can take focus takes it (if it does not have it) and
    /// becomes the focus, or the focus goes to none when no widget there can
    /// take it; every other widget away from the pointer, or under it and
    /// focusable, loses focus; the topmost widget under the pointer is
    /// clicked.
    fn press(&mut self)
        requires
            old(self)@.wf(),
        ensures
            final(self)@.wf(),
            final(self)@.focus == (if top_of(old(self)@.layers, old(self)@.pointer) is Some {
                focus_top_of(old(self)@.layers, old(self)@.pointer)
            } else {
                old(self)@.focus
            }),
            final(self)@.pointer == old(self)@.pointer,
            final(self)@.last_layer_id == old(self)@.last_layer_id,
            final(self)@.widget_msgs == old(self)@.widget_msgs,
            final(self)@.left_down == old(self)@.left_down,
            exists|mid: Seq<(u64, LayerView)>, cmds: Seq<(u64, LayerInstruction)>|
                #[trigger] press_done(old(self)@, final(self)@, mid, cmds),
    {
        let p = self.mouse_cursor;
        let ghost d = self@;
        let (top, _, ftop) = self.find_top(p);
        let t = match top {
            None => {
                proof {
                    assert(d.layer_msgs + Seq::<(u64, LayerInstruction)>::empty() =~= d.layer_msgs);
                    assert(press_done(d, self@, d.layers, seq![]));
                }
                return;
            },
            Some(t) => t,
        };
        let previous = self.widget_with_focus;
        let located = self.locate(t.0, t.1);
        let flocated = match ftop {
            Some(f) => self.locate(f.0, f.1),
            None => None,
        };
        proof {
            let vis = visible(d.layers);
            crate::model::lemma_last_hit(vis, p);
            let k = last_hit(vis, p)->0;
            crate::model::lemma_visible_present(d.layers, k);
            crate::model::lemma_last_focus_hit(vis, p);
            if let Some(kf) = last_focus_hit(vis, p) {
                crate::model::lemma_visible_present(d.layers, kf);
            }
        }
        self.widget_with_focus = ftop;
        self.unfocus_all(p, ftop);
        let ghost mid = self@.layers;
        let changed = match (previous, ftop) {
            (Some(a), Some(b)) => a.0 != b.0 || a.1 != b.1,
            (None, Some(_)) => true,
            _ => false,
        };
        let ftop_is_top = match ftop {
            Some(f) => f.0 == t.0 && f.1 == t.1,
            None => false,
        };
        if changed && !ftop_is_top {
            if let (Some(f), Some((fi, fj))) = (ftop, flocated) {
                proof {
                    crate::model::lemma_related_keys(d.layers, mid, unfocus_rel(p, ftop), fi as int, fj as int);
                }
                self.focus_at(f.0, f.1, fi, fj, p);
            }
        }
        match located {
            Some((i, j)) => {
                proof {
                    crate::model::lemma_related_keys(d.layers, mid, unfocus_rel(p, ftop), i as int, j as int);
                }
                let mut cmds = self.click_at(t.0, t.1, i, j, p, changed && ftop_is_top);
                let ghost c = cmds@;
                self.layer_channel.append(&mut cmds);
                proof {
                    assert(press_done(d, self@, mid, c));
                }
            },
            None => {},
        }
    }

    /// Handles one input event once the pending messages are applied. A
    /// pointer move returns the cursor icon for the host to show.
    pub fn event(&mut self, event: &Event) -> (r: Option<CursorIcon>)
        requires
            old(self)@.wf(),
        ensures
            final(self)@.wf(),
            event_done(old(self)@.drained(), *event, final(self)@, r),
    {
        self.handle_extern_events();
        let ghost d = self@;
        match *event {
            Event::PointerMoved(p) => {
                let (top, cursor, _) = self.find_top(p);
                self.hover_all(p, top);
                self.mouse_cursor = p;
                proof {
                    assert(self@ == (ContextView { layers: self@.layers, pointer: p, ..d }));
                }
                Some(cursor)
            },
            Event::PointerInput { left, down } => {
                if !left || (down && self.left_mouse_button_down) || (!down
                    && !self.left_mouse_button_down) {
                    return None;
                }
                if !down {
                    self.left_mouse_button_down = false;
                    return None;
                }
                self.press();
                self.left_mouse_button_down = true;
                proof {
                    let a = self@;
                    assert forall|mid: Seq<(u64, LayerView)>, cmds: Seq<(u64, LayerInstruction)>|
                        #[trigger] press_done(d, ContextView { left_down: false, ..a }, mid, cmds)
                        implies press_done(d, a, mid, cmds) by {}
                }
                None
            },
            Event::KeyboardInput { key, down } => {
                if let Some(f) = self.widget_with_focus {
                    if self.layer_active(f.0) {
                        if let Some((i, j)) = self.locate(f.0, f.1) {
                            self.key_at(f.0, f.1, i, j, key, down);
                        }
                    }
                }
                None
            },
            Event::ReceivedCharacter(c) => {
                if let Some(f) = self.widget_with_focus {
                    if self.layer_active(f.0) {
                        if let Some((i, j)) = self.locate(f.0, f.1) {
                            self.typed_at(f.0, f.1, i, j, c);
                        }
                    }
                }
                None
            },
            Event::Other => None,
        }
    }
}


impl Context {
    /// Lists what to draw, once the pending messages are applied: every
    /// widget of every shown layer, layers in the order they were added and
    /// widgets in the order they were added to their layer, numbered in that
    /// order from zero.
    pub fn render(&mut self) -> (r: Vec<RenderedWidget>)
        requires
            old(self)@.wf(),
        ensures
            final(self)@ == old(self)@.drained(),
            final(self)@.wf(),
            frame_of(visible(final(self)@.layers), r@),
    {
        self.handle_extern_events();
        let ghost ls = self@.layers;
        let mut out: Vec<RenderedWidget> = Vec::new();
        let n = layers_len(&self.to_display);
        let mut i: usize = 0;
        while i < n
            invariant
                n == ls.len(),
                ls == self@.layers,
                i <= n,
                frame_of(visible(ls.take(i as int)), out@),
            decreases n - i,
        {
            let (lid, layer) = layer_at(&self.to_display, i);
            proof {
                assert(ls[i as int] == (lid, layer@));
                lemma_visible_take(ls, i as int);
            }
            let ghost pre = visible(ls.take(i as int));
            let ghost items = layer_items(lid, layer@);
            if layer.is_active() {
                let m = widgets_len(&layer.widgets);
                let mut j: usize = 0;
                while j < m
                    invariant
                        m == layer@.widgets.len(),
                        layer@.active,
                        items == layer_items(lid, layer@),
                        j <= m,
                        frame_of(pre + items.take(j as int), out@),
                    decreases m - j,
                {
                    let (wid, w) = widget_at(&layer.widgets, j);
                    let ops = w.render();
                    proof {
                        assert(items[j as int] == (lid, wid, *w));
                    }
                    let order = out.len() as u64;
                    out.push(RenderedWidget { order, layer: lid, widget: wid, ops });
                    proof {
                        assert((pre + items.take(j as int)).push(items[j as int]) =~= pre + items.take(j + 1));
                    }
                    j = j + 1;
                }
                proof {
                    assert(items.take(m as int) =~= items);
                }
            } else {
                proof {
                    assert(pre + items =~= pre);
                }
            }
            i = i + 1;
        }
        proof {
            assert(ls.take(n as int) =~= ls);
        }
        out
    }

    /// The widget of a token, if it is still there (as of the last event or
    /// render).
    pub fn widget(&self, id: &WidgetId) -> (r: Option<&Widget>)
        requires
            self@.wf(),
        ensures
            r matches Some(w) ==> widget_of(self@.layers, id.spec_layer(), id.spec_id()) == Some(*w),
            r is None ==> widget_of(self@.layers, id.spec_layer(), id.spec_id()) is None,
    {
        match self.locate(id.layer(), id.id()) {
            None => None,
            Some((i, j)) => {
                let (_, layer) = layer_at(&self.to_display, i);
                let (_, w) = widget_at(&layer.widgets, j);
                Some(w)
            },
        }
    }

    /// Hands the clicks that the widget of `id` holds over to `into`.
    pub fn take_clicks(&mut self, id: &WidgetId, into: &mut BasicClickable)
        requires
            old(self)@.wf(),
        ensures
            final(self)@.wf(),
            final(self)@ == (ContextView { layers: final(self)@.layers, ..old(self)@ }),
            updated_at(
                old(self)@.layers,
                id.spec_layer(),
                id.spec_id(),
                final(self)@.layers,
                |a: Widget, b: Widget| b == a.cleared(),
            ),
            final(into)@ == joined(
                old(into)@,
                match widget_of(old(self)@.layers, id.spec_layer(), id.spec_id()) {
                    Some(w) => w.clicks(),
                    None => 0,
                },
            ),
    {
        let ghost ls = old(self)@.layers;
        match self.locate(id.layer(), id.id()) {
            None => {
                proof {
                    into.lemma_bound();
                    assert(joined(into@, 0) == into@);
                }
            },
            Some((i, j)) => {
                let layer = layer_at_mut(&mut self.to_display, i);
                let widget = widget_at_mut(&mut layer.widgets, j);
                widget.take_clicks(into);
                let ghost b = *widget;
                proof {
                    let ws = ls[i as int].1.widgets;
                    assert(self@.layers =~= ls.update(
                        i as int,
                        (id.spec_layer(), LayerView { widgets: ws.update(j as int, (id.spec_id(), b)), ..ls[i as int].1 }),
                    ));
                    lemma_update_widget(ls, i as int, j as int, b, self.last_layer_id);
                }
            },
        }
    }

    /// Whether the widget of `response` was clicked since the last call:
    /// its clicks are handed over to the response's channel, which reports
    /// them once.
    pub fn has_clicked(&mut self, response: &mut Response<BasicClickable>) -> (r: bool)
        requires
            old(self)@.wf(),
        ensures
            final(self)@.wf(),
            final(self)@ == (ContextView { layers: final(self)@.layers, ..old(self)@ }),
            updated_at(
                old(self)@.layers,
                old(response).id.spec_layer(),
                old(response).id.spec_id(),
                final(self)@.layers,
                |a: Widget, b: Widget| b == a.cleared(),
            ),
            r == (joined(
                old(response).channel@,
                match widget_of(old(self)@.layers, old(response).id.spec_layer(), old(response).id.spec_id()) {
                    Some(w) => w.clicks(),
                    None => 0,
                },
            ) > 0),
            final(response).channel@ == 0,
            final(response).id == old(response).id,
    {
        self.take_clicks(&response.id, &mut response.channel);
        response.channel.has_clicked()
    }
}


impl Context {
    /// The value selected in the drop-down of `id`; none when nothing is
    /// selected or `id` is no drop-down.
    pub fn dropdown_value(&self, id: &WidgetId) -> (r: Option<u64>)
        requires
            self@.wf(),
        ensures
            r == (match widget_of(self@.layers, id.spec_layer(), id.spec_id()) {
                Some(Widget::DropDown(d)) => d.spec_value(),
                _ => None,
            }),
    {
        match self.widget(id) {
            Some(Widget::DropDown(d)) => d.get_value(),
            _ => None,
        }
    }

    /// Whether the drop-down of `id` is open.
    pub fn dropdown_is_open(&self, id: &WidgetId) -> (r: bool)
        requires
            self@.wf(),
        ensures
            r == (match widget_of(self@.layers, id.spec_layer(), id.spec_id()) {
                Some(Widget::DropDown(d)) => d.is_open,
                _ => false,
            }),
    {
        match self.widget(id) {
            Some(Widget::DropDown(d)) => d.is_open(),
            _ => false,
        }
    }

    /// The text of the text field of `id`.
    pub fn input_value(&self, id: &WidgetId) -> (r: Option<String>)
        requires
            self@.wf(),
        ensures
            match widget_of(self@.layers, id.spec_layer(), id.spec_id()) {
                Some(Widget::Input(i)) => r matches Some(v) && v@ == i.value@,
                _ => r is None,
            },
    {
        match self.widget(id) {
            Some(Widget::Input(i)) => Some(i.value.get()),
            _ => None,
        }
    }

    /// Replaces the text of the text field of `id` with `value`, normalized;
    /// returns whether `id` is a text field.
    pub fn set_input_value(&mut self, id: &WidgetId, value: String) -> (r: bool)
        requires
            old(self)@.wf(),
        ensures
            final(self)@.wf(),
            final(self)@ == (ContextView { layers: final(self)@.layers, ..old(self)@ }),
            r == (widget_of(old(self)@.layers, id.spec_layer(), id.spec_id()) matches Some(
                Widget::Input(_),
            )),
            updated_at(
                old(self)@.layers,
                id.spec_layer(),
                id.spec_id(),
                final(self)@.layers,
                |a: Widget, b: Widget|
                    match a {
                        Widget::Input(ia) => b matches Widget::Input(ib) && ib.config == ia.config
                            && ib.cursor_at_from_left == ia.cursor_at_from_left && ib.value@ == nfc_of(
                            value@,
                        ),
                        _ => b == a,
                    },
            ),
    {
        let ghost ls = old(self)@.layers;
        match self.locate(id.layer(), id.id()) {
            None => false,
            Some((i, j)) => {
                let layer = layer_at_mut(&mut self.to_display, i);
                let widget = widget_at_mut(&mut layer.widgets, j);
                let r = match widget {
                    Widget::Input(inp) => {
                        inp.value.set(value);
                        true
                    },
                    _ => false,
                };
                let ghost b = *widget;
                proof {
                    let ws = ls[i as int].1.widgets;
                    assert(self@.layers =~= ls.update(
                        i as int,
                        (id.spec_layer(), LayerView { widgets: ws.update(j as int, (id.spec_id(), b)), ..ls[i as int].1 }),
                    ));
                    lemma_update_widget(ls, i as int, j as int, b, self.last_layer_id);
                }
                r
            },
        }
    }

    /// The open panel of the panel manager of `id`.
    pub fn active_concealer(&self, id: &WidgetId) -> (r: Option<usize>)
        requires
            self@.wf(),
        ensures
            r == (match widget_of(self@.layers, id.spec_layer(), id.spec_id()) {
                Some(Widget::ConcealerManager(m)) => m.active,
                _ => None,
            }),
    {
        match self.widget(id) {
            Some(Widget::ConcealerManager(m)) => m.get_current_active(),
            _ => None,
        }
    }

    /// Chooses the open panel of the panel manager of `id`, without showing
    /// or hiding any layer; returns whether `id` is a panel manager.
    pub fn set_active_concealer(&mut self, id: &WidgetId, new_active: Option<usize>) -> (r: bool)
        requires
            old(self)@.wf(),
        ensures
            final(self)@.wf(),
            final(self)@ == (ContextView { layers: final(self)@.layers, ..old(self)@ }),
            r == (widget_of(old(self)@.layers, id.spec_layer(), id.spec_id()) matches Some(
                Widget::ConcealerManager(_),
            )),
            updated_at(
                old(self)@.layers,
                id.spec_layer(),
                id.spec_id(),
                final(self)@.layers,
                |a: Widget, b: Widget|
                    match a {
                        Widget::ConcealerManager(ma) => b matches Widget::ConcealerManager(mb)
                            && mb.concealers@ == ma.concealers@ && mb.active == new_active,
                        _ => b == a,
                    },
            ),
    {
        let ghost ls = old(self)@.layers;
        match self.locate(id.layer(), id.id()) {
            None => false,
            Some((i, j)) => {
                let layer = layer_at_mut(&mut self.to_display, i);
                let widget = widget_at_mut(&mut layer.widgets, j);
                let r = match widget {
                    Widget::ConcealerManager(m) => {
                        m.set_active_concealer(new_active);
                        true
                    },
                    _ => false,
                };
                let ghost b = *widget;
                proof {
                    let ws = ls[i as int].1.widgets;
                    assert(self@.layers =~= ls.update(
                        i as int,
                        (id.spec_layer(), LayerView { widgets: ws.update(j as int, (id.spec_id(), b)), ..ls[i as int].1 }),
                    ));
                    lemma_update_widget(ls, i as int, j as int, b, self.last_layer_id);
                }
                r
            },
        }
    }
}

} // verus!
