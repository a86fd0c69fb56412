//! What holds of the library across calls, stated over the model and
//! proved from the contracts of its functions.
use vstd::prelude::*;
use crate::clickable::one_more;
use crate::concealer::{first_hit, is_first_hit, lemma_first_hit, manager_clicked, Concealer, ConcealerManager};
use crate::context::{event_done, hover_rel, press_done, with_added, Event};
use crate::dropdown::{DropDown, DropDownConfig, Dropdown};
use crate::geometry::Vector;
use crate::model::{
    has_key, keys_unique, last_focus_hit, last_hit, layer_items, layer_shown, layers_wf,
    lemma_hide_layer, lemma_last_focus_hit, lemma_last_hit, lemma_layer_msgs_present,
    lemma_position, lemma_visible_present, lemma_visible_related, lemma_widget_msgs_present,
    position, present, top_of, visible, ContextView, LayerView,
};
use crate::responses::LayerInstruction;
use crate::widget::Widget;

verus! {

/// Once the pending messages are drained, a widget is there exactly when
/// it was there before, its token was not given up, and its layer's last
/// token was not given up.
pub proof fn law_drain_keeps_undropped(c: ContextView)
    requires
        c.wf(),
    ensures
        c.drained().wf(),
        forall|l: u64, w: u64|
            #[trigger] present(c.drained().layers, l, w) <==> (present(c.layers, l, w)
                && !c.widget_msgs.contains((l, w)) && !c.layer_msgs.contains(
                (l, LayerInstruction::Drop),
            )),
{
    lemma_layer_msgs_present(c.layers, c.layer_msgs, c.last_layer_id);
    lemma_widget_msgs_present(apply_layer(c), c.widget_msgs, c.last_layer_id);
}

spec fn apply_layer(c: ContextView) -> Seq<(u64, LayerView)> {
    crate::model::apply_layer_msgs(c.layers, c.layer_msgs)
}

/// Once the last token of a layer is given up, the next drain leaves no
/// widget of it to render, whether or not the widgets' own tokens were
/// given up.
pub proof fn law_layer_cascade(c: ContextView, l: u64)
    requires
        c.wf(),
        c.layer_msgs.contains((l, LayerInstruction::Drop)),
    ensures
        forall|w: u64| !(#[trigger] present(c.drained().layers, l, w)),
        forall|k: int|
            0 <= k < visible(c.drained().layers).len() ==> (#[trigger] visible(c.drained().layers)[k]).0
                != l,
{
    law_drain_keeps_undropped(c);
    let d = c.drained().layers;
    assert forall|k: int| 0 <= k < visible(d).len() implies (#[trigger] visible(d)[k]).0 != l by {
        lemma_visible_present(d, k);
        assert(present(d, visible(d)[k].0, visible(d)[k].1));
    }
}

/// No two reachable widgets share their numbers.
pub proof fn lemma_visible_ids_unique(ls: Seq<(u64, LayerView)>)
    requires
        layers_wf(ls),
    ensures
        forall|a: int, b: int|
            0 <= a < visible(ls).len() && 0 <= b < visible(ls).len() && a != b ==> ((#[trigger] visible(
                ls,
            )[a]).0, visible(ls)[a].1) != ((#[trigger] visible(ls)[b]).0, visible(ls)[b].1),
    decreases ls.len(),
{
    if ls.len() > 0 {
        let a0 = ls.drop_last();
        assert(layers_wf(a0)) by {
            assert forall|i: int, j: int| 0 <= i < a0.len() && 0 <= j < a0.len() && i != j implies (#[trigger] a0[i]).0
                != (#[trigger] a0[j]).0 by {
                assert(a0[i] == ls[i] && a0[j] == ls[j]);
            }
            assert forall|i: int| 0 <= i < a0.len() implies keys_unique((#[trigger] a0[i]).1.widgets)
                && crate::model::keys_at_most(a0[i].1.widgets, a0[i].1.next_id) by {
                assert(a0[i] == ls[i]);
            }
        }
        lemma_visible_ids_unique(a0);
        let v = visible(ls);
        let v0 = visible(a0);
        let n = v0.len();
        let last = ls.last();
        assert forall|a: int, b: int|
            0 <= a < v.len() && 0 <= b < v.len() && a != b implies ((#[trigger] v[a]).0, v[a].1) != (
            (#[trigger] v[b]).0,
            v[b].1,
        ) by {
            if a < n && b < n {
                assert(v[a] == v0[a] && v[b] == v0[b]);
            } else if a >= n && b >= n {
                assert(last.1.widgets[a - n].0 != last.1.widgets[b - n].0);
            } else {
                let (x, y) = if a < n { (a, b) } else { (b, a) };
                assert(v[x] == v0[x]);
                lemma_visible_present(a0, x);
                let i = position(a0, v0[x].0);
                assert(a0[i] == ls[i]);
                assert(ls[i].0 != ls[ls.len() - 1].0);
                assert(v[y].0 == last.0);
            }
        }
    }
}

/// A widget that was told it is not hovered reports no hover; one under the
/// pointer that was told it is reports hover when its kind keeps it.
pub proof fn lemma_hover_next(a: Widget, p: Vector, state: bool, b: Widget)
    requires
        a.hover_next(p, state, b),
    ensures
        !state ==> !b.hovered(),
        state && a.spec_contains(p) ==> b.hovered() == a.tracks_hover(),
{
    if let Widget::ConcealerManager(m) = a {
        let cs = m.concealers@;
        lemma_first_hit(cs, p);
        if let Widget::ConcealerManager(n) = b {
            if !state {
                assert forall|i: int| 0 <= i < n.concealers@.len() implies !(#[trigger] n.concealers@[i]).hovered() by {
                }
            } else if a.spec_contains(p) {
                let k = first_hit(cs, p)->0;
                assert(n.concealers@[k].hovered());
            }
        }
    }
}

/// After the pointer moves to `p`, at most one widget reports hover: the
/// topmost reachable one under `p` (when its kind keeps a hover state); no
/// other widget does.
pub proof fn law_hover_exclusive(c: ContextView, p: Vector, after: ContextView, r: Option<crate::draw::CursorIcon>)
    requires
        c.wf(),
        event_done(c.drained(), Event::PointerMoved(p), after, r),
    ensures
        forall|a: int, b: int|
            0 <= a < visible(after.layers).len() && 0 <= b < visible(after.layers).len()
                && (#[trigger] visible(after.layers)[a]).2.hovered() && (#[trigger] visible(
                after.layers,
            )[b]).2.hovered() ==> a == b,
        forall|a: int|
            0 <= a < visible(after.layers).len() && (#[trigger] visible(after.layers)[a]).2.hovered()
                ==> last_hit(visible(c.drained().layers), p) == Some(a),
        last_hit(visible(c.drained().layers), p) matches Some(k) ==> visible(after.layers)[k].2.hovered()
            == visible(c.drained().layers)[k].2.tracks_hover(),
{
    law_drain_keeps_undropped(c);
    let d = c.drained().layers;
    let top = top_of(d, p);
    lemma_visible_related(d, after.layers, hover_rel(p, top));
    lemma_visible_ids_unique(d);
    lemma_last_hit(visible(d), p);
    let vd = visible(d);
    let va = visible(after.layers);
    assert forall|a: int| 0 <= a < va.len() && (#[trigger] va[a]).2.hovered() implies last_hit(vd, p) == Some(a) by {
        lemma_hover_next(vd[a].2, p, top == Some((vd[a].0, vd[a].1)), va[a].2);
        let k = last_hit(vd, p)->0;
        assert(top == Some((vd[k].0, vd[k].1)));
    }
    if let Some(k) = last_hit(vd, p) {
        lemma_hover_next(vd[k].2, p, true, va[k].2);
    }
}

/// A press of the left button over empty space changes nothing, the focus
/// included. A press that lands on a widget gives the focus to the last
/// reachable widget under the pointer that can take it, and to no other; to
/// none when no widget there can take it.
pub proof fn law_press_focus(c: ContextView, after: ContextView, r: Option<crate::draw::CursorIcon>)
    requires
        c.wf(),
        !c.left_down,
        event_done(c.drained(), Event::PointerInput { left: true, down: true }, after, r),
    ensures
        ({
            let d = c.drained();
            let vd = visible(d.layers);
            &&& last_hit(vd, c.pointer) is None ==> after.focus == c.focus && after.layers == d.layers
                && after.layer_msgs == d.layer_msgs
            &&& last_hit(vd, c.pointer) is Some ==> match last_focus_hit(vd, c.pointer) {
                Some(k) => {
                    &&& after.focus == Some((vd[k].0, vd[k].1))
                    &&& vd[k].2.spec_contains(c.pointer)
                    &&& vd[k].2.spec_focusable(c.pointer)
                    &&& forall|m: int|
                        k < m < vd.len() ==> !((#[trigger] vd[m]).2.spec_contains(c.pointer)
                            && vd[m].2.spec_focusable(c.pointer))
                },
                None => after.focus is None,
            }
        }),
{
    let d = c.drained();
    lemma_last_hit(visible(d.layers), c.pointer);
    lemma_last_focus_hit(visible(d.layers), c.pointer);
    let (mid, cmds) = choose|mid: Seq<(u64, LayerView)>, cmds: Seq<(u64, LayerInstruction)>|
        #[trigger] press_done(d, after, mid, cmds);
    if last_hit(visible(d.layers), c.pointer) is None {
        assert(d.layer_msgs + cmds =~= d.layer_msgs);
    }
}

/// Adding a collapsible panel hides its layer at once: its channel reports
/// it concealed before any event or render.
pub proof fn law_panel_starts_hidden(d: ContextView, i: int, nid: u64, panel: Concealer)
    requires
        d.wf(),
        0 <= i < d.layers.len(),
        d.layers[i].1.next_id < nid,
        has_key(d.layers, panel.layer),
    ensures
        has_key(with_added(d, i, nid, Widget::Concealer(panel)).layers, panel.layer),
        !layer_shown(with_added(d, i, nid, Widget::Concealer(panel)).layers, panel.layer),
{
    let w = Widget::Concealer(panel);
    let old_l = d.layers[i].1;
    let nl = LayerView { next_id: nid, widgets: old_l.widgets.push((nid, w)), ..old_l };
    let ls = d.layers.update(i, (d.layers[i].0, nl));
    crate::model::lemma_push_keys(old_l.widgets, nid, w, old_l.next_id);
    crate::model::lemma_update_layers(d.layers, i, nl);
    let j = position(d.layers, panel.layer);
    lemma_position(d.layers, panel.layer, j);
    assert(ls[j].0 == panel.layer);
    lemma_position(ls, panel.layer, j);
    lemma_hide_layer(ls, panel.layer);
}

/// The reachable widgets of the first `m` layers come first, in the same
/// order, among those of all layers.
pub proof fn lemma_visible_prefix(ls: Seq<(u64, LayerView)>, m: int)
    requires
        0 <= m <= ls.len(),
    ensures
        visible(ls.take(m)).len() <= visible(ls).len(),
        forall|k: int| 0 <= k < visible(ls.take(m)).len() ==> #[trigger] visible(ls)[k] == visible(ls.take(m))[k],
    decreases ls.len() - m,
{
    if m == ls.len() {
        assert(ls.take(m) =~= ls);
    } else {
        lemma_visible_prefix(ls, m + 1);
        crate::model::lemma_visible_take(ls, m);
    }
}

/// Within a shown layer, widgets are rendered one after another in the
/// order they were added, after the widgets of earlier layers: the widget
/// at position `j` of layer `i` comes at `base + j` of every frame, for one
/// `base`.
pub proof fn law_draw_order(ls: Seq<(u64, LayerView)>, i: int)
    requires
        0 <= i < ls.len(),
        ls[i].1.active,
    ensures
        ({
            let base = visible(ls.take(i)).len() as int;
            let ws = ls[i].1.widgets;
            &&& base + ws.len() <= visible(ls).len()
            &&& forall|j: int| 0 <= j < ws.len() ==> #[trigger] visible(ls)[base + j] == (ls[i].0, ws[j].0, ws[j].1)
        }),
{
    lemma_visible_prefix(ls, i + 1);
    crate::model::lemma_visible_take(ls, i);
    let base = visible(ls.take(i)).len() as int;
    let ws = ls[i].1.widgets;
    assert forall|j: int| 0 <= j < ws.len() implies #[trigger] visible(ls)[base + j] == (ls[i].0, ws[j].0, ws[j].1) by {
        assert(visible(ls.take(i + 1))[base + j] == layer_items(ls[i].0, ls[i].1)[j]);
    }
}

/// Rendering lists exactly the widgets that are there and whose layer is
/// shown: with the drain law, exactly those whose tokens were not given up.
pub proof fn law_render_lists_present(ls: Seq<(u64, LayerView)>, l: u64, w: u64)
    requires
        layers_wf(ls),
    ensures
        (exists|k: int| 0 <= k < visible(ls).len() && (#[trigger] visible(ls)[k]).0 == l && visible(ls)[k].1 == w)
            <==> (present(ls, l, w) && layer_shown(ls, l)),
{
    if exists|k: int| 0 <= k < visible(ls).len() && (#[trigger] visible(ls)[k]).0 == l && visible(ls)[k].1 == w {
        let k = choose|k: int| 0 <= k < visible(ls).len() && (#[trigger] visible(ls)[k]).0 == l && visible(ls)[k].1 == w;
        lemma_visible_present(ls, k);
        lemma_visible_active(ls, k);
    }
    if present(ls, l, w) && layer_shown(ls, l) {
        let i = position(ls, l);
        let ws = ls[i].1.widgets;
        let j = position(ws, w);
        lemma_position(ls, l, i);
        lemma_position(ws, w, j);
        law_draw_order(ls, i);
        let base = visible(ls.take(i)).len() as int;
        assert(visible(ls)[base + j] == (ls[i].0, ws[j].0, ws[j].1));
    }
}

/// Every reachable widget belongs to a shown layer.
proof fn lemma_visible_active(ls: Seq<(u64, LayerView)>, k: int)
    requires
        layers_wf(ls),
        0 <= k < visible(ls).len(),
    ensures
        layer_shown(ls, visible(ls)[k].0),
    decreases ls.len(),
{
    let a = ls.drop_last();
    let n = visible(a).len();
    let x = visible(ls)[k];
    if k < n {
        assert(layers_wf(a)) by {
            assert forall|i: int, j: int| 0 <= i < a.len() && 0 <= j < a.len() && i != j implies (#[trigger] a[i]).0
                != (#[trigger] a[j]).0 by {
                assert(a[i] == ls[i] && a[j] == ls[j]);
            }
            assert forall|i: int| 0 <= i < a.len() implies keys_unique((#[trigger] a[i]).1.widgets)
                && crate::model::keys_at_most(a[i].1.widgets, a[i].1.next_id) by {
                assert(a[i] == ls[i]);
            }
        }
        lemma_visible_active(a, k);
        assert(visible(a)[k] == x);
        let i = position(a, x.0);
        lemma_position(a, x.0, i);
        assert(a[i] == ls[i]);
        lemma_position(ls, x.0, i);
    } else {
        let i = ls.len() - 1;
        assert(ls[i].1.active);
        assert(x.0 == ls[i].0);
        lemma_position(ls, x.0, i);
    }
}

/// The signals of a channel after `n` more clicks.
pub open spec fn after_clicks(s: nat, n: nat) -> nat
    decreases n,
{
    if n == 0 {
        s
    } else {
        one_more(after_clicks(s, (n - 1) as nat))
    }
}

/// Clicks are never lost between two polls: after a poll (no signal left),
/// `n` clicks leave a signal exactly when `n` is not zero.
pub proof fn law_clicks_durable(n: nat)
    ensures
        (after_clicks(0, n) > 0) == (n > 0),
        after_clicks(0, n) <= u64::MAX,
    decreases n,
{
    if n > 0 {
        law_clicks_durable((n - 1) as nat);
    }
}

/// Two panels under a manager with none open: a click on the first's
/// button opens it; a click on the second's closes the first and opens the
/// second; another click on the second's closes it, leaving none open.
pub proof fn law_panels_exclusive(
    m0: ConcealerManager,
    m1: ConcealerManager,
    m2: ConcealerManager,
    m3: ConcealerManager,
    pa: Vector,
    pb: Vector,
    a: usize,
    b: usize,
    c1: Seq<(u64, LayerInstruction)>,
    c2: Seq<(u64, LayerInstruction)>,
    c3: Seq<(u64, LayerInstruction)>,
)
    requires
        m0.active is None,
        a != b,
        first_hit(m0.concealers@, pa) == Some(a as int),
        first_hit(m0.concealers@, pb) == Some(b as int),
        manager_clicked(m0, pa, m1.concealers@, m1.active, c1),
        manager_clicked(m1, pb, m2.concealers@, m2.active, c2),
        manager_clicked(m2, pb, m3.concealers@, m3.active, c3),
    ensures
        ({
            let la = m0.concealers@[a as int].layer;
            let lb = m0.concealers@[b as int].layer;
            &&& m1.active == Some(a)
            &&& c1 == seq![(la, LayerInstruction::SetActive(true))]
            &&& m2.active == Some(b)
            &&& c2 == seq![(lb, LayerInstruction::SetActive(true)), (la, LayerInstruction::SetActive(false))]
            &&& m3.active is None
            &&& c3 == seq![(lb, LayerInstruction::SetActive(false))]
        }),
{
    let cs0 = m0.concealers@;
    lemma_first_hit(cs0, pa);
    lemma_first_hit(cs0, pb);
    let cs1 = m1.concealers@;
    lemma_clicked_keeps_hits(cs0, a as int, pb);
    assert(first_hit(cs1, pb) == Some(b as int));
    assert(cs1[b as int].layer == cs0[b as int].layer);
    assert(cs1[a as int].layer == cs0[a as int].layer);
    let cs2 = m2.concealers@;
    lemma_clicked_keeps_hits(cs1, b as int, pb);
    assert(first_hit(cs2, pb) == Some(b as int));
    assert(cs2[b as int].layer == cs0[b as int].layer);
}

/// A click on panel `k`'s button changes no button's place, so every point
/// hits the same panel first as before.
proof fn lemma_clicked_keeps_hits(cs: Seq<Concealer>, k: int, p: Vector)
    requires
        0 <= k < cs.len(),
    ensures
        ({
            let after = cs.update(k, Concealer { button: cs[k].button.after_click(), ..cs[k] });
            first_hit(after, p) == first_hit(cs, p)
        }),
{
    let after = cs.update(k, Concealer { button: cs[k].button.after_click(), ..cs[k] });
    assert forall|i: int| 0 <= i < cs.len() implies (#[trigger] after[i]).spec_contains(p) == cs[i].spec_contains(p) by {}
    lemma_first_hit(cs, p);
    lemma_first_hit(after, p);
    assert forall|i: int| is_first_hit(cs, p, i) implies is_first_hit(after, p, i) by {
        assert forall|m: int| 0 <= m < i implies !(#[trigger] after[m].spec_contains(p)) by {
            assert(!cs[m].spec_contains(p));
        }
    }
    assert forall|i: int| is_first_hit(after, p, i) implies is_first_hit(cs, p, i) by {
        assert forall|m: int| 0 <= m < i implies !(#[trigger] cs[m].spec_contains(p)) by {
            assert(!after[m].spec_contains(p));
        }
    }
    if let Some(i) = first_hit(cs, p) {
        assert(is_first_hit(after, p, i));
    } else if let Some(i) = first_hit(after, p) {
        assert(is_first_hit(cs, p, i));
    }
}

/// A drop-down built with `k` selected reports the `k`-th configured value,
/// and so does its channel.
pub proof fn law_dropdown_initial(cfg: DropDownConfig, w: DropDown, ch: Dropdown, k: usize)
    requires
        cfg.built(w, ch),
        cfg.selected == Some(k),
        k < cfg.values@.len(),
    ensures
        w.spec_value() == Some(cfg.values@[k as int].value),
        ch.values@[k as int] == cfg.values@[k as int].value,
{
}

/// A click on row `j` of an open drop-down selects that row and closes the
/// list; the selected value is then the `j`-th one.
pub proof fn law_dropdown_click(d: DropDown, p: Vector, j: usize)
    requires
        d.is_open,
        d.spec_index(p) == Some(j),
        j < d.values@.len(),
    ensures
        d.clicked(p).selected == Some(j),
        !d.clicked(p).is_open,
        d.clicked(p).spec_value() == Some(d.values@[j as int].value),
{
}

/// With no message pending, draining changes nothing: frame after frame,
/// rendering lists the same widgets in the same order.
pub proof fn law_render_stable(c: ContextView)
    requires
        c.layer_msgs.len() == 0,
        c.widget_msgs.len() == 0,
    ensures
        c.drained() == c,
{
    assert(c.layer_msgs =~= seq![]);
    assert(c.widget_msgs =~= seq![]);
}

/// A widget added to a shown layer is reached right after the widgets that
/// were there before it, which keep their order.
pub proof fn law_added_after(lid: u64, l: LayerView, nid: u64, w: Widget)
    requires
        l.active,
    ensures
        layer_items(lid, LayerView { next_id: nid, widgets: l.widgets.push((nid, w)), ..l })
            == layer_items(lid, l).push((lid, nid, w)),
{
    assert(layer_items(lid, LayerView { next_id: nid, widgets: l.widgets.push((nid, w)), ..l })
        =~= layer_items(lid, l).push((lid, nid, w)));
}

} // verus!
