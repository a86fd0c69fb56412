//! The mathematical model of a context: its layers as a sequence of
//! entries, the widgets that rendering and input reach, and the pending
//! messages with what draining them does.
use vstd::prelude::*;
use crate::geometry::Vector;
use crate::responses::LayerInstruction;
use crate::widget::Widget;

verus! {

/// A layer: whether it is shown, the last widget number it gave out, how
/// many tokens stand for it, and its widgets in insertion order.
pub struct LayerView {
    pub active: bool,
    pub next_id: u64,
    pub handles: u64,
    pub widgets: Seq<(u64, Widget)>,
}

/// A context: its layers in insertion order, the focused widget, the last
/// layer number given out, the pointer, and the messages not yet applied.
pub struct ContextView {
    pub layers: Seq<(u64, LayerView)>,
    pub focus: Option<(u64, u64)>,
    pub last_layer_id: u64,
    pub pointer: Vector,
    pub layer_msgs: Seq<(u64, LayerInstruction)>,
    pub widget_msgs: Seq<(u64, u64)>,
    pub left_down: bool,
}

/// Some entry of `s` has key `k`.
pub open spec fn has_key<V>(s: Seq<(u64, V)>, k: u64) -> bool {
    exists|i: int| 0 <= i < s.len() && (#[trigger] s[i]).0 == k
}

/// The position of key `k` in `s`, when it has one.
pub open spec fn position<V>(s: Seq<(u64, V)>, k: u64) -> int {
    choose|i: int| 0 <= i < s.len() && (#[trigger] s[i]).0 == k
}

/// No two entries of `s` share a key.
pub open spec fn keys_unique<V>(s: Seq<(u64, V)>) -> bool {
    forall|i: int, j: int|
        0 <= i < s.len() && 0 <= j < s.len() && i != j ==> (#[trigger] s[i]).0 != (#[trigger] s[j]).0
}

/// Every key of `s` is at most `bound`.
pub open spec fn keys_at_most<V>(s: Seq<(u64, V)>, bound: u64) -> bool {
    forall|i: int| 0 <= i < s.len() ==> (#[trigger] s[i]).0 <= bound
}

/// With unique keys, an entry with key `k` is where `position` points.
pub proof fn lemma_position<V>(s: Seq<(u64, V)>, k: u64, i: int)
    requires
        keys_unique(s),
        0 <= i < s.len(),
        s[i].0 == k,
    ensures
        has_key(s, k),
        position(s, k) == i,
{
    assert(has_key(s, k));
    let j = position(s, k);
    if j != i {
        assert(s[i].0 != s[j].0);
    }
}

/// Layers whose keys are unique and whose widgets' keys are unique and
/// below the layer's counter.
pub open spec fn layers_wf(ls: Seq<(u64, LayerView)>) -> bool {
    &&& keys_unique(ls)
    &&& forall|i: int|
        0 <= i < ls.len() ==> keys_unique((#[trigger] ls[i]).1.widgets) && keys_at_most(
            ls[i].1.widgets,
            ls[i].1.next_id,
        )
}

impl ContextView {
    pub open spec fn wf(self) -> bool {
        &&& layers_wf(self.layers)
        &&& keys_at_most(self.layers, self.last_layer_id)
    }
}

/// The widgets of a layer that rendering and input reach, with their ids.
pub open spec fn layer_items(lid: u64, l: LayerView) -> Seq<(u64, u64, Widget)> {
    if l.active {
        l.widgets.map_values(|e: (u64, Widget)| (lid, e.0, e.1))
    } else {
        seq![]
    }
}

/// The widgets that rendering and input reach, in order: layer by layer,
/// and within a shown layer in insertion order.
pub open spec fn visible(ls: Seq<(u64, LayerView)>) -> Seq<(u64, u64, Widget)>
    decreases ls.len(),
{
    if ls.len() == 0 {
        seq![]
    } else {
        visible(ls.drop_last()) + layer_items(ls.last().0, ls.last().1)
    }
}

/// The position of the last widget of `vis` that contains `p`.
pub open spec fn last_hit(vis: Seq<(u64, u64, Widget)>, p: Vector) -> Option<int>
    decreases vis.len(),
{
    if vis.len() == 0 {
        None
    } else if vis.last().2.spec_contains(p) {
        Some(vis.len() - 1)
    } else {
        last_hit(vis.drop_last(), p)
    }
}

/// The ids of the topmost widget of `ls` under `p`.
pub open spec fn top_of(ls: Seq<(u64, LayerView)>, p: Vector) -> Option<(u64, u64)> {
    match last_hit(visible(ls), p) {
        Some(k) => Some((visible(ls)[k].0, visible(ls)[k].1)),
        None => None,
    }
}

/// A widget under `p` means a last one under `p`, and nothing after it is.
pub proof fn lemma_last_hit(vis: Seq<(u64, u64, Widget)>, p: Vector)
    ensures
        last_hit(vis, p) matches Some(k) ==> 0 <= k < vis.len() && vis[k].2.spec_contains(p) && forall|
            m: int,
        |
            k < m < vis.len() ==> !(#[trigger] vis[m]).2.spec_contains(p),
        last_hit(vis, p) is None ==> forall|m: int|
            0 <= m < vis.len() ==> !(#[trigger] vis[m]).2.spec_contains(p),
    decreases vis.len(),
{
    if vis.len() > 0 {
        let v0 = vis.drop_last();
        lemma_last_hit(v0, p);
        if !vis.last().2.spec_contains(p) {
            assert(last_hit(vis, p) == last_hit(v0, p));
            assert forall|m: int| 0 <= m < vis.len() - 1 implies vis[m] == #[trigger] v0[m] by {}
            if let Some(k) = last_hit(v0, p) {
                assert forall|m: int| k < m < vis.len() implies !(#[trigger] vis[m]).2.spec_contains(p) by {
                    if m < vis.len() - 1 {
                        assert(vis[m] == v0[m]);
                    }
                }
            } else {
                assert forall|m: int| 0 <= m < vis.len() implies !(#[trigger] vis[m]).2.spec_contains(p) by {
                    if m < vis.len() - 1 {
                        assert(vis[m] == v0[m]);
                    }
                }
            }
        }
    }
}

/// The layers after a message: a dropped layer leaves, a shown or hidden
/// one changes its flag; messages for absent layers do nothing.
pub open spec fn apply_layer_msg(ls: Seq<(u64, LayerView)>, m: (u64, LayerInstruction)) -> Seq<
    (u64, LayerView),
> {
    if !has_key(ls, m.0) {
        ls
    } else {
        let i = position(ls, m.0);
        let l = ls[i].1;
        match m.1 {
            LayerInstruction::Drop => ls.remove(i),
            LayerInstruction::SetActive(b) => ls.update(i, (m.0, LayerView { active: b, ..l })),
            LayerInstruction::Toggle => ls.update(i, (m.0, LayerView { active: !l.active, ..l })),
        }
    }
}

pub open spec fn apply_layer_msgs(ls: Seq<(u64, LayerView)>, msgs: Seq<(u64, LayerInstruction)>) -> Seq<
    (u64, LayerView),
>
    decreases msgs.len(),
{
    if msgs.len() == 0 {
        ls
    } else {
        apply_layer_msg(apply_layer_msgs(ls, msgs.drop_last()), msgs.last())
    }
}

/// The layers after a widget's token is gone: the widget leaves its layer,
/// if both are still there.
pub open spec fn apply_widget_msg(ls: Seq<(u64, LayerView)>, m: (u64, u64)) -> Seq<
    (u64, LayerView),
> {
    if !has_key(ls, m.0) {
        ls
    } else {
        let i = position(ls, m.0);
        let l = ls[i].1;
        if !has_key(l.widgets, m.1) {
            ls
        } else {
            ls.update(
                i,
                (m.0, LayerView { widgets: l.widgets.remove(position(l.widgets, m.1)), ..l }),
            )
        }
    }
}

pub open spec fn apply_widget_msgs(ls: Seq<(u64, LayerView)>, msgs: Seq<(u64, u64)>) -> Seq<
    (u64, LayerView),
>
    decreases msgs.len(),
{
    if msgs.len() == 0 {
        ls
    } else {
        apply_widget_msg(apply_widget_msgs(ls, msgs.drop_last()), msgs.last())
    }
}

impl ContextView {
    /// The context once every pending message is applied: layer messages
    /// first, then widget messages, each in the order they were sent.
    pub open spec fn drained(self) -> ContextView {
        ContextView {
            layers: apply_widget_msgs(apply_layer_msgs(self.layers, self.layer_msgs), self.widget_msgs),
            layer_msgs: seq![],
            widget_msgs: seq![],
            ..self
        }
    }
}

/// `b` is `a` with each reachable widget changed as `r` allows (given the
/// widget's layer and number); unreachable widgets, keys and flags stay.
pub open spec fn layer_related(
    lid: u64,
    a: LayerView,
    b: LayerView,
    r: spec_fn(u64, u64, Widget, Widget) -> bool,
) -> bool {
    &&& b.active == a.active
    &&& b.next_id == a.next_id
    &&& b.handles == a.handles
    &&& b.widgets.len() == a.widgets.len()
    &&& forall|j: int|
        0 <= j < a.widgets.len() ==> (#[trigger] b.widgets[j]).0 == a.widgets[j].0 && (if a.active {
            r(lid, a.widgets[j].0, a.widgets[j].1, b.widgets[j].1)
        } else {
            b.widgets[j].1 == a.widgets[j].1
        })
}

pub open spec fn layers_related(
    a: Seq<(u64, LayerView)>,
    b: Seq<(u64, LayerView)>,
    r: spec_fn(u64, u64, Widget, Widget) -> bool,
) -> bool {
    &&& a.len() == b.len()
    &&& forall|i: int|
        0 <= i < a.len() ==> (#[trigger] b[i]).0 == a[i].0 && layer_related(a[i].0, a[i].1, b[i].1, r)
}

/// Related layers reach related widgets, in the same order and with the
/// same ids.
pub proof fn lemma_visible_related(
    a: Seq<(u64, LayerView)>,
    b: Seq<(u64, LayerView)>,
    r: spec_fn(u64, u64, Widget, Widget) -> bool,
)
    requires
        layers_related(a, b, r),
    ensures
        visible(b).len() == visible(a).len(),
        forall|k: int|
            0 <= k < visible(a).len() ==> (#[trigger] visible(b)[k]).0 == visible(a)[k].0
                && visible(b)[k].1 == visible(a)[k].1 && r(
                visible(a)[k].0,
                visible(a)[k].1,
                visible(a)[k].2,
                visible(b)[k].2,
            ),
    decreases a.len(),
{
    if a.len() > 0 {
        let a0 = a.drop_last();
        let b0 = b.drop_last();
        assert(layers_related(a0, b0, r)) by {
            assert forall|i: int| 0 <= i < a0.len() implies (#[trigger] b0[i]).0 == a0[i].0
                && layer_related(a0[i].0, a0[i].1, b0[i].1, r) by {
                assert(a0[i] == a[i]);
                assert(b0[i] == b[i]);
            }
        }
        lemma_visible_related(a0, b0, r);
        let la = layer_items(a.last().0, a.last().1);
        let lb = layer_items(b.last().0, b.last().1);
        assert(layer_related(a.last().0, a.last().1, b.last().1, r));
        assert(la.len() == lb.len());
        assert forall|k: int| 0 <= k < visible(a).len() implies (#[trigger] visible(b)[k]).0
            == visible(a)[k].0 && visible(b)[k].1 == visible(a)[k].1 && r(
            visible(a)[k].0,
            visible(a)[k].1,
            visible(a)[k].2,
            visible(b)[k].2,
        ) by {
            let n = visible(a0).len();
            if k >= n {
                let j = k - n;
                assert(a.last().1.widgets[j].0 == b.last().1.widgets[j].0);
            }
        }
    }
}

} // verus!

verus! {

/// Removing an entry keeps keys unique and bounded.
pub proof fn lemma_remove_keys<V>(s: Seq<(u64, V)>, i: int, bound: u64)
    requires
        keys_unique(s),
        keys_at_most(s, bound),
        0 <= i < s.len(),
    ensures
        keys_unique(s.remove(i)),
        keys_at_most(s.remove(i), bound),
{
    let t = s.remove(i);
    assert forall|a: int, b: int| 0 <= a < t.len() && 0 <= b < t.len() && a != b implies (#[trigger] t[a]).0
        != (#[trigger] t[b]).0 by {
        let sa = if a < i { a } else { a + 1 };
        let sb = if b < i { b } else { b + 1 };
        assert(t[a] == s[sa]);
        assert(t[b] == s[sb]);
    }
    assert forall|a: int| 0 <= a < t.len() implies (#[trigger] t[a]).0 <= bound by {
        let sa = if a < i { a } else { a + 1 };
        assert(t[a] == s[sa]);
    }
}

/// Pushing an entry whose key is above every other keeps keys unique.
pub proof fn lemma_push_keys<V>(s: Seq<(u64, V)>, k: u64, v: V, bound: u64)
    requires
        keys_unique(s),
        keys_at_most(s, bound),
        bound < k,
    ensures
        keys_unique(s.push((k, v))),
        keys_at_most(s.push((k, v)), k),
{
    let t = s.push((k, v));
    assert forall|a: int, b: int| 0 <= a < t.len() && 0 <= b < t.len() && a != b implies (#[trigger] t[a]).0
        != (#[trigger] t[b]).0 by {
        if a < s.len() && b < s.len() {
            assert(t[a] == s[a] && t[b] == s[b]);
        } else if a < s.len() {
            assert(t[a] == s[a]);
        } else if b < s.len() {
            assert(t[b] == s[b]);
        }
    }
    assert forall|a: int| 0 <= a < t.len() implies (#[trigger] t[a]).0 <= k by {
        if a < s.len() {
            assert(t[a] == s[a]);
        }
    }
}

/// Changing the value of an entry, or its layer's widgets, keeps the layers
/// well formed when the new layer is.
pub proof fn lemma_update_layers(ls: Seq<(u64, LayerView)>, i: int, l: LayerView)
    requires
        layers_wf(ls),
        0 <= i < ls.len(),
        keys_unique(l.widgets),
        keys_at_most(l.widgets, l.next_id),
    ensures
        layers_wf(ls.update(i, (ls[i].0, l))),
        forall|b: u64| keys_at_most(ls, b) ==> keys_at_most(ls.update(i, (ls[i].0, l)), b),
{
    let t = ls.update(i, (ls[i].0, l));
    assert forall|a: int, b: int| 0 <= a < t.len() && 0 <= b < t.len() && a != b implies (#[trigger] t[a]).0
        != (#[trigger] t[b]).0 by {
        assert(t[a].0 == ls[a].0 && t[b].0 == ls[b].0);
    }
    assert forall|b: u64| keys_at_most(ls, b) implies keys_at_most(t, b) by {
        assert forall|a: int| 0 <= a < t.len() implies (#[trigger] t[a]).0 <= b by {
            assert(t[a].0 == ls[a].0);
        }
    }
}

/// Removing a layer keeps the layers well formed.
pub proof fn lemma_remove_layer(ls: Seq<(u64, LayerView)>, i: int, bound: u64)
    requires
        layers_wf(ls),
        keys_at_most(ls, bound),
        0 <= i < ls.len(),
    ensures
        layers_wf(ls.remove(i)),
        keys_at_most(ls.remove(i), bound),
{
    lemma_remove_keys(ls, i, bound);
    let t = ls.remove(i);
    assert forall|a: int| 0 <= a < t.len() implies keys_unique((#[trigger] t[a]).1.widgets) && keys_at_most(
        t[a].1.widgets,
        t[a].1.next_id,
    ) by {
        let sa = if a < i { a } else { a + 1 };
        assert(t[a] == ls[sa]);
    }
}

} // verus!

verus! {

/// Related layers are as well formed as the ones they came from.
pub proof fn lemma_related_wf(
    a: Seq<(u64, LayerView)>,
    b: Seq<(u64, LayerView)>,
    r: spec_fn(u64, u64, Widget, Widget) -> bool,
    bound: u64,
)
    requires
        layers_related(a, b, r),
        layers_wf(a),
        keys_at_most(a, bound),
    ensures
        layers_wf(b),
        keys_at_most(b, bound),
{
    assert forall|i: int, j: int| 0 <= i < b.len() && 0 <= j < b.len() && i != j implies (#[trigger] b[i]).0
        != (#[trigger] b[j]).0 by {
        assert(b[i].0 == a[i].0 && b[j].0 == a[j].0);
    }
    assert forall|i: int| 0 <= i < b.len() implies keys_unique((#[trigger] b[i]).1.widgets) && keys_at_most(
        b[i].1.widgets,
        b[i].1.next_id,
    ) by {
        assert(layer_related(a[i].0, a[i].1, b[i].1, r));
        let wa = a[i].1.widgets;
        let wb = b[i].1.widgets;
        assert forall|x: int, y: int| 0 <= x < wb.len() && 0 <= y < wb.len() && x != y implies (#[trigger] wb[x]).0
            != (#[trigger] wb[y]).0 by {
            assert(wb[x].0 == wa[x].0 && wb[y].0 == wa[y].0);
        }
        assert forall|x: int| 0 <= x < wb.len() implies (#[trigger] wb[x]).0 <= b[i].1.next_id by {
            assert(wb[x].0 == wa[x].0);
        }
    }
    assert forall|i: int| 0 <= i < b.len() implies (#[trigger] b[i]).0 <= bound by {
        assert(b[i].0 == a[i].0);
    }
}

/// `ls2` is `ls` with the widget numbered `w` in layer `l` changed as `r`
/// allows, when both are there; otherwise `ls2` is `ls`.
pub open spec fn updated_at(
    ls: Seq<(u64, LayerView)>,
    l: u64,
    w: u64,
    ls2: Seq<(u64, LayerView)>,
    r: spec_fn(Widget, Widget) -> bool,
) -> bool {
    if has_key(ls, l) && has_key(ls[position(ls, l)].1.widgets, w) {
        let i = position(ls, l);
        let ws = ls[i].1.widgets;
        let j = position(ws, w);
        let b = ls2[i].1.widgets[j].1;
        r(ws[j].1, b) && ls2 == ls.update(i, (l, LayerView { widgets: ws.update(j, (w, b)), ..ls[i].1 }))
    } else {
        ls2 == ls
    }
}

/// Changing one widget keeps the layers well formed.
pub proof fn lemma_update_widget(ls: Seq<(u64, LayerView)>, i: int, j: int, b: Widget, bound: u64)
    requires
        layers_wf(ls),
        keys_at_most(ls, bound),
        0 <= i < ls.len(),
        0 <= j < ls[i].1.widgets.len(),
    ensures
        ({
            let ws = ls[i].1.widgets;
            let t = ls.update(i, (ls[i].0, LayerView { widgets: ws.update(j, (ws[j].0, b)), ..ls[i].1 }));
            layers_wf(t) && keys_at_most(t, bound)
        }),
{
    let ws = ls[i].1.widgets;
    let nws = ws.update(j, (ws[j].0, b));
    assert forall|x: int, y: int| 0 <= x < nws.len() && 0 <= y < nws.len() && x != y implies (#[trigger] nws[x]).0
        != (#[trigger] nws[y]).0 by {
        assert(nws[x].0 == ws[x].0 && nws[y].0 == ws[y].0);
    }
    assert forall|x: int| 0 <= x < nws.len() implies (#[trigger] nws[x]).0 <= ls[i].1.next_id by {
        assert(nws[x].0 == ws[x].0);
    }
    lemma_update_layers(ls, i, LayerView { widgets: nws, ..ls[i].1 });
}

} // verus!

verus! {

/// One more widget either becomes the last hit or leaves it as it was.
pub proof fn lemma_last_hit_push(s: Seq<(u64, u64, Widget)>, x: (u64, u64, Widget), p: Vector)
    ensures
        last_hit(s.push(x), p) == (if x.2.spec_contains(p) {
            Some(s.len() as int)
        } else {
            last_hit(s, p)
        }),
{
    assert(s.push(x).drop_last() =~= s);
}

/// The reachable widgets of one more layer follow those before it.
pub proof fn lemma_visible_take(ls: Seq<(u64, LayerView)>, i: int)
    requires
        0 <= i < ls.len(),
    ensures
        visible(ls.take(i + 1)) == visible(ls.take(i)) + layer_items(ls[i].0, ls[i].1),
{
    assert(ls.take(i + 1).drop_last() =~= ls.take(i));
}

} // verus!

verus! {

/// Every reachable widget is present in its layer under its numbers.
pub proof fn lemma_visible_present(ls: Seq<(u64, LayerView)>, k: int)
    requires
        layers_wf(ls),
        0 <= k < visible(ls).len(),
    ensures
        has_key(ls, visible(ls)[k].0),
        has_key(ls[position(ls, visible(ls)[k].0)].1.widgets, visible(ls)[k].1),
        ls[position(ls, visible(ls)[k].0)].1.widgets[position(
            ls[position(ls, visible(ls)[k].0)].1.widgets,
            visible(ls)[k].1,
        )].1 == visible(ls)[k].2,
    decreases ls.len(),
{
    let a = ls.drop_last();
    let n = visible(a).len();
    let x = visible(ls)[k];
    if k < n {
        assert(layers_wf(a)) by {
            assert forall|i: int, j: int| 0 <= i < a.len() && 0 <= j < a.len() && i != j implies (#[trigger] a[i]).0
                != (#[trigger] a[j]).0 by {
                assert(a[i] == ls[i] && a[j] == ls[j]);
            }
            assert forall|i: int| 0 <= i < a.len() implies keys_unique((#[trigger] a[i]).1.widgets) && keys_at_most(
                a[i].1.widgets,
                a[i].1.next_id,
            ) by {
                assert(a[i] == ls[i]);
            }
        }
        lemma_visible_present(a, k);
        assert(visible(a)[k] == x);
        let i = position(a, x.0);
        assert(a[i] == ls[i]);
        lemma_position(ls, x.0, i);
    } else {
        let i = ls.len() - 1;
        let j = k - n;
        let l = ls[i].1;
        assert(l.active);
        assert(x == (ls[i].0, l.widgets[j].0, l.widgets[j].1));
        lemma_position(ls, x.0, i);
        lemma_position(l.widgets, x.1, j);
    }
}

} // verus!

verus! {

/// Related layers keep every key where it was.
pub proof fn lemma_related_keys(
    a: Seq<(u64, LayerView)>,
    b: Seq<(u64, LayerView)>,
    r: spec_fn(u64, u64, Widget, Widget) -> bool,
    i: int,
    j: int,
)
    requires
        layers_related(a, b, r),
        layers_wf(a),
        layers_wf(b),
        0 <= i < a.len(),
        0 <= j < a[i].1.widgets.len(),
    ensures
        has_key(b, a[i].0),
        position(b, a[i].0) == i,
        has_key(b[i].1.widgets, a[i].1.widgets[j].0),
        position(b[i].1.widgets, a[i].1.widgets[j].0) == j,
        j < b[i].1.widgets.len(),
{
    assert(b[i].0 == a[i].0);
    lemma_position(b, a[i].0, i);
    assert(layer_related(a[i].0, a[i].1, b[i].1, r));
    assert(b[i].1.widgets[j].0 == a[i].1.widgets[j].0);
    lemma_position(b[i].1.widgets, a[i].1.widgets[j].0, j);
}

} // verus!

verus! {

/// Layer `l` holds a widget numbered `w`.
pub open spec fn present(ls: Seq<(u64, LayerView)>, l: u64, w: u64) -> bool {
    has_key(ls, l) && has_key(ls[position(ls, l)].1.widgets, w)
}

/// What a layer message does to the widgets that are present: a dropped
/// layer takes its widgets along, other messages keep every widget.
pub proof fn lemma_layer_msg_present(ls: Seq<(u64, LayerView)>, m: (u64, LayerInstruction), bound: u64)
    requires
        layers_wf(ls),
        keys_at_most(ls, bound),
    ensures
        layers_wf(apply_layer_msg(ls, m)),
        keys_at_most(apply_layer_msg(ls, m), bound),
        forall|l: u64, w: u64|
            #[trigger] present(apply_layer_msg(ls, m), l, w) <==> (present(ls, l, w) && m != (
                l,
                LayerInstruction::Drop,
            )),
{
    let r = apply_layer_msg(ls, m);
    if !has_key(ls, m.0) {
        assert forall|l: u64, w: u64| #[trigger] present(r, l, w) <==> (present(ls, l, w) && m != (
            l,
            LayerInstruction::Drop,
        )) by {
            if present(ls, l, w) && l == m.0 {
                assert(has_key(ls, m.0));
            }
        }
    } else {
        let i = position(ls, m.0);
        lemma_position(ls, m.0, i);
        match m.1 {
            LayerInstruction::Drop => {
                lemma_remove_layer(ls, i, bound);
                assert forall|l: u64, w: u64| #[trigger] present(r, l, w) <==> (present(ls, l, w) && m != (
                    l,
                    LayerInstruction::Drop,
                )) by {
                    if present(r, l, w) {
                        let i2 = position(r, l);
                        let i3 = if i2 < i { i2 } else { i2 + 1 };
                        assert(r[i2] == ls[i3]);
                        lemma_position(ls, l, i3);
                        assert(l != m.0);
                    }
                    if present(ls, l, w) && l != m.0 {
                        let i3 = position(ls, l);
                        assert(i3 != i);
                        let i2 = if i3 < i { i3 } else { i3 - 1 };
                        assert(r[i2] == ls[i3]);
                        lemma_position(r, l, i2);
                    }
                }
            },
            LayerInstruction::SetActive(b) => {
                let nl = LayerView { active: b, ..ls[i].1 };
                lemma_update_layers(ls, i, nl);
                assert forall|l: u64, w: u64| #[trigger] present(r, l, w) <==> present(ls, l, w) by {
                    if has_key(ls, l) {
                        let i3 = position(ls, l);
                        lemma_position(ls, l, i3);
                        lemma_position(r, l, i3);
                    }
                    if has_key(r, l) {
                        let i3 = position(r, l);
                        lemma_position(r, l, i3);
                        assert(r[i3].0 == ls[i3].0);
                        lemma_position(ls, l, i3);
                    }
                }
            },
            LayerInstruction::Toggle => {
                let nl = LayerView { active: !ls[i].1.active, ..ls[i].1 };
                lemma_update_layers(ls, i, nl);
                assert forall|l: u64, w: u64| #[trigger] present(r, l, w) <==> present(ls, l, w) by {
                    if has_key(ls, l) {
                        let i3 = position(ls, l);
                        lemma_position(ls, l, i3);
                        lemma_position(r, l, i3);
                    }
                    if has_key(r, l) {
                        let i3 = position(r, l);
                        lemma_position(r, l, i3);
                        assert(r[i3].0 == ls[i3].0);
                        lemma_position(ls, l, i3);
                    }
                }
            },
        }
    }
}

/// What a widget message does: that one widget leaves, if it is there.
pub proof fn lemma_widget_msg_present(ls: Seq<(u64, LayerView)>, m: (u64, u64), bound: u64)
    requires
        layers_wf(ls),
        keys_at_most(ls, bound),
    ensures
        layers_wf(apply_widget_msg(ls, m)),
        keys_at_most(apply_widget_msg(ls, m), bound),
        forall|l: u64, w: u64|
            #[trigger] present(apply_widget_msg(ls, m), l, w) <==> (present(ls, l, w) && m != (l, w)),
{
    let r = apply_widget_msg(ls, m);
    if !has_key(ls, m.0) {
        assert forall|l: u64, w: u64| #[trigger] present(r, l, w) <==> (present(ls, l, w) && m != (l, w)) by {
            if present(ls, l, w) && l == m.0 {
                assert(has_key(ls, m.0));
            }
        }
    } else {
        let i = position(ls, m.0);
        lemma_position(ls, m.0, i);
        let lv = ls[i].1;
        if !has_key(lv.widgets, m.1) {
            assert forall|l: u64, w: u64| #[trigger] present(r, l, w) <==> (present(ls, l, w) && m != (l, w)) by {
            }
        } else {
            let j = position(lv.widgets, m.1);
            lemma_position(lv.widgets, m.1, j);
            let nws = lv.widgets.remove(j);
            lemma_remove_keys(lv.widgets, j, lv.next_id);
            let nl = LayerView { widgets: nws, ..lv };
            lemma_update_layers(ls, i, nl);
            assert(r == ls.update(i, (m.0, nl)));
            assert forall|l: u64, w: u64| #[trigger] present(r, l, w) <==> (present(ls, l, w) && m != (l, w)) by {
                if has_key(ls, l) {
                    let i3 = position(ls, l);
                    lemma_position(ls, l, i3);
                    lemma_position(r, l, i3);
                    if i3 == i {
                        if has_key(nws, w) {
                            let j2 = position(nws, w);
                            let j3 = if j2 < j { j2 } else { j2 + 1 };
                            assert(nws[j2] == lv.widgets[j3]);
                            lemma_position(lv.widgets, w, j3);
                            assert(w != m.1);
                        }
                        if has_key(lv.widgets, w) && w != m.1 {
                            let j3 = position(lv.widgets, w);
                            assert(j3 != j);
                            let j2 = if j3 < j { j3 } else { j3 - 1 };
                            assert(nws[j2] == lv.widgets[j3]);
                            lemma_position(nws, w, j2);
                        }
                    }
                }
                if has_key(r, l) {
                    let i3 = position(r, l);
                    lemma_position(r, l, i3);
                    assert(r[i3].0 == ls[i3].0);
                    lemma_position(ls, l, i3);
                }
            }
        }
    }
}

/// Applying layer messages removes exactly the widgets of dropped layers.
pub proof fn lemma_layer_msgs_present(ls: Seq<(u64, LayerView)>, msgs: Seq<(u64, LayerInstruction)>, bound: u64)
    requires
        layers_wf(ls),
        keys_at_most(ls, bound),
    ensures
        layers_wf(apply_layer_msgs(ls, msgs)),
        keys_at_most(apply_layer_msgs(ls, msgs), bound),
        forall|l: u64, w: u64|
            #[trigger] present(apply_layer_msgs(ls, msgs), l, w) <==> (present(ls, l, w) && !msgs.contains(
                (l, LayerInstruction::Drop),
            )),
    decreases msgs.len(),
{
    if msgs.len() > 0 {
        let init = msgs.drop_last();
        lemma_layer_msgs_present(ls, init, bound);
        lemma_layer_msg_present(apply_layer_msgs(ls, init), msgs.last(), bound);
        assert forall|l: u64, w: u64|
            #[trigger] present(apply_layer_msgs(ls, msgs), l, w) <==> (present(ls, l, w) && !msgs.contains(
                (l, LayerInstruction::Drop),
            )) by {
            let d = (l, LayerInstruction::Drop);
            if msgs.contains(d) {
                let k = choose|k: int| 0 <= k < msgs.len() && msgs[k] == d;
                if k < msgs.len() - 1 {
                    assert(init[k] == d);
                }
            }
            if init.contains(d) {
                let k = choose|k: int| 0 <= k < init.len() && init[k] == d;
                assert(msgs[k] == d);
            }
            if msgs.last() == d {
                assert(msgs[msgs.len() - 1] == d);
            }
        }
    }
}

/// Applying widget messages removes exactly the widgets they name.
pub proof fn lemma_widget_msgs_present(ls: Seq<(u64, LayerView)>, msgs: Seq<(u64, u64)>, bound: u64)
    requires
        layers_wf(ls),
        keys_at_most(ls, bound),
    ensures
        layers_wf(apply_widget_msgs(ls, msgs)),
        keys_at_most(apply_widget_msgs(ls, msgs), bound),
        forall|l: u64, w: u64|
            #[trigger] present(apply_widget_msgs(ls, msgs), l, w) <==> (present(ls, l, w) && !msgs.contains(
                (l, w),
            )),
    decreases msgs.len(),
{
    if msgs.len() > 0 {
        let init = msgs.drop_last();
        lemma_widget_msgs_present(ls, init, bound);
        lemma_widget_msg_present(apply_widget_msgs(ls, init), msgs.last(), bound);
        assert forall|l: u64, w: u64|
            #[trigger] present(apply_widget_msgs(ls, msgs), l, w) <==> (present(ls, l, w) && !msgs.contains(
                (l, w),
            )) by {
            let d = (l, w);
            if msgs.contains(d) {
                let k = choose|k: int| 0 <= k < msgs.len() && msgs[k] == d;
                if k < msgs.len() - 1 {
                    assert(init[k] == d);
                }
            }
            if init.contains(d) {
                let k = choose|k: int| 0 <= k < init.len() && init[k] == d;
                assert(msgs[k] == d);
            }
            if msgs.last() == d {
                assert(msgs[msgs.len() - 1] == d);
            }
        }
    }
}

} // verus!

verus! {

/// The position of the last widget of `vis` that contains `p` and can take
/// focus there.
pub open spec fn last_focus_hit(vis: Seq<(u64, u64, Widget)>, p: Vector) -> Option<int>
    decreases vis.len(),
{
    if vis.len() == 0 {
        None
    } else if vis.last().2.spec_contains(p) && vis.last().2.spec_focusable(p) {
        Some(vis.len() - 1)
    } else {
        last_focus_hit(vis.drop_last(), p)
    }
}

/// The ids of the last reachable widget of `ls` under `p` that can take
/// focus.
pub open spec fn focus_top_of(ls: Seq<(u64, LayerView)>, p: Vector) -> Option<(u64, u64)> {
    match last_focus_hit(visible(ls), p) {
        Some(k) => Some((visible(ls)[k].0, visible(ls)[k].1)),
        None => None,
    }
}

/// The layer `l` is there and shown.
pub open spec fn layer_shown(ls: Seq<(u64, LayerView)>, l: u64) -> bool {
    has_key(ls, l) && ls[position(ls, l)].1.active
}

pub proof fn lemma_last_focus_hit_push(s: Seq<(u64, u64, Widget)>, x: (u64, u64, Widget), p: Vector)
    ensures
        last_focus_hit(s.push(x), p) == (if x.2.spec_contains(p) && x.2.spec_focusable(p) {
            Some(s.len() as int)
        } else {
            last_focus_hit(s, p)
        }),
{
    assert(s.push(x).drop_last() =~= s);
}

/// The last focusable widget under `p` is in range, under `p`, focusable,
/// and no later widget is both.
pub proof fn lemma_last_focus_hit(vis: Seq<(u64, u64, Widget)>, p: Vector)
    ensures
        last_focus_hit(vis, p) matches Some(k) ==> 0 <= k < vis.len() && vis[k].2.spec_contains(p)
            && vis[k].2.spec_focusable(p) && forall|m: int|
            k < m < vis.len() ==> !((#[trigger] vis[m]).2.spec_contains(p) && vis[m].2.spec_focusable(p)),
        last_focus_hit(vis, p) is None ==> forall|m: int|
            0 <= m < vis.len() ==> !((#[trigger] vis[m]).2.spec_contains(p) && vis[m].2.spec_focusable(p)),
    decreases vis.len(),
{
    if vis.len() > 0 {
        let v0 = vis.drop_last();
        lemma_last_focus_hit(v0, p);
        assert forall|m: int| 0 <= m < vis.len() - 1 implies vis[m] == #[trigger] v0[m] by {}
        let x = vis.last();
        if !(x.2.spec_contains(p) && x.2.spec_focusable(p)) {
            assert(last_focus_hit(vis, p) == last_focus_hit(v0, p));
            if let Some(k) = last_focus_hit(v0, p) {
                assert forall|m: int| k < m < vis.len() implies !((#[trigger] vis[m]).2.spec_contains(p)
                    && vis[m].2.spec_focusable(p)) by {
                    if m < vis.len() - 1 {
                        assert(vis[m] == v0[m]);
                    }
                }
            } else {
                assert forall|m: int| 0 <= m < vis.len() implies !((#[trigger] vis[m]).2.spec_contains(p)
                    && vis[m].2.spec_focusable(p)) by {
                    if m < vis.len() - 1 {
                        assert(vis[m] == v0[m]);
                    }
                }
            }
        }
    }
}

/// Applying the message that hides layer `l` leaves it there and hidden.
pub proof fn lemma_hide_layer(ls: Seq<(u64, LayerView)>, l: u64)
    requires
        layers_wf(ls),
        has_key(ls, l),
    ensures
        has_key(apply_layer_msgs(ls, seq![(l, LayerInstruction::SetActive(false))]), l),
        !layer_shown(apply_layer_msgs(ls, seq![(l, LayerInstruction::SetActive(false))]), l),
{
    let m = seq![(l, LayerInstruction::SetActive(false))];
    assert(m.drop_last() =~= Seq::<(u64, LayerInstruction)>::empty());
    let i = position(ls, l);
    lemma_position(ls, l, i);
    let r = apply_layer_msgs(ls, m);
    assert(apply_layer_msgs(ls, m.drop_last()) == ls);
    assert(r == apply_layer_msg(ls, m.last()));
    lemma_update_layers(ls, i, LayerView { active: false, ..ls[i].1 });
    lemma_position(r, l, i);
}

} // verus!
