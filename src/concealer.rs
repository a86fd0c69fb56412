//! Collapsible panels: a button that shows or hides a layer of its own, and
//! a manager that keeps at most one of several panels open.
use vstd::prelude::*;
use crate::basic::{Button, ButtonConfig};
use crate::clickable::BasicClickable;
use crate::draw::{CursorIcon, DrawOp, DrawOpView, ops_view};
use crate::geometry::Vector;
use crate::context::Context;
use crate::model::ContextView;
use crate::responses::{LayerInstruction, SingularLayerId};

verus! {

/// How to build a collapsible panel: its button and the layer it controls.
pub struct ConcealerConfig {
    pub button: ButtonConfig,
    pub layer: SingularLayerId,
}

/// A button that shows or hides the widgets of a layer.
pub struct Concealer {
    pub button: Button,
    /// The number of the controlled layer.
    pub layer: u64,
}

/// The channel of a collapsible panel: the token of its layer and the
/// clicks on its button.
pub struct ConcealerReturn {
    pub layer: SingularLayerId,
    pub main_button: BasicClickable,
}

impl ConcealerConfig {
    pub open spec fn built(self, w: Concealer, r: ConcealerReturn) -> bool {
        &&& w == (Concealer { button: self.button.spec_widget(), layer: self.layer.spec_id() })
        &&& r.layer == self.layer
        &&& r.main_button@ == 0
    }

    pub fn to_widget(self) -> (r: (Concealer, ConcealerReturn))
        ensures
            self.built(r.0, r.1),
    {
        let layer = self.layer.id();
        let (button, main_button) = self.button.to_widget();
        (Concealer { button, layer }, ConcealerReturn { layer: self.layer, main_button })
    }
}

impl Concealer {
    pub open spec fn spec_contains(&self, p: Vector) -> bool {
        self.button.spec_contains(p)
    }

    pub fn contains(&self, p: Vector) -> (r: bool)
        ensures
            r == self.spec_contains(p),
    {
        self.button.contains(p)
    }

    pub open spec fn spec_cursor(&self, p: Vector) -> CursorIcon {
        if self.spec_contains(p) {
            CursorIcon::Hand
        } else {
            CursorIcon::Default
        }
    }

    pub fn cursor_icon(&self, p: Vector) -> (r: CursorIcon)
        ensures
            r == self.spec_cursor(p),
    {
        if self.contains(p) {
            CursorIcon::Hand
        } else {
            CursorIcon::Default
        }
    }

    pub open spec fn hovered(&self) -> bool {
        self.button.background.is_hovering
    }

    /// Asks for the controlled layer to be hidden (true) or shown; it takes
    /// effect at the next event or render.
    pub fn set_concealing(&self, context: &mut Context, state: bool)
        ensures
            final(context)@ == (ContextView {
                layer_msgs: old(context)@.layer_msgs.push((self.layer, LayerInstruction::SetActive(!state))),
                ..old(context)@
            }),
    {
        context.set_layer_active(self.layer, !state)
    }

    /// The panel with its button's hover state set.
    pub open spec fn with_hover(self, state: bool) -> Concealer {
        Concealer { button: self.button.with_hover(state), ..self }
    }

    pub fn set_hover(&mut self, state: bool)
        ensures
            *final(self) == old(self).with_hover(state),
    {
        self.button.set_hover(state);
    }

    pub open spec fn spec_ops(&self) -> Seq<DrawOpView> {
        self.button.spec_ops()
    }

    pub fn render(&self) -> (r: Vec<DrawOp>)
        ensures
            ops_view(r@) == self.spec_ops(),
    {
        self.button.render()
    }

    /// The panel after a click at `p`, and the changes it asks of layers.
    pub open spec fn clicked(self, p: Vector) -> (Concealer, Seq<(u64, LayerInstruction)>) {
        if self.spec_contains(p) {
            (
                Concealer { button: self.button.after_click(), ..self },
                seq![(self.layer, LayerInstruction::Toggle)],
            )
        } else {
            (self, seq![])
        }
    }

    /// A click on the button shows the layer if hidden, and hides it if shown.
    pub fn on_click(&mut self, p: Vector) -> (r: Vec<(u64, LayerInstruction)>)
        ensures
            (*final(self), r@) == old(self).clicked(p),
    {
        if self.contains(p) {
            self.button.on_click();
            vec![(self.layer, LayerInstruction::Toggle)]
        } else {
            vec![]
        }
    }
}

/// How to build a manager of collapsible panels.
pub struct ConcealerManagerConfig {
    pub concealers: Vec<ConcealerConfig>,
}

/// Collapsible panels of which at most one is open at a time.
pub struct ConcealerManager {
    pub concealers: Vec<Concealer>,
    /// The open panel, if any.
    pub active: Option<usize>,
}

/// The channel of a panel manager: the channels of its panels.
pub struct ConcealerManagerReturn {
    pub channels: Vec<ConcealerReturn>,
}

/// `i` is the first panel whose button contains `p`.
pub open spec fn is_first_hit(cs: Seq<Concealer>, p: Vector, i: int) -> bool {
    &&& 0 <= i < cs.len()
    &&& cs[i].spec_contains(p)
    &&& forall|k: int| 0 <= k < i ==> !(#[trigger] cs[k].spec_contains(p))
}

/// The first panel whose button contains `p`, if any.
pub open spec fn first_hit(cs: Seq<Concealer>, p: Vector) -> Option<int> {
    if exists|i: int| is_first_hit(cs, p, i) {
        Some(choose|i: int| is_first_hit(cs, p, i))
    } else {
        None
    }
}

/// Only one panel can be the first hit.
pub proof fn lemma_first_hit(cs: Seq<Concealer>, p: Vector)
    ensures
        first_hit(cs, p) matches Some(i) ==> is_first_hit(cs, p, i),
        first_hit(cs, p) is None ==> forall|k: int| 0 <= k < cs.len() ==> !(#[trigger] cs[k].spec_contains(p)),
        forall|i: int| is_first_hit(cs, p, i) ==> first_hit(cs, p) == Some(i),
{
    if exists|i: int| is_first_hit(cs, p, i) {
        let c = choose|i: int| is_first_hit(cs, p, i);
        assert forall|i: int| is_first_hit(cs, p, i) implies i == c by {
            if i < c {
                assert(!cs[i].spec_contains(p));
            } else if c < i {
                assert(!cs[c].spec_contains(p));
            }
        }
    } else {
        assert forall|k: int| 0 <= k < cs.len() implies !(#[trigger] cs[k].spec_contains(p)) by {
            if cs[k].spec_contains(p) {
                lemma_some_first_hit(cs, p, k);
            }
        }
    }
}

/// A panel under `p` means a first one under `p`.
proof fn lemma_some_first_hit(cs: Seq<Concealer>, p: Vector, k: int)
    requires
        0 <= k < cs.len(),
        cs[k].spec_contains(p),
    ensures
        exists|i: int| is_first_hit(cs, p, i),
    decreases k,
{
    if exists|j: int| 0 <= j < k && #[trigger] cs[j].spec_contains(p) {
        let j = choose|j: int| 0 <= j < k && #[trigger] cs[j].spec_contains(p);
        lemma_some_first_hit(cs, p, j);
    } else {
        assert(is_first_hit(cs, p, k));
    }
}

/// The draw operations of panels `cs`, one after another.
pub open spec fn panels_ops(cs: Seq<Concealer>) -> Seq<DrawOpView>
    decreases cs.len(),
{
    if cs.len() == 0 {
        seq![]
    } else {
        panels_ops(cs.drop_last()) + cs.last().spec_ops()
    }
}

/// The state of manager `m` after a click at `p`, given the panels that the
/// click leaves behind.
pub open spec fn manager_clicked(m: ConcealerManager, p: Vector, after: Seq<Concealer>, active: Option<usize>, cmds: Seq<(u64, LayerInstruction)>) -> bool {
    let cs = m.concealers@;
    match (first_hit(cs, p), m.active) {
        (Some(k), Some(cur)) => if k != cur as int {
            &&& after == cs.update(k, Concealer { button: cs[k].button.after_click(), ..cs[k] })
            &&& active == Some(k as usize)
            &&& cmds == (if cur < cs.len() {
                seq![(cs[k].layer, LayerInstruction::SetActive(true)), (cs[cur as int].layer, LayerInstruction::SetActive(false))]
            } else {
                seq![(cs[k].layer, LayerInstruction::SetActive(true))]
            })
        } else {
            &&& after == cs.update(k, Concealer { button: cs[k].button.after_click(), ..cs[k] })
            &&& active == None::<usize>
            &&& cmds == seq![(cs[k].layer, LayerInstruction::SetActive(false))]
        },
        (Some(k), None) => {
            &&& after == cs.update(k, Concealer { button: cs[k].button.after_click(), ..cs[k] })
            &&& active == Some(k as usize)
            &&& cmds == seq![(cs[k].layer, LayerInstruction::SetActive(true))]
        },
        (None, _) => {
            &&& after == cs
            &&& active == m.active
            &&& cmds == Seq::<(u64, LayerInstruction)>::empty()
        },
    }
}

impl ConcealerManagerConfig {
    pub open spec fn built(self, w: ConcealerManager, r: ConcealerManagerReturn) -> bool {
        &&& w.active is None
        &&& w.concealers@.len() == self.concealers@.len()
        &&& r.channels@.len() == self.concealers@.len()
        &&& forall|i: int| 0 <= i < self.concealers@.len() ==> #[trigger] self.concealers@[i].built(
            w.concealers@[i],
            r.channels@[i],
        )
    }

    pub fn to_widget(self) -> (r: (ConcealerManager, ConcealerManagerReturn))
        ensures
            self.built(r.0, r.1),
    {
        let ghost configs = self.concealers@;
        let mut concealers: Vec<Concealer> = Vec::new();
        let mut channels: Vec<ConcealerReturn> = Vec::new();
        let mut rest = self.concealers;
        while rest.len() > 0
            invariant
                rest@ == configs.subrange(concealers@.len() as int, configs.len() as int),
                concealers@.len() == channels@.len(),
                concealers@.len() <= configs.len(),
                forall|i: int| 0 <= i < concealers@.len() ==> #[trigger] configs[i].built(
                    concealers@[i],
                    channels@[i],
                ),
            decreases rest.len(),
        {
            let c = rest.remove(0);
            let (w, r) = c.to_widget();
            concealers.push(w);
            channels.push(r);
            proof {
                assert(rest@ =~= configs.subrange(concealers@.len() as int, configs.len() as int));
            }
        }
        (ConcealerManager { concealers, active: None }, ConcealerManagerReturn { channels })
    }
}

impl ConcealerManager {
    /// The first panel whose button contains `p`.
    pub fn hit(&self, p: Vector) -> (r: Option<usize>)
        ensures
            r matches Some(i) ==> first_hit(self.concealers@, p) == Some(i as int),
            r is None ==> first_hit(self.concealers@, p) is None,
    {
        proof {
            lemma_first_hit(self.concealers@, p);
        }
        let mut i: usize = 0;
        while i < self.concealers.len()
            invariant
                i <= self.concealers@.len(),
                forall|k: int| 0 <= k < i ==> !(#[trigger] self.concealers@[k].spec_contains(p)),
            decreases self.concealers@.len() - i,
        {
            if self.concealers[i].contains(p) {
                assert(is_first_hit(self.concealers@, p, i as int));
                return Some(i);
            }
            i = i + 1;
        }
        None
    }

    pub open spec fn spec_contains(&self, p: Vector) -> bool {
        first_hit(self.concealers@, p) is Some
    }

    pub fn contains(&self, p: Vector) -> (r: bool)
        ensures
            r == self.spec_contains(p),
    {
        self.hit(p).is_some()
    }

    pub open spec fn spec_cursor(&self, p: Vector) -> CursorIcon {
        if self.spec_contains(p) {
            CursorIcon::Hand
        } else {
            CursorIcon::Default
        }
    }

    pub fn cursor_icon(&self, p: Vector) -> (r: CursorIcon)
        ensures
            r == self.spec_cursor(p),
    {
        if self.contains(p) {
            CursorIcon::Hand
        } else {
            CursorIcon::Default
        }
    }

    pub open spec fn hovered(&self) -> bool {
        exists|i: int| 0 <= i < self.concealers@.len() && (#[trigger] self.concealers@[i]).hovered()
    }

    /// The panels after hover is set: the first panel under `p` takes
    /// `state`, every other panel is not hovered.
    pub open spec fn hover_after(self, p: Vector, state: bool) -> Seq<Concealer> {
        let cs = self.concealers@;
        cs.map(|i: int, c: Concealer| c.with_hover(state && first_hit(cs, p) == Some(i)))
    }

    pub fn set_hover(&mut self, p: Vector, state: bool)
        ensures
            final(self).concealers@ == old(self).hover_after(p, state),
            final(self).active == old(self).active,
    {
        let hit = self.hit(p);
        let ghost cs = self.concealers@;
        let n = self.concealers.len();
        let mut i: usize = 0;
        while i < n
            invariant
                n == cs.len(),
                self.concealers@.len() == n,
                i <= n,
                forall|k: int|
                    0 <= k < i ==> #[trigger] self.concealers@[k] == cs[k].with_hover(
                        state && first_hit(cs, p) == Some(k),
                    ),
                forall|k: int| i <= k < n ==> #[trigger] self.concealers@[k] == cs[k],
                hit matches Some(h) ==> first_hit(cs, p) == Some(h as int),
                hit is None ==> first_hit(cs, p) is None,
                self.active == old(self).active,
            decreases n - i,
        {
            let on = match hit {
                Some(h) => state && h == i,
                None => false,
            };
            self.concealers[i].set_hover(on);
            i = i + 1;
        }
        proof {
            assert(self.concealers@ =~= old(self).hover_after(p, state));
        }
    }

    pub open spec fn spec_ops(&self) -> Seq<DrawOpView> {
        panels_ops(self.concealers@)
    }

    pub fn render(&self) -> (r: Vec<DrawOp>)
        ensures
            ops_view(r@) == self.spec_ops(),
    {
        let mut r: Vec<DrawOp> = Vec::new();
        let mut i: usize = 0;
        while i < self.concealers.len()
            invariant
                i <= self.concealers@.len(),
                ops_view(r@) == panels_ops(self.concealers@.take(i as int)),
            decreases self.concealers@.len() - i,
        {
            let mut ops = self.concealers[i].render();
            let ghost a = r@;
            let ghost b = ops@;
            r.append(&mut ops);
            proof {
                let t = self.concealers@.take(i + 1);
                assert(t.drop_last() =~= self.concealers@.take(i as int));
                assert(ops_view(r@) =~= ops_view(a) + ops_view(b));
            }
            i = i + 1;
        }
        proof {
            assert(self.concealers@.take(i as int) =~= self.concealers@);
        }
        r
    }

    /// A click on a panel's button opens it and closes the open one; a
    /// click on the open panel's button closes it.
    pub fn on_click(&mut self, p: Vector) -> (r: Vec<(u64, LayerInstruction)>)
        ensures
            manager_clicked(*old(self), p, final(self).concealers@, final(self).active, r@),
    {
        let hit = self.hit(p);
        let ghost cs = self.concealers@;
        match (hit, self.active) {
            (Some(k), Some(cur)) => {
                self.concealers[k].button.on_click();
                proof {
                    assert(self.concealers@ =~= cs.update(
                        k as int,
                        Concealer { button: cs[k as int].button.after_click(), ..cs[k as int] },
                    ));
                }
                let opened = self.concealers[k].layer;
                if k != cur {
                    self.active = Some(k);
                    if cur < self.concealers.len() {
                        let closed = self.concealers[cur].layer;
                        let r = vec![(opened, LayerInstruction::SetActive(true)), (closed, LayerInstruction::SetActive(false))];
                        assert(r@ =~= seq![(opened, LayerInstruction::SetActive(true)), (closed, LayerInstruction::SetActive(false))]);
                        r
                    } else {
                        let r = vec![(opened, LayerInstruction::SetActive(true))];
                        assert(r@ =~= seq![(opened, LayerInstruction::SetActive(true))]);
                        r
                    }
                } else {
                    self.active = None;
                    let r = vec![(opened, LayerInstruction::SetActive(false))];
                    assert(r@ =~= seq![(opened, LayerInstruction::SetActive(false))]);
                    r
                }
            },
            (Some(k), None) => {
                self.concealers[k].button.on_click();
                proof {
                    assert(self.concealers@ =~= cs.update(
                        k as int,
                        Concealer { button: cs[k as int].button.after_click(), ..cs[k as int] },
                    ));
                }
                self.active = Some(k);
                let r = vec![(self.concealers[k].layer, LayerInstruction::SetActive(true))];
                assert(r@ =~= seq![(cs[k as int].layer, LayerInstruction::SetActive(true))]);
                r
            },
            (None, _) => {
                let r = vec![];
                assert(r@ =~= Seq::<(u64, LayerInstruction)>::empty());
                r
            },
        }
    }

    /// Chooses the open panel without showing or hiding any layer.
    pub fn set_active_concealer(&mut self, new_active: Option<usize>)
        ensures
            final(self).active == new_active,
            final(self).concealers@ == old(self).concealers@,
    {
        self.active = new_active;
    }

    /// The open panel, if any.
    pub fn get_current_active(&self) -> (r: Option<usize>)
        ensures
            r == self.active,
    {
        self.active
    }
}

} // verus!
