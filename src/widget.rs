//! Every widget kind under one type, and the configurations that build them.
use vstd::prelude::*;
use crate::basic::{Button, ButtonConfig, Image, ImageButton, ImageButtonConfig, Text, TextButton, TextButtonConfig};
use crate::clickable::{joined, BasicClickable, ClickSetter};
use crate::concealer::{
    manager_clicked, Concealer, ConcealerConfig, ConcealerManager, ConcealerManagerConfig,
    ConcealerManagerReturn, ConcealerReturn,
};
use crate::draw::{CursorIcon, DrawOp, DrawOpView, ops_view};
use crate::dropdown::{DropDown, DropDownConfig, Dropdown};
use crate::geometry::Vector;
use crate::responses::LayerInstruction;
use crate::text_field::{Input, InputConfig, InputLink, Key};

verus! {

/// A widget of any kind.
pub enum Widget {
    Text(Text),
    Image(Image),
    ImageButton(ImageButton),
    TextButton(TextButton),
    Button(Button),
    Concealer(Concealer),
    ConcealerManager(ConcealerManager),
    DropDown(DropDown),
    Input(Input),
}

/// Turns a configuration into a widget and the channel that follows it.
pub trait WidgetConfig<R>: Sized {
    /// `w` and `channel` are what this configuration builds.
    spec fn built(self, w: Widget, channel: R) -> bool;

    fn to_widget(self) -> (r: (Widget, R))
        ensures
            self.built(r.0, r.1),
    ;
}

impl Widget {
    /// Whether `p` lies on the widget.
    pub open spec fn spec_contains(&self, p: Vector) -> bool {
        match self {
            Widget::ImageButton(w) => w.spec_contains(p),
            Widget::Button(w) => w.spec_contains(p),
            Widget::Concealer(w) => w.spec_contains(p),
            Widget::ConcealerManager(w) => w.spec_contains(p),
            Widget::DropDown(w) => w.spec_contains(p),
            Widget::Input(w) => w.spec_contains(p),
            _ => false,
        }
    }

    pub fn contains(&self, p: Vector) -> (r: bool)
        ensures
            r == self.spec_contains(p),
    {
        match self {
            Widget::ImageButton(w) => w.contains(p),
            Widget::Button(w) => w.contains(p),
            Widget::Concealer(w) => w.contains(p),
            Widget::ConcealerManager(w) => w.contains(p),
            Widget::DropDown(w) => w.contains(p),
            Widget::Input(w) => w.contains(p),
            _ => false,
        }
    }

    /// Whether a press at `p` may give the widget focus.
    pub open spec fn spec_focusable(&self, p: Vector) -> bool {
        match self {
            Widget::DropDown(_) => true,
            Widget::Input(_) => true,
            _ => false,
        }
    }

    pub fn is_focusable(&self, p: Vector) -> (r: bool)
        ensures
            r == self.spec_focusable(p),
    {
        match self {
            Widget::DropDown(_) => true,
            Widget::Input(_) => true,
            _ => false,
        }
    }

    /// The cursor icon over the widget at `p`.
    pub open spec fn spec_cursor(&self, p: Vector) -> CursorIcon {
        match self {
            Widget::ImageButton(_) => CursorIcon::Hand,
            Widget::TextButton(_) => CursorIcon::Hand,
            Widget::Button(_) => CursorIcon::Hand,
            Widget::Concealer(w) => w.spec_cursor(p),
            Widget::ConcealerManager(w) => w.spec_cursor(p),
            Widget::DropDown(_) => CursorIcon::Hand,
            Widget::Input(_) => CursorIcon::Text,
            _ => CursorIcon::Default,
        }
    }

    pub fn cursor_icon(&self, p: Vector) -> (r: CursorIcon)
        ensures
            r == self.spec_cursor(p),
    {
        match self {
            Widget::ImageButton(_) => CursorIcon::Hand,
            Widget::TextButton(_) => CursorIcon::Hand,
            Widget::Button(_) => CursorIcon::Hand,
            Widget::Concealer(w) => w.cursor_icon(p),
            Widget::ConcealerManager(w) => w.cursor_icon(p),
            Widget::DropDown(_) => CursorIcon::Hand,
            Widget::Input(_) => CursorIcon::Text,
            _ => CursorIcon::Default,
        }
    }

    /// Whether the widget shows that the pointer is over it.
    pub open spec fn hovered(&self) -> bool {
        match self {
            Widget::ImageButton(w) => w.is_hovering,
            Widget::Button(w) => w.background.is_hovering,
            Widget::Concealer(w) => w.hovered(),
            Widget::ConcealerManager(w) => w.hovered(),
            Widget::DropDown(w) => w.hover_over is Some,
            _ => false,
        }
    }

    /// Whether the widget's kind keeps a hover state at all.
    pub open spec fn tracks_hover(&self) -> bool {
        match self {
            Widget::ImageButton(_) => true,
            Widget::Button(_) => true,
            Widget::Concealer(_) => true,
            Widget::ConcealerManager(_) => true,
            Widget::DropDown(_) => true,
            _ => false,
        }
    }

    /// `next` is the widget after its hover state was set to `state` at `p`.
    pub open spec fn hover_next(self, p: Vector, state: bool, next: Widget) -> bool {
        match self {
            Widget::ImageButton(w) => next == Widget::ImageButton(
                ImageButton { is_hovering: state, ..w },
            ),
            Widget::Button(w) => next == Widget::Button(w.with_hover(state)),
            Widget::Concealer(w) => next == Widget::Concealer(w.with_hover(state)),
            Widget::ConcealerManager(w) => next matches Widget::ConcealerManager(n) && n.active
                == w.active && n.concealers@ == w.hover_after(p, state),
            Widget::DropDown(w) => next == Widget::DropDown(w.with_hover(p, state)),
            _ => next == self,
        }
    }

    pub fn set_hover(&mut self, p: Vector, state: bool)
        ensures
            old(self).hover_next(p, state, *final(self)),
    {
        match self {
            Widget::ImageButton(w) => {
                w.is_hovering = state;
            },
            Widget::Button(w) => w.set_hover(state),
            Widget::Concealer(w) => w.set_hover(state),
            Widget::ConcealerManager(w) => w.set_hover(p, state),
            Widget::DropDown(w) => w.set_hover(p, state),
            _ => {},
        }
    }

    /// `next` is the widget after it gained (`state`) or lost focus.
    pub open spec fn focus_next(self, p: Vector, state: bool, next: Widget) -> bool {
        match self {
            Widget::DropDown(w) => next == Widget::DropDown(w.with_focus(state)),
            _ => next == self,
        }
    }

    pub fn set_focus(&mut self, p: Vector, state: bool)
        ensures
            old(self).focus_next(p, state, *final(self)),
    {
        match self {
            Widget::DropDown(w) => w.set_focus(state),
            _ => {},
        }
    }

    /// `next` is the widget after a click at `p`, which asks `cmds` of layers.
    pub open spec fn click_next(
        self,
        p: Vector,
        next: Widget,
        cmds: Seq<(u64, LayerInstruction)>,
    ) -> bool {
        match self {
            Widget::ImageButton(w) => next == Widget::ImageButton(
                ImageButton { channel: w.channel.after_click(), ..w },
            ) && cmds.len() == 0,
            Widget::TextButton(w) => next == Widget::TextButton(
                TextButton { channel: w.channel.after_click(), ..w },
            ) && cmds.len() == 0,
            Widget::Button(w) => next == Widget::Button(w.after_click()) && cmds.len() == 0,
            Widget::Concealer(w) => next == Widget::Concealer(w.clicked(p).0) && cmds == w.clicked(
                p,
            ).1,
            Widget::ConcealerManager(w) => next matches Widget::ConcealerManager(n)
                && manager_clicked(w, p, n.concealers@, n.active, cmds),
            Widget::DropDown(w) => next == Widget::DropDown(w.clicked(p)) && cmds.len() == 0,
            _ => next == self && cmds.len() == 0,
        }
    }

    pub fn on_click(&mut self, p: Vector) -> (r: Vec<(u64, LayerInstruction)>)
        ensures
            old(self).click_next(p, *final(self), r@),
    {
        match self {
            Widget::ImageButton(w) => {
                w.on_click();
                Vec::new()
            },
            Widget::TextButton(w) => {
                w.on_click();
                Vec::new()
            },
            Widget::Button(w) => {
                w.on_click();
                Vec::new()
            },
            Widget::Concealer(w) => w.on_click(p),
            Widget::ConcealerManager(w) => w.on_click(p),
            Widget::DropDown(w) => {
                w.on_click(p);
                Vec::new()
            },
            _ => Vec::new(),
        }
    }

    /// `next` is the widget after `key` went down or up.
    pub open spec fn key_next(self, key: Key, down: bool, next: Widget) -> bool {
        match self {
            Widget::Input(w) => next matches Widget::Input(n) && w.key_pressed(key, down, n),
            _ => next == self,
        }
    }

    pub fn on_key_press(&mut self, key: Key, down: bool)
        ensures
            old(self).key_next(key, down, *final(self)),
    {
        match self {
            Widget::Input(w) => w.on_key_press(key, down),
            _ => {},
        }
    }

    /// `next` is the widget after `c` was typed.
    pub open spec fn typed_next(self, c: char, next: Widget) -> bool {
        match self {
            Widget::Input(w) => next matches Widget::Input(n) && w.typed(c, n),
            _ => next == self,
        }
    }

    pub fn on_typed(&mut self, c: char)
        ensures
            old(self).typed_next(c, *final(self)),
    {
        match self {
            Widget::Input(w) => w.on_typed(c),
            _ => {},
        }
    }

    /// What drawing the widget takes.
    pub open spec fn spec_ops(&self) -> Seq<DrawOpView> {
        match self {
            Widget::Text(w) => w.spec_ops(),
            Widget::Image(w) => w.spec_ops(),
            Widget::ImageButton(w) => w.spec_ops(),
            Widget::TextButton(w) => w.spec_ops(),
            Widget::Button(w) => w.spec_ops(),
            Widget::Concealer(w) => w.spec_ops(),
            Widget::ConcealerManager(w) => w.spec_ops(),
            Widget::DropDown(w) => w.spec_ops(),
            Widget::Input(w) => w.spec_ops(),
        }
    }

    pub fn render(&self) -> (r: Vec<DrawOp>)
        ensures
            ops_view(r@) == self.spec_ops(),
    {
        match self {
            Widget::Text(w) => w.render(),
            Widget::Image(w) => w.render(),
            Widget::ImageButton(w) => w.render(),
            Widget::TextButton(w) => w.render(),
            Widget::Button(w) => w.render(),
            Widget::Concealer(w) => w.render(),
            Widget::ConcealerManager(w) => w.render(),
            Widget::DropDown(w) => w.render(),
            Widget::Input(w) => w.render(),
        }
    }

    /// What adding the widget asks of layers: a panel starts out closed.
    pub open spec fn spec_setup(&self) -> Seq<(u64, LayerInstruction)> {
        match self {
            Widget::Concealer(w) => seq![(w.layer, LayerInstruction::SetActive(false))],
            Widget::ConcealerManager(w) => w.concealers@.map_values(
                |c: Concealer| (c.layer, LayerInstruction::SetActive(false)),
            ),
            _ => seq![],
        }
    }

    pub fn setup(&self) -> (r: Vec<(u64, LayerInstruction)>)
        ensures
            r@ == self.spec_setup(),
    {
        match self {
            Widget::Concealer(w) => {
                let r = vec![(w.layer, LayerInstruction::SetActive(false))];
                assert(r@ =~= self.spec_setup());
                r
            },
            Widget::ConcealerManager(w) => {
                let mut r: Vec<(u64, LayerInstruction)> = Vec::new();
                let mut i: usize = 0;
                while i < w.concealers.len()
                    invariant
                        i <= w.concealers@.len(),
                        r@ == w.concealers@.take(i as int).map_values(
                            |c: Concealer| (c.layer, LayerInstruction::SetActive(false)),
                        ),
                    decreases w.concealers@.len() - i,
                {
                    r.push((w.concealers[i].layer, LayerInstruction::SetActive(false)));
                    i = i + 1;
                    proof {
                        assert(r@ =~= w.concealers@.take(i as int).map_values(
                            |c: Concealer| (c.layer, LayerInstruction::SetActive(false)),
                        ));
                    }
                }
                proof {
                    assert(w.concealers@.take(i as int) =~= w.concealers@);
                }
                r
            },
            _ => {
                let r = Vec::new();
                assert(r@ =~= self.spec_setup());
                r
            },
        }
    }

    /// The clicks the widget holds for its channel.
    pub open spec fn clicks(&self) -> nat {
        match self {
            Widget::ImageButton(w) => w.channel@,
            Widget::TextButton(w) => w.channel@,
            Widget::Button(w) => w.channel@,
            Widget::Concealer(w) => w.button.channel@,
            _ => 0,
        }
    }

    /// The widget once its clicks were handed over.
    pub open spec fn cleared(self) -> Widget {
        match self {
            Widget::ImageButton(w) => Widget::ImageButton(
                ImageButton { channel: ClickSetter::spec_fresh(), ..w },
            ),
            Widget::TextButton(w) => Widget::TextButton(
                TextButton { channel: ClickSetter::spec_fresh(), ..w },
            ),
            Widget::Button(w) => Widget::Button(Button { channel: ClickSetter::spec_fresh(), ..w }),
            Widget::Concealer(w) => Widget::Concealer(
                Concealer { button: Button { channel: ClickSetter::spec_fresh(), ..w.button }, ..w },
            ),
            _ => self,
        }
    }

    /// Hands the widget's clicks over to `into`.
    pub fn take_clicks(&mut self, into: &mut BasicClickable)
        ensures
            final(into)@ == joined(old(into)@, old(self).clicks()),
            *final(self) == old(self).cleared(),
    {
        match self {
            Widget::ImageButton(w) => into.receive(&mut w.channel),
            Widget::TextButton(w) => into.receive(&mut w.channel),
            Widget::Button(w) => into.receive(&mut w.channel),
            Widget::Concealer(w) => into.receive(&mut w.button.channel),
            _ => {
                proof {
                    old(into).lemma_bound();
                    assert(joined(old(into)@, 0) == old(into)@);
                }
            },
        }
    }
}

impl WidgetConfig<()> for Text {
    open spec fn built(self, w: Widget, channel: ()) -> bool {
        w == Widget::Text(self)
    }

    fn to_widget(self) -> (r: (Widget, ())) {
        (Widget::Text(self), ())
    }
}

impl WidgetConfig<()> for Image {
    open spec fn built(self, w: Widget, channel: ()) -> bool {
        w == Widget::Image(self)
    }

    fn to_widget(self) -> (r: (Widget, ())) {
        (Widget::Image(self), ())
    }
}

impl WidgetConfig<BasicClickable> for ImageButtonConfig {
    open spec fn built(self, w: Widget, channel: BasicClickable) -> bool {
        w == Widget::ImageButton(self.spec_widget()) && channel@ == 0
    }

    fn to_widget(self) -> (r: (Widget, BasicClickable)) {
        let (w, c) = ImageButtonConfig::to_widget(self);
        (Widget::ImageButton(w), c)
    }
}

impl WidgetConfig<BasicClickable> for TextButtonConfig {
    open spec fn built(self, w: Widget, channel: BasicClickable) -> bool {
        w == Widget::TextButton(self.spec_widget()) && channel@ == 0
    }

    fn to_widget(self) -> (r: (Widget, BasicClickable)) {
        let (w, c) = TextButtonConfig::to_widget(self);
        (Widget::TextButton(w), c)
    }
}

impl WidgetConfig<BasicClickable> for ButtonConfig {
    open spec fn built(self, w: Widget, channel: BasicClickable) -> bool {
        w == Widget::Button(self.spec_widget()) && channel@ == 0
    }

    fn to_widget(self) -> (r: (Widget, BasicClickable)) {
        let (w, c) = ButtonConfig::to_widget(self);
        (Widget::Button(w), c)
    }
}

impl WidgetConfig<ConcealerReturn> for ConcealerConfig {
    open spec fn built(self, w: Widget, channel: ConcealerReturn) -> bool {
        &&& w matches Widget::Concealer(c) && ConcealerConfig::built(self, c, channel)
        &&& w.spec_setup() == seq![(self.layer.spec_id(), LayerInstruction::SetActive(false))]
    }

    fn to_widget(self) -> (r: (Widget, ConcealerReturn)) {
        let (w, c) = ConcealerConfig::to_widget(self);
        (Widget::Concealer(w), c)
    }
}

impl WidgetConfig<ConcealerManagerReturn> for ConcealerManagerConfig {
    open spec fn built(self, w: Widget, channel: ConcealerManagerReturn) -> bool {
        w matches Widget::ConcealerManager(m) && ConcealerManagerConfig::built(self, m, channel)
    }

    fn to_widget(self) -> (r: (Widget, ConcealerManagerReturn)) {
        let (w, c) = ConcealerManagerConfig::to_widget(self);
        (Widget::ConcealerManager(w), c)
    }
}

impl WidgetConfig<Dropdown> for DropDownConfig {
    open spec fn built(self, w: Widget, channel: Dropdown) -> bool {
        w matches Widget::DropDown(d) && DropDownConfig::built(self, d, channel)
    }

    fn to_widget(self) -> (r: (Widget, Dropdown)) {
        let (w, c) = DropDownConfig::to_widget(self);
        (Widget::DropDown(w), c)
    }
}

impl WidgetConfig<InputLink> for InputConfig {
    open spec fn built(self, w: Widget, channel: InputLink) -> bool {
        w matches Widget::Input(i) && InputConfig::built(self, i, channel)
    }

    fn to_widget(self) -> (r: (Widget, InputLink)) {
        let (w, c) = InputConfig::to_widget(self);
        (Widget::Input(w), c)
    }
}

} // verus!
