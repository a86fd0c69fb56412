//! The plain widgets: text, image, the two clickable parts of a button and
//! the button made of them.
use vstd::prelude::*;
use crate::clickable::{BasicClickable, ClickSetter};
use crate::draw::{copy_string, text_op, Color, DrawOp, DrawOpView, FontStyle, ImageId, ops_view};
use crate::geometry::{Rectangle, Vector};

verus! {

/// Text that the user cannot interact with.
pub struct Text {
    pub text: String,
    pub font_style: FontStyle,
}

impl Text {
    pub open spec fn spec_ops(&self) -> Seq<DrawOpView> {
        seq![text_op(self.font_style, self.text@, self.font_style.location)]
    }

    pub fn render(&self) -> (r: Vec<DrawOp>)
        ensures
            ops_view(r@) == self.spec_ops(),
    {
        let op = DrawOp::Text {
            font: self.font_style.font,
            text: copy_string(&self.text),
            color: self.font_style.color,
            at: self.font_style.location,
        };
        let r = vec![op];
        proof {
            assert(ops_view(r@) =~= self.spec_ops());
        }
        r
    }

    /// Gives `widget` this text and style.
    pub fn edit_widget(self, _widget: Text) -> (r: Text)
        ensures
            r == self,
    {
        self
    }
}

/// An image that the user cannot interact with.
#[derive(Clone, Copy, Debug, PartialEq, Eq, Structural)]
pub struct Image {
    pub image: ImageId,
    pub location: Rectangle,
}

impl Image {
    pub open spec fn spec_ops(&self) -> Seq<DrawOpView> {
        seq![DrawOpView::Image { image: self.image, area: self.location }]
    }

    pub fn render(&self) -> (r: Vec<DrawOp>)
        ensures
            ops_view(r@) == self.spec_ops(),
    {
        let r = vec![DrawOp::Image { image: self.image, area: self.location }];
        proof {
            assert(ops_view(r@) =~= self.spec_ops());
        }
        r
    }
}

/// How to build an image that reports clicks.
#[derive(Clone, Copy, Debug, PartialEq, Eq, Structural)]
pub struct ImageButtonConfig {
    pub image: ImageId,
    /// The tint while the pointer is elsewhere.
    pub color: Option<Color>,
    /// The tint while the pointer hovers over it.
    pub hover_color: Option<Color>,
    pub location: Rectangle,
}

/// An image that reports clicks.
pub struct ImageButton {
    pub button: ImageButtonConfig,
    pub channel: ClickSetter,
    pub is_hovering: bool,
}

/// The tint an image button is drawn with, if any.
pub open spec fn tint_of(color: Option<Color>, hover_color: Option<Color>, hovering: bool) -> Option<
    Color,
> {
    match (color, hover_color, hovering) {
        (Some(c), _, false) => Some(c),
        (Some(c), None, true) => Some(c),
        (_, Some(c), true) => Some(c),
        _ => None,
    }
}

impl ImageButtonConfig {
    pub open spec fn spec_widget(self) -> ImageButton {
        ImageButton { button: self, channel: ClickSetter::spec_fresh(), is_hovering: false }
    }

    pub fn to_widget(self) -> (r: (ImageButton, BasicClickable))
        ensures
            r.0 == self.spec_widget(),
            r.1@ == 0,
    {
        let (res, channel) = BasicClickable::new();
        (ImageButton { button: self, channel, is_hovering: false }, res)
    }
}

impl ImageButton {
    /// Containment counts the image's edges in.
    pub open spec fn spec_contains(&self, p: Vector) -> bool {
        self.button.location.spec_covers(p)
    }

    pub fn contains(&self, p: Vector) -> (r: bool)
        ensures
            r == self.spec_contains(p),
    {
        self.button.location.covers(p)
    }

    pub open spec fn spec_ops(&self) -> Seq<DrawOpView> {
        match tint_of(self.button.color, self.button.hover_color, self.is_hovering) {
            Some(c) => seq![
                DrawOpView::TintedImage {
                    image: self.button.image,
                    area: self.button.location,
                    tint: c,
                },
            ],
            None => seq![DrawOpView::Image { image: self.button.image, area: self.button.location }],
        }
    }

    pub fn render(&self) -> (r: Vec<DrawOp>)
        ensures
            ops_view(r@) == self.spec_ops(),
    {
        let tint = match (self.button.color, self.button.hover_color, self.is_hovering) {
            (Some(c), _, false) => Some(c),
            (Some(c), None, true) => Some(c),
            (_, Some(c), true) => Some(c),
            _ => None,
        };
        let r = match tint {
            Some(c) => vec![
                DrawOp::TintedImage { image: self.button.image, area: self.button.location, tint: c },
            ],
            None => vec![DrawOp::Image { image: self.button.image, area: self.button.location }],
        };
        proof {
            assert(ops_view(r@) =~= self.spec_ops());
        }
        r
    }

    pub fn on_click(&mut self)
        ensures
            final(self).channel == old(self).channel.after_click(),
            final(self).button == old(self).button,
            final(self).is_hovering == old(self).is_hovering,
    {
        self.channel.clicked();
    }
}

/// How to build a piece of text that reports clicks.
pub struct TextButtonConfig {
    pub text: String,
    pub font_style: FontStyle,
}

/// Text that reports clicks. It takes no part in hit-testing, so clicks only
/// reach it through a widget that holds it.
pub struct TextButton {
    pub button: TextButtonConfig,
    pub channel: ClickSetter,
}

impl TextButtonConfig {
    pub open spec fn spec_widget(self) -> TextButton {
        TextButton { button: self, channel: ClickSetter::spec_fresh() }
    }

    pub fn to_widget(self) -> (r: (TextButton, BasicClickable))
        ensures
            r.0 == self.spec_widget(),
            r.1@ == 0,
    {
        let (res, channel) = BasicClickable::new();
        (TextButton { button: self, channel }, res)
    }

    /// Gives `widget` this text and style; its channel stays.
    pub fn edit_widget(self, widget: TextButton) -> (r: TextButton)
        ensures
            r == (TextButton { button: self, channel: widget.channel }),
    {
        TextButton { button: self, channel: widget.channel }
    }
}

impl TextButton {
    pub open spec fn spec_ops(&self) -> Seq<DrawOpView> {
        seq![text_op(self.button.font_style, self.button.text@, self.button.font_style.location)]
    }

    pub fn render(&self) -> (r: Vec<DrawOp>)
        ensures
            ops_view(r@) == self.spec_ops(),
    {
        let r = vec![
            DrawOp::Text {
                font: self.button.font_style.font,
                text: copy_string(&self.button.text),
                color: self.button.font_style.color,
                at: self.button.font_style.location,
            },
        ];
        proof {
            assert(ops_view(r@) =~= self.spec_ops());
        }
        r
    }

    pub fn on_click(&mut self)
        ensures
            final(self).channel == old(self).channel.after_click(),
            final(self).button == old(self).button,
    {
        self.channel.clicked();
    }
}

/// How to build a button: a background image with text over it.
pub struct ButtonConfig {
    pub text: String,
    /// The text's style; its location is taken relative to the background.
    pub font_style: FontStyle,
    pub background: ImageId,
    pub background_location: Rectangle,
    /// The tint of the background while the pointer is elsewhere.
    pub blend_color: Option<Color>,
    /// The tint of the background while the pointer hovers over it.
    pub hover_color: Option<Color>,
}

/// A background image with text over it, reporting clicks.
pub struct Button {
    pub text: TextButton,
    pub background: ImageButton,
    pub channel: ClickSetter,
}

impl ButtonConfig {
    /// The text part, placed relative to the background.
    pub open spec fn spec_text(self) -> TextButtonConfig {
        TextButtonConfig {
            text: self.text,
            font_style: FontStyle {
                location: self.font_style.location.spec_add(self.background_location.pos),
                ..self.font_style
            },
        }
    }

    pub open spec fn spec_background(self) -> ImageButtonConfig {
        ImageButtonConfig {
            image: self.background,
            location: self.background_location,
            color: self.blend_color,
            hover_color: self.hover_color,
        }
    }

    pub open spec fn spec_widget(self) -> Button {
        Button {
            text: self.spec_text().spec_widget(),
            background: self.spec_background().spec_widget(),
            channel: ClickSetter::spec_fresh(),
        }
    }

    fn parts(self) -> (r: (TextButtonConfig, ImageButtonConfig))
        ensures
            r.0 == self.spec_text(),
            r.1 == self.spec_background(),
    {
        let location = self.font_style.location.add(self.background_location.pos);
        let font_style = FontStyle { location, ..self.font_style };
        (
            TextButtonConfig { text: self.text, font_style },
            ImageButtonConfig {
                image: self.background,
                location: self.background_location,
                color: self.blend_color,
                hover_color: self.hover_color,
            },
        )
    }

    pub fn to_widget(self) -> (r: (Button, BasicClickable))
        ensures
            r.0 == self.spec_widget(),
            r.1@ == 0,
    {
        let (res, channel) = BasicClickable::new();
        let (text, background) = self.parts();
        let (text, _) = text.to_widget();
        let (background, _) = background.to_widget();
        (Button { text, background, channel }, res)
    }

    /// Gives `widget` this text, style and background; its channels and
    /// hover state stay.
    pub fn edit_widget(self, widget: Button) -> (r: Button)
        ensures
            r.text == (TextButton { button: self.spec_text(), channel: widget.text.channel }),
            r.background == (ImageButton {
                button: self.spec_background(),
                ..widget.background
            }),
            r.channel == widget.channel,
    {
        let (text, background) = self.parts();
        let Button { text: old_text, background: old_background, channel } = widget;
        let text = text.edit_widget(old_text);
        let background = ImageButton {
            button: background,
            channel: old_background.channel,
            is_hovering: old_background.is_hovering,
        };
        Button { text, background, channel }
    }
}

impl Button {
    pub open spec fn spec_contains(&self, p: Vector) -> bool {
        self.background.spec_contains(p)
    }

    pub fn contains(&self, p: Vector) -> (r: bool)
        ensures
            r == self.spec_contains(p),
    {
        self.background.contains(p)
    }

    pub open spec fn spec_ops(&self) -> Seq<DrawOpView> {
        self.background.spec_ops() + self.text.spec_ops()
    }

    pub fn render(&self) -> (r: Vec<DrawOp>)
        ensures
            ops_view(r@) == self.spec_ops(),
    {
        let mut r = self.background.render();
        let mut t = self.text.render();
        let ghost a = r@;
        let ghost b = t@;
        r.append(&mut t);
        proof {
            assert(r@ == a + b);
            assert(ops_view(r@) =~= ops_view(a) + ops_view(b));
        }
        r
    }

    pub open spec fn with_hover(self, state: bool) -> Button {
        Button { background: ImageButton { is_hovering: state, ..self.background }, ..self }
    }

    pub fn set_hover(&mut self, state: bool)
        ensures
            *final(self) == old(self).with_hover(state),
    {
        self.background.is_hovering = state;
    }

    pub open spec fn after_click(self) -> Button {
        Button { channel: self.channel.after_click(), ..self }
    }

    pub fn on_click(&mut self)
        ensures
            *final(self) == old(self).after_click(),
    {
        self.channel.clicked();
    }
}

} // verus!
