use mergui::{
    BasicClickable, ButtonConfig, Color, Context, CursorIcon, DrawOp, Event, FontId, FontStyle,
    ImageId, Key, LayerNotFound, Rectangle, Text, Vector, Widget,
};

fn style() -> FontStyle {
    FontStyle {
        font: FontId(0),
        size: 10,
        location: Vector::new(0, 0),
        color: Color { r: 0, g: 0, b: 0, a: 255 },
    }
}

fn button(x: i32, y: i32) -> ButtonConfig {
    ButtonConfig {
        text: "press".to_string(),
        font_style: style(),
        background: ImageId(1),
        background_location: Rectangle::new(Vector::new(x, y), Vector::new(100, 50)),
        blend_color: None,
        hover_color: None,
    }
}

fn label(text: &str) -> Text {
    Text { text: text.to_string(), font_style: style() }
}

fn click_at(ctx: &mut Context, x: i32, y: i32) {
    ctx.event(&Event::PointerMoved(Vector::new(x, y)));
    ctx.event(&Event::PointerInput { left: true, down: true });
    ctx.event(&Event::PointerInput { left: true, down: false });
}

fn ids(frame: &[mergui::RenderedWidget]) -> Vec<(u64, u64, u64)> {
    frame.iter().map(|w| (w.order, w.layer, w.widget)).collect()
}

#[test]
fn new_context_renders_nothing() {
    let mut ctx = Context::new();
    assert!(ctx.render().is_empty());
}

#[test]
fn layers_get_increasing_numbers() {
    let mut ctx = Context::new();
    let a = ctx.add_layer();
    let b = ctx.add_singular_layer();
    let c = ctx.add_layer();
    assert_eq!((a.id(), b.id(), c.id()), (1, 2, 3));
}

#[test]
fn widgets_render_in_insertion_order() {
    let mut ctx = Context::new();
    let layer = ctx.add_layer();
    let w1 = ctx.add_widget(label("one"), &layer).unwrap();
    let w2 = ctx.add_widget(label("two"), &layer).unwrap();
    let w3 = ctx.add_widget(label("three"), &layer).unwrap();
    assert_eq!((w1.id.id(), w2.id.id(), w3.id.id()), (1, 2, 3));
    let first = ids(&ctx.render());
    assert_eq!(first, vec![(0, 1, 1), (1, 1, 2), (2, 1, 3)]);
    let second = ids(&ctx.render());
    assert_eq!(second, first);
}

#[test]
fn layers_render_in_insertion_order() {
    let mut ctx = Context::new();
    let back = ctx.add_layer();
    let front = ctx.add_layer();
    let _f = ctx.add_widget(label("front"), &front).unwrap();
    let _b = ctx.add_widget(label("back"), &back).unwrap();
    assert_eq!(ids(&ctx.render()), vec![(0, 1, 1), (1, 2, 1)]);
}

#[test]
fn dropped_widget_is_gone_after_drain() {
    let mut ctx = Context::new();
    let layer = ctx.add_layer();
    let w1 = ctx.add_widget(label("one"), &layer).unwrap();
    let w2 = ctx.add_widget(label("two"), &layer).unwrap();
    let w3 = ctx.add_widget(label("three"), &layer).unwrap();
    ctx.drop_widget(w2.id);
    assert!(ctx.widget(&w1.id).is_some());
    assert_eq!(ids(&ctx.render()), vec![(0, 1, 1), (1, 1, 3)]);
    assert!(ctx.widget(&w3.id).is_some());
    let w4 = ctx.add_widget(label("four"), &layer).unwrap();
    assert_eq!(w4.id.id(), 4);
    assert_eq!(ids(&ctx.render()), vec![(0, 1, 1), (1, 1, 3), (2, 1, 4)]);
}

#[test]
fn releasing_the_only_layer_token_removes_its_widgets() {
    let mut ctx = Context::new();
    let layer = ctx.add_layer();
    let other = ctx.add_layer();
    let w1 = ctx.add_widget(label("one"), &layer).unwrap();
    let _w2 = ctx.add_widget(label("two"), &layer).unwrap();
    let _w3 = ctx.add_widget(label("three"), &other).unwrap();
    ctx.drop_widget(w1.id);
    ctx.release_layer(layer);
    assert_eq!(ids(&ctx.render()), vec![(0, 2, 1)]);
}

#[test]
fn shared_layer_stays_until_every_token_is_released() {
    let mut ctx = Context::new();
    let layer = ctx.add_layer();
    let shared = ctx.share_layer(&layer);
    let _w = ctx.add_widget(label("one"), &layer).unwrap();
    ctx.release_layer(layer);
    assert_eq!(ctx.render().len(), 1);
    ctx.release_layer(shared);
    assert_eq!(ctx.render().len(), 0);
}

#[test]
fn add_widget_to_missing_layer_fails() {
    let mut elsewhere = Context::new();
    let foreign = elsewhere.add_layer();
    let mut ctx = Context::new();
    let r = ctx.add_widget(label("lost"), &foreign);
    assert!(matches!(r, Err(LayerNotFound)));
}

#[test]
fn hidden_layer_is_skipped_until_shown() {
    let mut ctx = Context::new();
    let layer = ctx.add_layer();
    let _w = ctx.add_widget(label("one"), &layer).unwrap();
    layer.set_is_active(&mut ctx, false);
    assert!(layer.get_active(&ctx));
    assert_eq!(ctx.render().len(), 0);
    assert!(!layer.get_active(&ctx));
    layer.set_is_active(&mut ctx, true);
    assert_eq!(ctx.render().len(), 1);
}

#[test]
fn topmost_widget_alone_is_hovered() {
    let mut ctx = Context::new();
    let layer = ctx.add_layer();
    let below = ctx.add_widget(button(0, 0), &layer).unwrap();
    let above = ctx.add_widget(button(50, 0), &layer).unwrap();
    let hovered = |ctx: &Context, id: &mergui::WidgetId| match ctx.widget(id) {
        Some(Widget::Button(b)) => b.background.is_hovering,
        _ => panic!("not a button"),
    };
    assert_eq!(ctx.event(&Event::PointerMoved(Vector::new(75, 10))), Some(CursorIcon::Hand));
    assert!(!hovered(&ctx, &below.id));
    assert!(hovered(&ctx, &above.id));
    assert_eq!(ctx.event(&Event::PointerMoved(Vector::new(10, 10))), Some(CursorIcon::Hand));
    assert!(hovered(&ctx, &below.id));
    assert!(!hovered(&ctx, &above.id));
    assert_eq!(ctx.event(&Event::PointerMoved(Vector::new(500, 500))), Some(CursorIcon::Default));
    assert!(!hovered(&ctx, &below.id));
    assert!(!hovered(&ctx, &above.id));
}

#[test]
fn clicks_survive_until_polled_once() {
    let mut ctx = Context::new();
    let layer = ctx.add_layer();
    let mut b = ctx.add_widget(button(0, 0), &layer).unwrap();
    click_at(&mut ctx, 10, 10);
    click_at(&mut ctx, 10, 10);
    assert!(ctx.has_clicked(&mut b));
    assert!(!ctx.has_clicked(&mut b));
    click_at(&mut ctx, 500, 500);
    assert!(!ctx.has_clicked(&mut b));
}

#[test]
fn held_button_clicks_once() {
    let mut ctx = Context::new();
    let layer = ctx.add_layer();
    let mut b = ctx.add_widget(button(0, 0), &layer).unwrap();
    ctx.event(&Event::PointerMoved(Vector::new(10, 10)));
    ctx.event(&Event::PointerInput { left: true, down: true });
    ctx.event(&Event::PointerInput { left: true, down: true });
    assert!(ctx.has_clicked(&mut b));
    ctx.event(&Event::PointerInput { left: true, down: true });
    assert!(!ctx.has_clicked(&mut b));
    ctx.event(&Event::PointerInput { left: false, down: true });
    ctx.event(&Event::PointerInput { left: true, down: false });
    ctx.event(&Event::PointerInput { left: true, down: false });
    ctx.event(&Event::PointerInput { left: true, down: true });
    assert!(ctx.has_clicked(&mut b));
}

#[test]
fn button_draws_background_then_text() {
    let mut ctx = Context::new();
    let layer = ctx.add_layer();
    let _b = ctx.add_widget(button(5, 7), &layer).unwrap();
    let frame = ctx.render();
    assert_eq!(frame.len(), 1);
    match &frame[0].ops[..] {
        [DrawOp::Image { image, area }, DrawOp::Text { text, at, .. }] => {
            assert_eq!(*image, ImageId(1));
            assert_eq!(*area, Rectangle::new(Vector::new(5, 7), Vector::new(100, 50)));
            assert_eq!(text, "press");
            assert_eq!(*at, Vector::new(5, 7));
        },
        other => panic!("unexpected operations {:?}", other),
    }
}

#[test]
fn hover_tint_follows_pointer() {
    let mut ctx = Context::new();
    let layer = ctx.add_layer();
    let green = Color { r: 0, g: 255, b: 0, a: 255 };
    let red = Color { r: 255, g: 0, b: 0, a: 255 };
    let mut cfg = button(0, 0);
    cfg.blend_color = Some(green);
    cfg.hover_color = Some(red);
    let _b = ctx.add_widget(cfg, &layer).unwrap();
    let tint = |ctx: &mut Context| match &ctx.render()[0].ops[0] {
        DrawOp::TintedImage { tint, .. } => *tint,
        other => panic!("unexpected {:?}", other),
    };
    assert_eq!(tint(&mut ctx), green);
    ctx.event(&Event::PointerMoved(Vector::new(1, 1)));
    assert_eq!(tint(&mut ctx), red);
}

#[test]
fn keys_without_focus_change_nothing() {
    let mut ctx = Context::new();
    let layer = ctx.add_layer();
    let _w = ctx.add_widget(label("one"), &layer).unwrap();
    assert_eq!(ctx.event(&Event::KeyboardInput { key: Key::Back, down: true }), None);
    assert_eq!(ctx.event(&Event::ReceivedCharacter('x')), None);
    assert_eq!(ctx.event(&Event::Other), None);
    assert_eq!(ctx.render().len(), 1);
}

#[test]
fn clicks_are_handed_to_a_channel() {
    let mut ctx = Context::new();
    let layer = ctx.add_layer();
    let b = ctx.add_widget(button(0, 0), &layer).unwrap();
    let (mut channel, _) = BasicClickable::new();
    click_at(&mut ctx, 1, 1);
    ctx.take_clicks(&b.id, &mut channel);
    assert!(channel.has_clicked());
    assert!(!channel.has_clicked());
}
