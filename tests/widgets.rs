use mergui::channels::Concealer;
use mergui::Clickable;
use mergui::{
    ButtonConfig, Color, ConcealerConfig, ConcealerManagerConfig, Context, CursorIcon, DrawOp,
    DropDownConfig, DropDownValueConfig, Event, FontId, FontStyle, ImageId, InputConfig, Key,
    PlaceholderConfig, Rectangle, Text, Vector, Widget,
};

fn style(size: i32) -> FontStyle {
    FontStyle {
        font: FontId(0),
        size,
        location: Vector::new(0, 0),
        color: Color { r: 0, g: 0, b: 0, a: 255 },
    }
}

fn button(x: i32, y: i32) -> ButtonConfig {
    ButtonConfig {
        text: "panel".to_string(),
        font_style: style(10),
        background: ImageId(1),
        background_location: Rectangle::new(Vector::new(x, y), Vector::new(100, 50)),
        blend_color: None,
        hover_color: None,
    }
}

fn click_at(ctx: &mut Context, x: i32, y: i32) {
    ctx.event(&Event::PointerMoved(Vector::new(x, y)));
    ctx.event(&Event::PointerInput { left: true, down: true });
    ctx.event(&Event::PointerInput { left: true, down: false });
}

fn dropdown(selected: Option<usize>) -> DropDownConfig {
    let values: Vec<DropDownValueConfig> = vec![
        (10u64, "ten".to_string(), style(5)).into(),
        (20u64, "twenty".to_string(), style(5)).into(),
        (30u64, "thirty".to_string(), style(5), style(7)).into(),
    ];
    DropDownConfig {
        values,
        location: Rectangle::new(Vector::new(0, 0), Vector::new(100, 20)),
        option_height: 20,
        open_button: ImageId(2),
        open_button_size: Vector::new(20, 20),
        selected,
        divider_color: Color { r: 1, g: 2, b: 3, a: 4 },
        divider_size: 1,
    }
}

fn field(start: Option<&str>) -> InputConfig {
    InputConfig {
        font: style(12),
        placeholder: Some(PlaceholderConfig { font: style(12), text: "name".to_string() }),
        location: Rectangle::new(Vector::new(0, 100), Vector::new(200, 30)),
        start_value: start.map(|s| s.to_string()),
    }
}

#[test]
fn panel_starts_hidden_and_toggles() {
    let mut ctx = Context::new();
    let main = ctx.add_layer();
    let mut hidden = ctx.add_singular_layer();
    let hidden_id = hidden.id();
    let _inner = hidden.add_widget(&mut ctx, Text { text: "inside".to_string(), font_style: style(10) }).unwrap();
    let mut panel = ctx.add_widget(ConcealerConfig { button: button(0, 0), layer: hidden }, &main).unwrap();
    assert!(panel.channel.is_concealing(&ctx));
    assert!(!ctx.layer_active(hidden_id));
    assert_eq!(ctx.render().len(), 1);
    assert!(panel.channel.is_concealing(&ctx));
    click_at(&mut ctx, 10, 10);
    assert_eq!(ctx.render().len(), 2);
    assert!(!panel.channel.is_concealing(&ctx));
    assert!(ctx.layer_active(hidden_id));
    ctx.take_clicks(&panel.id, &mut panel.channel.main_button);
    assert!(panel.channel.main_button.has_clicked());
    click_at(&mut ctx, 10, 10);
    assert_eq!(ctx.render().len(), 1);
    panel.channel.set_concealed(&mut ctx, false);
    assert_eq!(ctx.render().len(), 2);
}

#[test]
fn manager_keeps_one_panel_open() {
    let mut ctx = Context::new();
    let main = ctx.add_layer();
    let mut first = ctx.add_singular_layer();
    let mut second = ctx.add_singular_layer();
    let (a, b) = (first.id(), second.id());
    let _x = first.add_widget(&mut ctx, Text { text: "a".to_string(), font_style: style(10) }).unwrap();
    let _y = second.add_widget(&mut ctx, Text { text: "b".to_string(), font_style: style(10) }).unwrap();
    let manager = ctx
        .add_widget(
            ConcealerManagerConfig {
                concealers: vec![
                    ConcealerConfig { button: button(0, 0), layer: first },
                    ConcealerConfig { button: button(0, 100), layer: second },
                ],
            },
            &main,
        )
        .unwrap();
    assert_eq!(manager.channel.len(), 2);
    ctx.render();
    assert_eq!((ctx.layer_active(a), ctx.layer_active(b)), (false, false));
    assert_eq!(ctx.active_concealer(&manager.id), None);
    click_at(&mut ctx, 10, 10);
    ctx.render();
    assert_eq!((ctx.layer_active(a), ctx.layer_active(b)), (true, false));
    assert_eq!(ctx.active_concealer(&manager.id), Some(0));
    click_at(&mut ctx, 10, 110);
    ctx.render();
    assert_eq!((ctx.layer_active(a), ctx.layer_active(b)), (false, true));
    assert_eq!(ctx.active_concealer(&manager.id), Some(1));
    click_at(&mut ctx, 10, 110);
    ctx.render();
    assert_eq!((ctx.layer_active(a), ctx.layer_active(b)), (false, false));
    assert_eq!(ctx.active_concealer(&manager.id), None);
}

#[test]
fn manager_index_can_be_set_without_showing() {
    let mut ctx = Context::new();
    let main = ctx.add_layer();
    let first = ctx.add_singular_layer();
    let a = first.id();
    let manager = ctx
        .add_widget(ConcealerManagerConfig { concealers: vec![ConcealerConfig { button: button(0, 0), layer: first }] }, &main)
        .unwrap();
    assert!(ctx.set_active_concealer(&manager.id, Some(0)));
    assert_eq!(ctx.active_concealer(&manager.id), Some(0));
    ctx.render();
    assert!(!ctx.layer_active(a));
    assert_eq!(manager.channel.get_layer(0).map(|l| l.id()), Some(a));
    assert!(manager.channel.get_layer(1).is_none());
}

#[test]
fn dropdown_reports_initial_selection() {
    let mut ctx = Context::new();
    let layer = ctx.add_layer();
    let d = ctx.add_widget(dropdown(Some(1)), &layer).unwrap();
    assert_eq!(ctx.dropdown_value(&d.id), Some(20));
    assert_eq!(d.channel.values, vec![10, 20, 30]);
    assert_eq!(d.channel.get_value(Some(2)), Some(30));
    assert_eq!(d.channel.get_value(Some(3)), None);
    assert_eq!(d.channel.get_value(None), None);
    assert!(!ctx.dropdown_is_open(&d.id));
}

#[test]
fn dropdown_click_selects_row_and_closes() {
    let mut ctx = Context::new();
    let layer = ctx.add_layer();
    let d = ctx.add_widget(dropdown(Some(1)), &layer).unwrap();
    click_at(&mut ctx, 10, 10);
    assert!(ctx.dropdown_is_open(&d.id));
    assert_eq!(ctx.dropdown_value(&d.id), Some(20));
    click_at(&mut ctx, 10, 65);
    assert!(!ctx.dropdown_is_open(&d.id));
    assert_eq!(ctx.dropdown_value(&d.id), Some(30));
    click_at(&mut ctx, 110, 5);
    assert!(ctx.dropdown_is_open(&d.id));
    click_at(&mut ctx, 10, 25);
    assert_eq!(ctx.dropdown_value(&d.id), Some(10));
}

#[test]
fn dropdown_closes_when_focus_moves() {
    let mut ctx = Context::new();
    let layer = ctx.add_layer();
    let d = ctx.add_widget(dropdown(None), &layer).unwrap();
    let _f = ctx.add_widget(field(None), &layer).unwrap();
    click_at(&mut ctx, 10, 10);
    assert!(ctx.dropdown_is_open(&d.id));
    click_at(&mut ctx, 10, 110);
    assert!(!ctx.dropdown_is_open(&d.id));
    assert_eq!(ctx.dropdown_value(&d.id), None);
}

#[test]
fn dropdown_draws_rows_while_open() {
    let mut ctx = Context::new();
    let layer = ctx.add_layer();
    let _d = ctx.add_widget(dropdown(None), &layer).unwrap();
    let closed = ctx.render();
    assert_eq!(closed[0].ops.len(), 3);
    match &closed[0].ops[..] {
        [DrawOp::Image { image, area }, DrawOp::StrokeRect { .. }, DrawOp::Text { text, at, .. }] => {
            assert_eq!(*image, ImageId(2));
            assert_eq!(*area, Rectangle::new(Vector::new(100, 0), Vector::new(20, 20)));
            assert_eq!(text, "ten");
            assert_eq!(*at, Vector::new(0, 5));
        },
        other => panic!("unexpected {:?}", other),
    }
    click_at(&mut ctx, 10, 10);
    ctx.event(&Event::PointerMoved(Vector::new(10, 45)));
    let open = ctx.render();
    assert_eq!(open[0].ops.len(), 3 + 2 * 3);
    match &open[0].ops[7..9] {
        [DrawOp::Text { text, at, .. }, DrawOp::StrokeRect { area, .. }] => {
            assert_eq!(text, "thirty");
            assert_eq!(*at, Vector::new(0, 65));
            assert_eq!(*area, Rectangle::new(Vector::new(0, 60), Vector::new(100, 20)));
        },
        other => panic!("unexpected {:?}", other),
    }
    ctx.event(&Event::PointerMoved(Vector::new(10, 65)));
    match &ctx.render()[0].ops[7] {
        DrawOp::Text { text, at, .. } => {
            assert_eq!(text, "thirty");
            assert_eq!(*at, Vector::new(0, 67));
        },
        other => panic!("unexpected {:?}", other),
    }
    match &open[0].ops[5] {
        DrawOp::Text { text, at, .. } => {
            assert_eq!(text, "twenty");
            assert_eq!(*at, Vector::new(0, 45));
        },
        other => panic!("unexpected {:?}", other),
    }
}

#[test]
fn focused_field_takes_typing() {
    let mut ctx = Context::new();
    let layer = ctx.add_layer();
    let f = ctx.add_widget(field(Some("ab")), &layer).unwrap();
    assert_eq!(f.channel.get(&ctx, &f.id), Some("ab".to_string()));
    assert_eq!(ctx.event(&Event::PointerMoved(Vector::new(5, 105))), Some(CursorIcon::Text));
    ctx.event(&Event::PointerInput { left: true, down: true });
    ctx.event(&Event::ReceivedCharacter('x'));
    assert_eq!(ctx.input_value(&f.id), Some("xab".to_string()));
    ctx.event(&Event::KeyboardInput { key: Key::Right, down: true });
    ctx.event(&Event::KeyboardInput { key: Key::Right, down: true });
    ctx.event(&Event::ReceivedCharacter('y'));
    assert_eq!(ctx.input_value(&f.id), Some("xaby".to_string()));
    ctx.event(&Event::KeyboardInput { key: Key::Back, down: true });
    assert_eq!(ctx.input_value(&f.id), Some("xab".to_string()));
    ctx.event(&Event::KeyboardInput { key: Key::Left, down: true });
    ctx.event(&Event::KeyboardInput { key: Key::Back, down: false });
    ctx.event(&Event::KeyboardInput { key: Key::Back, down: true });
    assert_eq!(ctx.input_value(&f.id), Some("xb".to_string()));
    ctx.event(&Event::ReceivedCharacter('\n'));
    assert_eq!(ctx.input_value(&f.id), Some("xb".to_string()));
}

#[test]
fn press_on_empty_space_keeps_focus() {
    let mut ctx = Context::new();
    let layer = ctx.add_layer();
    let f = ctx.add_widget(field(None), &layer).unwrap();
    click_at(&mut ctx, 5, 105);
    ctx.event(&Event::ReceivedCharacter('a'));
    assert_eq!(ctx.input_value(&f.id), Some("a".to_string()));
    click_at(&mut ctx, 500, 500);
    ctx.event(&Event::ReceivedCharacter('b'));
    assert_eq!(ctx.input_value(&f.id), Some("ab".to_string()));
}

#[test]
fn topmost_of_two_fields_takes_focus() {
    let mut ctx = Context::new();
    let layer = ctx.add_layer();
    let below = ctx.add_widget(field(None), &layer).unwrap();
    let above = ctx.add_widget(field(None), &layer).unwrap();
    click_at(&mut ctx, 5, 105);
    ctx.event(&Event::ReceivedCharacter('z'));
    assert_eq!(ctx.input_value(&below.id), Some(String::new()));
    assert_eq!(ctx.input_value(&above.id), Some("z".to_string()));
}

#[test]
fn empty_field_draws_its_placeholder() {
    let mut ctx = Context::new();
    let layer = ctx.add_layer();
    let f = ctx.add_widget(field(None), &layer).unwrap();
    match &ctx.render()[0].ops[..] {
        [DrawOp::TextField { text, cursor, .. }] => {
            assert_eq!(text, "name");
            assert_eq!(*cursor, 0);
        },
        other => panic!("unexpected {:?}", other),
    }
    assert!(ctx.set_input_value(&f.id, "hi".to_string()));
    match &ctx.render()[0].ops[..] {
        [DrawOp::TextField { text, .. }] => assert_eq!(text, "hi"),
        other => panic!("unexpected {:?}", other),
    }
    match ctx.widget(&f.id) {
        Some(Widget::Input(i)) => assert_eq!(i.value.get(), "hi"),
        _ => panic!("not a field"),
    }
}

#[test]
fn field_value_is_normalized() {
    let mut ctx = Context::new();
    let layer = ctx.add_layer();
    let f = ctx.add_widget(field(Some("e\u{301}")), &layer).unwrap();
    assert_eq!(f.channel.get(&ctx, &f.id), Some("\u{e9}".to_string()));
    assert_eq!(ctx.input_value(&f.id), Some("\u{e9}".to_string()));
}

#[test]
fn manager_channel_reads_and_sets_the_open_panel() {
    let mut ctx = Context::new();
    let main = ctx.add_layer();
    let first = ctx.add_singular_layer();
    let second = ctx.add_singular_layer();
    let manager = ctx
        .add_widget(
            ConcealerManagerConfig {
                concealers: vec![
                    ConcealerConfig { button: button(0, 0), layer: first },
                    ConcealerConfig { button: button(0, 100), layer: second },
                ],
            },
            &main,
        )
        .unwrap();
    assert_eq!(manager.channel.get_current_active(&ctx, &manager.id), None);
    click_at(&mut ctx, 10, 110);
    assert_eq!(manager.channel.get_current_active(&ctx, &manager.id), Some(1));
    assert!(manager.channel.set_active_concealer(&mut ctx, &manager.id, None));
    assert_eq!(manager.channel.get_current_active(&ctx, &manager.id), None);
    let other = ctx.add_widget(Text { text: "t".to_string(), font_style: style(10) }, &main).unwrap();
    assert!(!manager.channel.set_active_concealer(&mut ctx, &other.id, Some(0)));
    assert_eq!(manager.channel.get_current_active(&ctx, &other.id), None);
}

#[test]
fn dropdown_channel_reports_open_state() {
    let mut ctx = Context::new();
    let layer = ctx.add_layer();
    let d = ctx.add_widget(dropdown(None), &layer).unwrap();
    assert!(!d.channel.is_open(&ctx, &d.id));
    click_at(&mut ctx, 110, 10);
    assert!(d.channel.is_open(&ctx, &d.id));
    ctx.drop_widget(d.id);
    ctx.render();
}

#[test]
fn layer_numbers_its_widgets() {
    let mut layer = mergui::Layer::new();
    assert!(layer.is_active());
    let a = layer.insert(Widget::Text(Text { text: "a".to_string(), font_style: style(1) }));
    let b = layer.insert(Widget::Text(Text { text: "b".to_string(), font_style: style(1) }));
    assert_eq!((a, b), (1, 2));
    layer.remove(a);
    let c = layer.insert(Widget::Text(Text { text: "c".to_string(), font_style: style(1) }));
    assert_eq!(c, 3);
}

#[test]
fn keys_skip_a_focused_field_in_a_hidden_layer() {
    let mut ctx = Context::new();
    let layer = ctx.add_layer();
    let f = ctx.add_widget(field(None), &layer).unwrap();
    click_at(&mut ctx, 5, 105);
    ctx.event(&Event::ReceivedCharacter('a'));
    layer.set_is_active(&mut ctx, false);
    ctx.event(&Event::ReceivedCharacter('b'));
    ctx.event(&Event::KeyboardInput { key: Key::Back, down: true });
    assert_eq!(ctx.input_value(&f.id), Some("a".to_string()));
    layer.set_is_active(&mut ctx, true);
    ctx.event(&Event::ReceivedCharacter('c'));
    assert_eq!(ctx.input_value(&f.id), Some("ac".to_string()));
}

#[test]
fn focus_goes_to_the_field_under_a_button() {
    let mut ctx = Context::new();
    let layer = ctx.add_layer();
    let f = ctx.add_widget(field(None), &layer).unwrap();
    let mut b = ctx.add_widget(button(0, 100), &layer).unwrap();
    click_at(&mut ctx, 5, 105);
    assert!(ctx.has_clicked(&mut b));
    ctx.event(&Event::ReceivedCharacter('q'));
    assert_eq!(ctx.input_value(&f.id), Some("q".to_string()));
    click_at(&mut ctx, 50, 140);
    ctx.event(&Event::ReceivedCharacter('r'));
    assert_eq!(ctx.input_value(&f.id), Some("q".to_string()));
}

#[test]
fn field_channel_writes_reach_the_field() {
    let mut ctx = Context::new();
    let layer = ctx.add_layer();
    let f = ctx.add_widget(field(Some("x")), &layer).unwrap();
    assert!(f.channel.set(&mut ctx, &f.id, "e\u{301}".to_string()));
    assert_eq!(ctx.input_value(&f.id), Some("\u{e9}".to_string()));
    assert_eq!(f.channel.get(&ctx, &f.id), Some("\u{e9}".to_string()));
}

#[test]
fn panel_channel_clicks_and_concealing() {
    let mut ctx = Context::new();
    let main = ctx.add_layer();
    let hidden = ctx.add_singular_layer();
    let hidden_id = hidden.id();
    let mut panel = ctx.add_widget(ConcealerConfig { button: button(0, 0), layer: hidden }, &main).unwrap();
    click_at(&mut ctx, 10, 10);
    ctx.take_clicks(&panel.id, &mut panel.channel.main_button);
    assert!(Clickable::has_clicked(&mut panel.channel));
    assert!(!Clickable::has_clicked(&mut panel.channel));
    let layer = match ctx.widget(&panel.id) {
        Some(Widget::Concealer(c)) => c.layer,
        _ => panic!("not a panel"),
    };
    assert_eq!(layer, hidden_id);
    assert!(!panel.channel.is_concealing(&ctx));
}

#[test]
fn manager_channel_layer_tokens_in_place() {
    let mut ctx = Context::new();
    let main = ctx.add_layer();
    let first = ctx.add_singular_layer();
    let a = first.id();
    let mut manager = ctx
        .add_widget(ConcealerManagerConfig { concealers: vec![ConcealerConfig { button: button(0, 0), layer: first }] }, &main)
        .unwrap();
    let token = manager.channel.get_layer_mut(0).unwrap();
    token.set_is_active(&mut ctx, true);
    assert!(manager.channel.get_layer_mut(1).is_none());
    ctx.render();
    assert!(ctx.layer_active(a));
}

#[test]
fn layer_widgets_change_in_place() {
    let mut layer = mergui::Layer::new();
    let n = layer.insert(Widget::Text(Text { text: "a".to_string(), font_style: style(1) }));
    match layer.get_mut(n) {
        Some(Widget::Text(t)) => t.text = "b".to_string(),
        _ => panic!("no text"),
    }
    match layer.get_mut(n) {
        Some(Widget::Text(t)) => assert_eq!(t.text, "b"),
        _ => panic!("no text"),
    }
    assert!(layer.get_mut(n + 1).is_none());
}
