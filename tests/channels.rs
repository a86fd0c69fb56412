use mergui::dropdown::DropDown;
use mergui::text_field::is_control;
use mergui::{BasicClickable, Clickable, Color, ImageId, InputChannel, Rectangle, Vector};

#[test]
fn input_channel_get() {
    let channel = InputChannel::new("abcd".into());
    assert_eq!(channel.get(), String::from("abcd"));
}

#[test]
fn input_channel_set() {
    let mut channel = InputChannel::new("qwerty".into());
    channel.set("abcd".into());
    assert_eq!(channel.get(), String::from("abcd"));
}

#[test]
fn input_channel_push() {
    let mut channel = InputChannel::new("abc".into());
    channel.push('d');
    assert_eq!(channel.get(), String::from("abcd"));
}

#[test]
fn input_channel_insert() {
    let mut channel = InputChannel::new("abd".into());
    channel.insert_char_at_place(2, 'c');
    assert_eq!(channel.get(), String::from("abcd"));
    channel.insert_char_at_place(0, 'z');
    assert_eq!(channel.get(), String::from("zabcd"));
    channel.insert_char_at_place(5, 'q');
    assert_eq!(channel.get(), String::from("zabcdq"));
    channel.insert_char_at_place(9, 'r');
    assert_eq!(channel.get(), String::from("zabcdq"));
}

#[test]
fn input_channel_remove() {
    let mut channel = InputChannel::new("abdc".into());
    channel.remove_char_at(2);
    assert_eq!(channel.get(), String::from("abc"));
    channel.remove_char_at(3);
    assert_eq!(channel.get(), String::from("abc"));
}

#[test]
fn input_channel_count_and_chars() {
    let channel = InputChannel::new("abc".into());
    assert_eq!(channel.char_count(), 3);
    assert_eq!(channel.chars(), vec!['a', 'b', 'c']);
    let empty = InputChannel::new(String::new());
    assert_eq!(empty.char_count(), 0);
    assert_eq!(empty.get(), "");
}

#[test]
fn input_channel_composes_accents() {
    let mut channel = InputChannel::new("e\u{301}t\u{e9}".into());
    assert_eq!(channel.chars(), vec!['\u{e9}', 't', '\u{e9}']);
    channel.push('e');
    channel.push('\u{301}');
    assert_eq!(channel.char_count(), 4);
    assert_eq!(channel.get(), "\u{e9}t\u{e9}\u{e9}");
    let mut tail = InputChannel::new("ae".into());
    tail.insert_char_at_place(2, '\u{301}');
    assert_eq!(tail.get(), "a\u{e9}");
}

#[test]
fn click_signals_are_reported_once() {
    let (mut reader, mut setter) = BasicClickable::new();
    assert!(!reader.has_clicked());
    setter.clicked();
    setter.clicked();
    reader.receive(&mut setter);
    assert!(reader.has_clicked());
    assert!(!reader.has_clicked());
    reader.receive(&mut setter);
    assert!(!Clickable::has_clicked(&mut reader));
}

#[test]
fn control_characters_are_recognized() {
    assert!(is_control('\n'));
    assert!(is_control('\u{7f}'));
    assert!(is_control('\u{9f}'));
    assert!(!is_control('a'));
    assert!(!is_control('\u{a0}'));
}

#[test]
fn rectangle_edges() {
    let r = Rectangle::new(Vector::new(10, 20), Vector::new(30, 40));
    assert!(r.contains(Vector::new(10, 20)));
    assert!(!r.contains(Vector::new(40, 20)));
    assert!(r.covers(Vector::new(40, 60)));
    assert!(!r.covers(Vector::new(41, 60)));
    assert!(!r.contains(Vector::new(9, 20)));
}

#[test]
fn vectors_add_with_saturation() {
    assert_eq!(Vector::new(1, 2).add(Vector::new(3, 4)), Vector::new(4, 6));
    assert_eq!(Vector::new(i32::MAX, i32::MIN).add(Vector::new(1, -1)), Vector::new(i32::MAX, i32::MIN));
}

#[test]
fn dropdown_geometry() {
    let d = DropDown {
        location: Rectangle::new(Vector::new(10, 20), Vector::new(100, 30)),
        option_height: 15,
        values: Vec::new(),
        is_open: true,
        selected: None,
        open_button: ImageId(0),
        open_button_size: Vector::new(8, 9),
        hover_over: None,
        divider_color: Color { r: 0, g: 0, b: 0, a: 0 },
        divider_size: 1,
    };
    assert_eq!(d.get_location_open_button(), Rectangle::new(Vector::new(110, 20), Vector::new(8, 9)));
    assert_eq!(d.get_open_rec(), Rectangle::new(Vector::new(10, 20), Vector::new(100, 30)));
    assert_eq!(d.vector_to_index(Vector::new(0, 50)), None);
    assert_eq!(d.vector_to_index(Vector::new(0, 51)), Some(0));
    assert_eq!(d.vector_to_index(Vector::new(0, 65)), Some(1));
    assert_eq!(d.vector_to_index(Vector::new(0, 81)), Some(2));
}
