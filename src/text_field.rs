//! A single-line text field.
use vstd::prelude::*;
use crate::draw::{copy_string, DrawOp, DrawOpView, FontStyle, ops_view};
use crate::geometry::{Rectangle, Vector};
use crate::input::{inserted, nfc_of, removed, InputChannel};

verus! {

/// The keys that widgets react to.
#[derive(Clone, Copy, Debug, PartialEq, Eq, Structural)]
pub enum Key {
    Back,
    Left,
    Right,
    Other,
}

/// Whether `c` is a control character (general category Cc).
pub open spec fn spec_is_control(c: char) -> bool {
    (c as u32) < 0x20 || (0x7f <= (c as u32) && (c as u32) <= 0x9f)
}

pub fn is_control(c: char) -> (r: bool)
    ensures
        r == spec_is_control(c),
{
    let v = c as u32;
    v < 0x20 || (0x7f <= v && v <= 0x9f)
}

/// Text shown while the field is empty.
pub struct PlaceholderConfig {
    pub font: FontStyle,
    pub text: String,
}

/// How to build a text field.
pub struct InputConfig {
    pub font: FontStyle,
    pub placeholder: Option<PlaceholderConfig>,
    pub location: Rectangle,
    pub start_value: Option<String>,
}

/// The channel of a text field. The text lives in the field, inside the
/// context; this channel's `get` and `set` read and write it there.
#[derive(Clone, Copy, Debug, PartialEq, Eq, Structural)]
pub struct InputLink;

/// A text field: its configuration, its value and where the caret is, in
/// characters from the left.
pub struct Input {
    pub config: InputConfig,
    pub value: InputChannel,
    pub cursor_at_from_left: usize,
}

impl InputConfig {
    pub open spec fn built(self, w: Input, r: InputLink) -> bool {
        let start = match self.start_value {
            Some(s) => s@,
            None => Seq::<char>::empty(),
        };
        &&& w.config == self
        &&& w.value@ == nfc_of(start)
        &&& w.cursor_at_from_left == 0
    }

    pub fn to_widget(self) -> (r: (Input, InputLink))
        ensures
            self.built(r.0, r.1),
    {
        let start = match &self.start_value {
            Some(s) => copy_string(s),
            None => String::new(),
        };
        let value = InputChannel::new(start);
        (Input { config: self, value, cursor_at_from_left: 0 }, InputLink)
    }
}

impl Input {
    pub open spec fn spec_contains(&self, p: Vector) -> bool {
        self.config.location.spec_contains(p)
    }

    pub fn contains(&self, p: Vector) -> (r: bool)
        ensures
            r == self.spec_contains(p),
    {
        self.config.location.contains(p)
    }

    /// The field after `key` went down (`down`) or up.
    pub open spec fn key_pressed(self, key: Key, down: bool, next: Input) -> bool {
        let c = self.cursor_at_from_left;
        &&& next.config == self.config
        &&& if key == Key::Back && down && c > 0 {
            next.value@ == nfc_of(removed(self.value@, c - 1)) && next.cursor_at_from_left == c - 1
        } else if key == Key::Left && down && c > 0 {
            next.value == self.value && next.cursor_at_from_left == c - 1
        } else if key == Key::Right && down && c < self.value@.len() {
            next.value == self.value && next.cursor_at_from_left == c + 1
        } else {
            next.value == self.value && next.cursor_at_from_left == c
        }
    }

    /// Backspace removes the character before the caret; the arrow keys
    /// move the caret within the text.
    pub fn on_key_press(&mut self, key: Key, down: bool)
        ensures
            old(self).key_pressed(key, down, *final(self)),
    {
        if key == Key::Back && down && self.cursor_at_from_left > 0 {
            self.value.remove_char_at(self.cursor_at_from_left - 1);
            self.cursor_at_from_left = self.cursor_at_from_left - 1;
        } else if key == Key::Left && down && self.cursor_at_from_left > 0 {
            self.cursor_at_from_left = self.cursor_at_from_left - 1;
        } else if key == Key::Right && down && self.cursor_at_from_left < self.value.char_count() {
            self.cursor_at_from_left = self.cursor_at_from_left + 1;
        }
    }

    /// The field after `typed` was typed.
    pub open spec fn typed(self, typed: char, next: Input) -> bool {
        let c = self.cursor_at_from_left;
        &&& next.config == self.config
        &&& if spec_is_control(typed) {
            next.value == self.value && next.cursor_at_from_left == c
        } else {
            &&& next.value@ == (if c >= self.value@.len() {
                nfc_of(self.value@.push(typed))
            } else {
                nfc_of(inserted(self.value@, c as int, typed))
            })
            &&& next.cursor_at_from_left == (if c < usize::MAX {
                c + 1
            } else {
                c as int
            })
        }
    }

    /// A typed character goes in at the caret, which moves past it; control
    /// characters are ignored.
    pub fn on_typed(&mut self, typed: char)
        ensures
            old(self).typed(typed, *final(self)),
    {
        if is_control(typed) {
            return;
        }
        if self.cursor_at_from_left >= self.value.char_count() {
            self.value.push(typed);
        } else {
            self.value.insert_char_at_place(self.cursor_at_from_left, typed);
        }
        if self.cursor_at_from_left < usize::MAX {
            self.cursor_at_from_left = self.cursor_at_from_left + 1;
        }
    }

    /// The field's line: its value, or the placeholder while it is empty.
    pub open spec fn spec_ops(&self) -> Seq<DrawOpView> {
        let (style, text) = if self.value@.len() == 0 {
            match self.config.placeholder {
                Some(ph) => (ph.font, ph.text@),
                None => (self.config.font, Seq::<char>::empty()),
            }
        } else {
            (self.config.font, self.value@)
        };
        seq![
            DrawOpView::TextField {
                font: style.font,
                text,
                color: style.color,
                area: self.config.location,
                cursor: self.cursor_at_from_left,
            },
        ]
    }

    pub fn render(&self) -> (r: Vec<DrawOp>)
        ensures
            ops_view(r@) == self.spec_ops(),
    {
        let (style, text) = if self.value.char_count() == 0 {
            match &self.config.placeholder {
                Some(ph) => (ph.font, copy_string(&ph.text)),
                None => (self.config.font, String::new()),
            }
        } else {
            (self.config.font, self.value.get())
        };
        let r = vec![
            DrawOp::TextField {
                font: style.font,
                text,
                color: style.color,
                area: self.config.location,
                cursor: self.cursor_at_from_left,
            },
        ];
        proof {
            assert(ops_view(r@) =~= self.spec_ops());
        }
        r
    }
}

} // verus!
