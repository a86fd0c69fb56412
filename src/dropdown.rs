//! A drop-down list: a header showing the selected value and, while open,
//! one row per value below it.
use vstd::prelude::*;
use crate::draw::{copy_string, text_op, Color, DrawOp, DrawOpView, FontStyle, ImageId, ops_view};
use crate::geometry::{clamp_i32, saturate, Rectangle, Vector};

verus! {

/// The largest row count that offsets are computed for; rows further down
/// share the offset of this one.
pub const ROW_LIMIT: u64 = 0x8000_0000;

pub open spec fn capped(n: int) -> int {
    if n > ROW_LIMIT {
        ROW_LIMIT as int
    } else {
        n
    }
}

/// One value that a drop-down offers.
pub struct DropDownValueConfig {
    /// The value the application gets back when this one is selected.
    pub value: u64,
    /// What the list shows for it.
    pub text: String,
    pub normal_font_style: FontStyle,
    /// The style while the pointer hovers over its row.
    pub hover_font_style: Option<FontStyle>,
}

impl From<(u64, String, FontStyle)> for DropDownValueConfig {
    fn from(val: (u64, String, FontStyle)) -> (r: DropDownValueConfig) {
        DropDownValueConfig {
            value: val.0,
            text: val.1,
            normal_font_style: val.2,
            hover_font_style: None,
        }
    }
}

impl vstd::std_specs::convert::FromSpecImpl<(u64, String, FontStyle)> for DropDownValueConfig {
    open spec fn obeys_from_spec() -> bool {
        true
    }

    open spec fn from_spec(val: (u64, String, FontStyle)) -> DropDownValueConfig {
        DropDownValueConfig {
            value: val.0,
            text: val.1,
            normal_font_style: val.2,
            hover_font_style: None,
        }
    }
}

impl From<(u64, String, FontStyle, FontStyle)> for DropDownValueConfig {
    fn from(val: (u64, String, FontStyle, FontStyle)) -> (r: DropDownValueConfig) {
        DropDownValueConfig {
            value: val.0,
            text: val.1,
            normal_font_style: val.2,
            hover_font_style: Some(val.3),
        }
    }
}

impl vstd::std_specs::convert::FromSpecImpl<(u64, String, FontStyle, FontStyle)> for DropDownValueConfig {
    open spec fn obeys_from_spec() -> bool {
        true
    }

    open spec fn from_spec(val: (u64, String, FontStyle, FontStyle)) -> DropDownValueConfig {
        DropDownValueConfig {
            value: val.0,
            text: val.1,
            normal_font_style: val.2,
            hover_font_style: Some(val.3),
        }
    }
}

/// How to build a drop-down.
pub struct DropDownConfig {
    pub values: Vec<DropDownValueConfig>,
    /// Where the header is; the rows follow below it.
    pub location: Rectangle,
    /// The height of each row.
    pub option_height: i32,
    /// The image of the button to the right of the header.
    pub open_button: ImageId,
    pub open_button_size: Vector,
    /// The value selected at the start, if any.
    pub selected: Option<usize>,
    /// The color of the lines around the header and each row.
    pub divider_color: Color,
    pub divider_size: i32,
}

/// A drop-down list.
pub struct DropDown {
    pub location: Rectangle,
    pub option_height: i32,
    pub values: Vec<DropDownValueConfig>,
    pub is_open: bool,
    pub selected: Option<usize>,
    pub open_button: ImageId,
    pub open_button_size: Vector,
    /// Where the pointer hovers, while it does.
    pub hover_over: Option<Vector>,
    pub divider_color: Color,
    pub divider_size: i32,
}

/// The channel of a drop-down: the values it offers, in order.
pub struct Dropdown {
    pub values: Vec<u64>,
}

impl Dropdown {
    /// The value at `selected`, if that is a position in the list.
    pub fn get_value(&self, selected: Option<usize>) -> (r: Option<u64>)
        ensures
            r == (match selected {
                Some(i) => if i < self.values@.len() {
                    Some(self.values@[i as int])
                } else {
                    None
                },
                None => None,
            }),
    {
        match selected {
            Some(i) => if i < self.values.len() {
                Some(self.values[i])
            } else {
                None
            },
            None => None,
        }
    }
}

impl DropDownConfig {
    pub open spec fn built(self, w: DropDown, r: Dropdown) -> bool {
        &&& w == (DropDown {
            location: self.location,
            option_height: self.option_height,
            values: self.values,
            is_open: false,
            selected: self.selected,
            open_button: self.open_button,
            open_button_size: self.open_button_size,
            hover_over: None,
            divider_color: self.divider_color,
            divider_size: self.divider_size,
        })
        &&& r.values@ == self.values@.map_values(|v: DropDownValueConfig| v.value)
    }

    pub fn to_widget(self) -> (r: (DropDown, Dropdown))
        ensures
            self.built(r.0, r.1),
    {
        let mut values: Vec<u64> = Vec::new();
        let mut i: usize = 0;
        while i < self.values.len()
            invariant
                i <= self.values@.len(),
                values@ == self.values@.take(i as int).map_values(|v: DropDownValueConfig| v.value),
            decreases self.values@.len() - i,
        {
            values.push(self.values[i].value);
            i = i + 1;
            proof {
                assert(values@ =~= self.values@.take(i as int).map_values(
                    |v: DropDownValueConfig| v.value,
                ));
            }
        }
        proof {
            assert(self.values@.take(i as int) =~= self.values@);
        }
        let w = DropDown {
            location: self.location,
            option_height: self.option_height,
            values: self.values,
            is_open: false,
            selected: self.selected,
            open_button: self.open_button,
            open_button_size: self.open_button_size,
            hover_over: None,
            divider_color: self.divider_color,
            divider_size: self.divider_size,
        };
        (w, Dropdown { values })
    }
}

impl DropDown {
    /// Where the open button is: right of the header, as high as it.
    pub open spec fn spec_open_button_rect(&self) -> Rectangle {
        Rectangle {
            pos: Vector {
                x: clamp_i32(self.location.pos.x + self.location.size.x) as i32,
                y: self.location.pos.y,
            },
            size: self.open_button_size,
        }
    }

    pub fn get_location_open_button(&self) -> (r: Rectangle)
        ensures
            r == self.spec_open_button_rect(),
    {
        Rectangle {
            pos: Vector {
                x: saturate(self.location.pos.x as i64 + self.location.size.x as i64),
                y: self.location.pos.y,
            },
            size: self.open_button_size,
        }
    }

    /// The header with every row below it.
    pub open spec fn spec_open_rect(&self) -> Rectangle {
        Rectangle {
            pos: self.location.pos,
            size: Vector {
                x: self.location.size.x,
                y: clamp_i32(
                    self.location.size.y + self.option_height * capped(self.values@.len() as int),
                ) as i32,
            },
        }
    }

    /// `base + height * min(rows, ROW_LIMIT) + extra`, computed without overflow.
    fn offset(base: i32, height: i32, rows: usize, extra: i32) -> (r: i32)
        ensures
            r == clamp_i32(base + height * capped(rows as int) + extra),
    {
        let n: i64 = if rows as u64 > ROW_LIMIT {
            ROW_LIMIT as i64
        } else {
            rows as i64
        };
        assert(-0x8000_0000 * 0x8000_0000 <= height * n <= 0x8000_0000 * 0x8000_0000) by (nonlinear_arith)
            requires
                -0x8000_0000 <= height < 0x8000_0000,
                0 <= n <= 0x8000_0000,
        ;
        saturate(base as i64 + height as i64 * n + extra as i64)
    }

    pub fn get_open_rec(&self) -> (r: Rectangle)
        ensures
            r == self.spec_open_rect(),
    {
        Rectangle {
            pos: self.location.pos,
            size: Vector {
                x: self.location.size.x,
                y: Self::offset(self.location.size.y, self.option_height, self.values.len(), 0),
            },
        }
    }

    pub fn is_open(&self) -> (r: bool)
        ensures
            r == self.is_open,
    {
        self.is_open
    }

    pub fn selected(&self) -> (r: Option<usize>)
        ensures
            r == self.selected,
    {
        self.selected
    }

    /// The value of the selected row, if a row is selected.
    pub open spec fn spec_value(&self) -> Option<u64> {
        match self.selected {
            Some(i) => if i < self.values@.len() {
                Some(self.values@[i as int].value)
            } else {
                None
            },
            None => None,
        }
    }

    pub fn get_value(&self) -> (r: Option<u64>)
        ensures
            r == self.spec_value(),
    {
        match self.selected {
            Some(i) => if i < self.values.len() {
                Some(self.values[i].value)
            } else {
                None
            },
            None => None,
        }
    }

    /// The row under `point`: counted from the header's lower edge, one per
    /// `option_height`; none while the list is closed.
    pub open spec fn spec_index(&self, point: Vector) -> Option<usize> {
        let below = point.y - (self.location.pos.y + self.location.size.y);
        if !self.is_open || below <= 0 || self.option_height <= 0 || below / (
        self.option_height as int) > usize::MAX {
            None
        } else {
            Some((below / (self.option_height as int)) as usize)
        }
    }

    pub fn vector_to_index(&self, point: Vector) -> (r: Option<usize>)
        ensures
            r == self.spec_index(point),
    {
        if !self.is_open {
            return None;
        }
        let below: i64 = point.y as i64 - (self.location.pos.y as i64 + self.location.size.y as i64);
        if below <= 0 || self.option_height <= 0 {
            return None;
        }
        let row: i64 = below / (self.option_height as i64);
        if row as u64 > usize::MAX as u64 {
            None
        } else {
            Some(row as usize)
        }
    }

    pub open spec fn spec_contains(&self, p: Vector) -> bool {
        ||| self.location.spec_contains(p)
        ||| (self.is_open && self.spec_open_rect().spec_contains(p))
        ||| self.spec_open_button_rect().spec_contains(p)
    }

    pub fn contains(&self, p: Vector) -> (r: bool)
        ensures
            r == self.spec_contains(p),
    {
        self.location.contains(p) || (self.is_open && self.get_open_rec().contains(p))
            || self.get_location_open_button().contains(p)
    }

    pub open spec fn with_hover(self, p: Vector, state: bool) -> DropDown {
        DropDown {
            hover_over: if state {
                Some(p)
            } else {
                None
            },
            ..self
        }
    }

    pub fn set_hover(&mut self, p: Vector, state: bool)
        ensures
            *final(self) == old(self).with_hover(p, state),
    {
        self.hover_over = if state {
            Some(p)
        } else {
            None
        };
    }

    /// Losing focus closes the list.
    pub open spec fn with_focus(self, state: bool) -> DropDown {
        if state {
            self
        } else {
            DropDown { is_open: false, ..self }
        }
    }

    pub fn set_focus(&mut self, state: bool)
        ensures
            *final(self) == old(self).with_focus(state),
    {
        if !state {
            self.is_open = false;
        }
    }

    /// A click on a row selects it; every click opens or closes the list.
    pub open spec fn clicked(self, p: Vector) -> DropDown {
        DropDown {
            selected: match self.spec_index(p) {
                Some(j) => Some(j),
                None => self.selected,
            },
            is_open: !self.is_open,
            ..self
        }
    }

    pub fn on_click(&mut self, p: Vector)
        ensures
            *final(self) == old(self).clicked(p),
    {
        if let Some(j) = self.vector_to_index(p) {
            self.selected = Some(j);
        }
        self.is_open = !self.is_open;
    }

    /// The value the header shows: the selected one, else the first.
    pub open spec fn shown(&self) -> Option<int> {
        match self.selected {
            Some(i) if i < self.values@.len() => Some(i as int),
            _ => if self.values@.len() > 0 {
                Some(0)
            } else {
                None
            },
        }
    }

    /// The row the pointer hovers over, if any.
    pub open spec fn hovered_row(&self) -> Option<usize> {
        match self.hover_over {
            Some(q) => self.spec_index(q),
            None => None,
        }
    }

    /// The style of row `k`.
    pub open spec fn row_style(&self, k: int) -> FontStyle {
        let v = self.values@[k];
        if self.hovered_row() == Some(k as usize) {
            match v.hover_font_style {
                Some(s) => s,
                None => v.normal_font_style,
            }
        } else {
            v.normal_font_style
        }
    }

    /// The text and frame of row `k`.
    pub open spec fn row_ops(&self, k: int) -> Seq<DrawOpView> {
        let style = self.row_style(k);
        let x = self.location.pos.x;
        let top = clamp_i32(self.location.pos.y + self.option_height * capped(k + 1)) as i32;
        let baseline = clamp_i32(
            self.location.pos.y + self.option_height * capped(k + 1) + style.size,
        ) as i32;
        seq![
            text_op(style, self.values@[k].text@, Vector { x, y: baseline }),
            DrawOpView::StrokeRect {
                area: Rectangle { pos: Vector { x, y: top }, size: self.location.size },
                color: self.divider_color,
            },
        ]
    }

    /// The operations of the first `n` rows.
    pub open spec fn rows_ops(&self, n: int) -> Seq<DrawOpView>
        decreases n,
    {
        if n <= 0 {
            seq![]
        } else {
            self.rows_ops(n - 1) + self.row_ops(n - 1)
        }
    }

    /// The open button, the header's frame, the shown value and, while
    /// open, every row.
    pub open spec fn spec_ops(&self) -> Seq<DrawOpView> {
        let head = seq![
            DrawOpView::Image { image: self.open_button, area: self.spec_open_button_rect() },
            DrawOpView::StrokeRect { area: self.location, color: self.divider_color },
        ];
        let value = match self.shown() {
            Some(i) => {
                let style = self.values@[i].normal_font_style;
                seq![
                    text_op(
                        style,
                        self.values@[i].text@,
                        Vector {
                            x: self.location.pos.x,
                            y: clamp_i32(self.location.pos.y + style.size) as i32,
                        },
                    ),
                ]
            },
            None => seq![],
        };
        let rows = if self.is_open {
            self.rows_ops(self.values@.len() as int)
        } else {
            seq![]
        };
        head + value + rows
    }

    pub fn render(&self) -> (r: Vec<DrawOp>)
        ensures
            ops_view(r@) == self.spec_ops(),
    {
        let mut r: Vec<DrawOp> = Vec::new();
        r.push(DrawOp::Image { image: self.open_button, area: self.get_location_open_button() });
        r.push(DrawOp::StrokeRect { area: self.location, color: self.divider_color });
        let shown: Option<usize> = match self.selected {
            Some(i) => if i < self.values.len() {
                Some(i)
            } else if self.values.len() > 0 {
                Some(0)
            } else {
                None
            },
            None => if self.values.len() > 0 {
                Some(0)
            } else {
                None
            },
        };
        if let Some(i) = shown {
            let style = self.values[i].normal_font_style;
            r.push(
                DrawOp::Text {
                    font: style.font,
                    text: copy_string(&self.values[i].text),
                    color: style.color,
                    at: Vector {
                        x: self.location.pos.x,
                        y: saturate(self.location.pos.y as i64 + style.size as i64),
                    },
                },
            );
        }
        let ghost before = ops_view(r@);
        proof {
            let head = seq![
                DrawOpView::Image { image: self.open_button, area: self.spec_open_button_rect() },
                DrawOpView::StrokeRect { area: self.location, color: self.divider_color },
            ];
            assert(shown == None::<usize> ==> before =~= head);
            assert(shown matches Some(i) ==> before =~= head + seq![
                text_op(
                    self.values@[i as int].normal_font_style,
                    self.values@[i as int].text@,
                    Vector {
                        x: self.location.pos.x,
                        y: clamp_i32(self.location.pos.y + self.values@[i as int].normal_font_style.size) as i32,
                    },
                ),
            ]);
        }
        if self.is_open {
            let hovered = match self.hover_over {
                Some(q) => self.vector_to_index(q),
                None => None,
            };
            let mut k: usize = 0;
            while k < self.values.len()
                invariant
                    k <= self.values@.len(),
                    hovered == self.hovered_row(),
                    ops_view(r@) == before + self.rows_ops(k as int),
                decreases self.values@.len() - k,
            {
                let v = &self.values[k];
                let style = if hovered == Some(k) {
                    match v.hover_font_style {
                        Some(s) => s,
                        None => v.normal_font_style,
                    }
                } else {
                    v.normal_font_style
                };
                let ghost prev = r@;
                let top = Self::offset(self.location.pos.y, self.option_height, k + 1, 0);
                let baseline = Self::offset(self.location.pos.y, self.option_height, k + 1, style.size);
                r.push(
                    DrawOp::Text {
                        font: style.font,
                        text: copy_string(&v.text),
                        color: style.color,
                        at: Vector { x: self.location.pos.x, y: baseline },
                    },
                );
                r.push(
                    DrawOp::StrokeRect {
                        area: Rectangle {
                            pos: Vector { x: self.location.pos.x, y: top },
                            size: self.location.size,
                        },
                        color: self.divider_color,
                    },
                );
                proof {
                    assert(style == self.row_style(k as int));
                    assert(ops_view(r@) =~= ops_view(prev) + self.row_ops(k as int));
                }
                k = k + 1;
            }
        }
        proof {
            assert(ops_view(r@) =~= self.spec_ops());
        }
        r
    }
}

} // verus!
