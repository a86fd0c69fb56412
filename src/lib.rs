//! A retained-mode widget library: a central `Context` owns layers of widgets,
//! routes input to them and lists what to draw, in a fixed order.
//!
//! Layers and widgets are owned by the context alone. The application holds
//! tokens for them (`LayerId`, `SingularLayerId`, `WidgetId`) and gives the
//! tokens back to say that what they stand for may go; the removal happens
//! when the next event or render drains the pending messages.

pub mod basic;
pub mod channels;
pub mod clickable;
pub mod concealer;
pub mod context;
pub mod draw;
pub mod dropdown;
pub mod geometry;
pub mod index_map;
pub mod input;
pub mod laws;
pub mod model;
pub mod responses;
pub mod text_field;
pub mod widget;

pub use basic::{Button, ButtonConfig, Image, ImageButton, ImageButtonConfig, Text, TextButton, TextButtonConfig};
pub use clickable::{BasicClickable, ClickSetter, Clickable};
pub use concealer::{ConcealerConfig, ConcealerManager, ConcealerManagerConfig, ConcealerManagerReturn, ConcealerReturn};
pub use context::{Context, Event, Layer, LayerNotFound, RenderedWidget};
pub use draw::{Color, CursorIcon, DrawOp, FontId, FontStyle, ImageId};
pub use dropdown::{DropDown, DropDownConfig, DropDownValueConfig, Dropdown};
pub use geometry::{Rectangle, Vector};
pub use input::InputChannel;
pub use responses::{LayerId, LayerInstruction, Response, SingularLayerId, WidgetId};
pub use text_field::{Input, InputConfig, InputLink, Key, PlaceholderConfig};
pub use widget::{Widget, WidgetConfig};
