//! A model of an immediate-mode widget tree: windows that hold widgets, each
//! widget polled once per frame, and lookup of a widget by its kind and its
//! position among the widgets of that kind.

pub mod button;
pub mod checkbox;
pub mod derive;
pub mod ending;
pub mod frame;
pub mod gui;
pub mod input_color;
pub mod input_text;
pub mod label;
pub mod macros;
pub mod native;
pub mod place;
pub mod same_line;
pub mod script;
pub mod session;
pub mod single;
pub mod slider_float;
pub mod slider_int;
pub mod text;
pub mod widget;

pub use button::Button;
pub use checkbox::Checkbox;
pub use frame::{Action, Node, Stage, Walk};
pub use gui::Gui;
pub use input_color::InputColor;
pub use input_text::InputText;
pub use native::{Draw, ImGuiGlue, ImGui_Vec4, Seen};
pub use same_line::SameLine;
pub use slider_float::SliderFloat;
pub use slider_int::SliderInt;
pub use text::Text;
pub use vstd::view::View;
pub use widget::{Container2, Get, SetValue, TreeNode, Update, Widget, Window};
