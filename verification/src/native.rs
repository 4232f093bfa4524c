//! The calls into the native toolkit, as values.
//!
//! A widget does not draw itself: it says which native call draws it, as a
//! [`Draw`], and is told afterwards what that call left behind, as a [`Seen`].
//! Whoever runs the frame makes the call in between.

use vstd::prelude::*;

verus! {

/// Four single-precision numbers, each held by its bits (see `single`): a
/// colour as red, green, blue and alpha.
#[allow(non_camel_case_types)]
#[derive(Clone, Copy, Debug, PartialEq, Eq, Structural)]
pub struct ImGui_Vec4 {
    pub x: u32,
    pub y: u32,
    pub z: u32,
    pub w: u32,
}

/// One call into the native toolkit, with its arguments.
#[allow(inconsistent_fields)]
#[derive(Debug)]
pub enum Draw {
    /// Opens a frame.
    StartFrame,
    /// Shows the toolkit's own demonstration window.
    ShowDemoWindow,
    /// Closes a frame and clears the background to `color`.
    EndFrame { color: ImGui_Vec4 },
    /// Opens a window.
    Begin { name: String, close: bool, flags: i32 },
    /// Closes the window that was opened last.
    End,
    Button { text: String, value: bool },
    Text { text: String },
    Checkbox { label: String, value: bool },
    InputText { label: String, value: String, buffer_size: i32, flags: i32 },
    ColorEdit3 { label: String, value: ImGui_Vec4 },
    /// Puts the next widget on the line of the last one.
    SameLine { offset_from_start_x: u32, spacing: u32 },
    SliderInt { label: String, value: i32, min_val: i32, max_val: i32 },
    SliderFloat { label: String, value: u32, min_val: u32, max_val: u32 },
    /// Opens a tree node; the answer tells whether it is unfolded.
    TreeNodeEx { label: String, flags: i32 },
    /// Closes the tree node that was unfolded last.
    TreePop,
}

/// A [`Draw`] with its texts as sequences of characters.
#[allow(inconsistent_fields)]
pub enum DrawView {
    StartFrame,
    ShowDemoWindow,
    EndFrame { color: ImGui_Vec4 },
    Begin { name: Seq<char>, close: bool, flags: i32 },
    End,
    Button { text: Seq<char>, value: bool },
    Text { text: Seq<char> },
    Checkbox { label: Seq<char>, value: bool },
    InputText { label: Seq<char>, value: Seq<char>, buffer_size: i32, flags: i32 },
    ColorEdit3 { label: Seq<char>, value: ImGui_Vec4 },
    SameLine { offset_from_start_x: u32, spacing: u32 },
    SliderInt { label: Seq<char>, value: i32, min_val: i32, max_val: i32 },
    SliderFloat { label: Seq<char>, value: u32, min_val: u32, max_val: u32 },
    TreeNodeEx { label: Seq<char>, flags: i32 },
    TreePop,
}

impl View for Draw {
    type V = DrawView;

    open spec fn view(&self) -> DrawView {
        match *self {
            Draw::StartFrame => DrawView::StartFrame,
            Draw::ShowDemoWindow => DrawView::ShowDemoWindow,
            Draw::EndFrame { color } => DrawView::EndFrame { color },
            Draw::Begin { name, close, flags } => DrawView::Begin { name: name@, close, flags },
            Draw::End => DrawView::End,
            Draw::Button { text, value } => DrawView::Button { text: text@, value },
            Draw::Text { text } => DrawView::Text { text: text@ },
            Draw::Checkbox { label, value } => DrawView::Checkbox { label: label@, value },
            Draw::InputText { label, value, buffer_size, flags } => DrawView::InputText {
                label: label@,
                value: value@,
                buffer_size,
                flags,
            },
            Draw::ColorEdit3 { label, value } => DrawView::ColorEdit3 { label: label@, value },
            Draw::SameLine { offset_from_start_x, spacing } => DrawView::SameLine {
                offset_from_start_x,
                spacing,
            },
            Draw::SliderInt { label, value, min_val, max_val } => DrawView::SliderInt {
                label: label@,
                value,
                min_val,
                max_val,
            },
            Draw::SliderFloat { label, value, min_val, max_val } => DrawView::SliderFloat {
                label: label@,
                value,
                min_val,
                max_val,
            },
            Draw::TreeNodeEx { label, flags } => DrawView::TreeNodeEx { label: label@, flags },
            Draw::TreePop => DrawView::TreePop,
        }
    }
}

/// What a native call left behind: the value that the widget now shows, or
/// the call's answer.
#[derive(Debug)]
pub enum Seen {
    /// The call leaves nothing behind.
    Nothing,
    /// A button's press, a checkbox's tick, or whether a tree node is
    /// unfolded.
    Flag(bool),
    /// A whole number, as a slider holds it.
    Int(i32),
    /// A single-precision number by its bits, as a slider holds it.
    Single(u32),
    /// The buffer of a text field.
    Text(String),
    /// A colour.
    Color(ImGui_Vec4),
}

/// A [`Seen`] with its text as a sequence of characters.
pub enum SeenView {
    Nothing,
    Flag(bool),
    Int(i32),
    Single(u32),
    Text(Seq<char>),
    Color(ImGui_Vec4),
}

impl View for Seen {
    type V = SeenView;

    open spec fn view(&self) -> SeenView {
        match *self {
            Seen::Nothing => SeenView::Nothing,
            Seen::Flag(flag) => SeenView::Flag(flag),
            Seen::Int(value) => SeenView::Int(value),
            Seen::Single(bits) => SeenView::Single(bits),
            Seen::Text(text) => SeenView::Text(text@),
            Seen::Color(color) => SeenView::Color(color),
        }
    }
}

/// A thing that the native toolkit can draw.
pub trait ImGuiGlue: View {
    /// The native call that draws the thing in the state `model`.
    spec fn call(model: Self::V) -> DrawView;

    /// The native call that draws this thing as it is now.
    fn render(&self) -> (draw: Draw)
        ensures
            draw@ == Self::call(self@),
    ;
}

} // verus!
