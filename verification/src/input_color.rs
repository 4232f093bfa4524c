//! A field that edits a colour.

use crate::label::{is_terminated, terminate, terminated};
use crate::native::{Draw, DrawView, ImGuiGlue, ImGui_Vec4, Seen, SeenView};
use crate::single;
use crate::widget::{Get, Update, Widget, WidgetView};
use vstd::prelude::*;

verus! {

/// A colour field with its label and its colour.
pub struct InputColor {
    label: String,
    value: ImGui_Vec4,
}

/// What an [`InputColor`] holds.
pub struct InputColorView {
    pub label: Seq<char>,
    pub value: ImGui_Vec4,
}

/// The colour that a new field shows: 0.3 of red, green and blue, and an
/// alpha of 1.0.
pub open spec fn grey() -> ImGui_Vec4 {
    ImGui_Vec4 {
        x: single::THREE_TENTHS,
        y: single::THREE_TENTHS,
        z: single::THREE_TENTHS,
        w: single::ONE,
    }
}

impl View for InputColor {
    type V = InputColorView;

    closed spec fn view(&self) -> InputColorView {
        InputColorView { label: self.label@, value: self.value }
    }
}

impl InputColor {
    /// A field that shows grey, under `label` with a NUL at its end.
    pub fn new(label: &str) -> (field: InputColor)
        ensures
            field@ == (InputColorView { label: terminated(label@), value: grey() }),
            is_terminated(field@.label),
    {
        let value = ImGui_Vec4 {
            x: single::THREE_TENTHS,
            y: single::THREE_TENTHS,
            z: single::THREE_TENTHS,
            w: single::ONE,
        };
        InputColor { label: terminate(label), value }
    }
}

impl ImGuiGlue for InputColor {
    open spec fn call(model: InputColorView) -> DrawView {
        DrawView::ColorEdit3 { label: model.label, value: model.value }
    }

    fn render(&self) -> (draw: Draw) {
        Draw::ColorEdit3 { label: self.label.clone(), value: self.value }
    }
}

impl Update for InputColor {
    open spec fn pick(widget: WidgetView) -> Option<InputColorView> {
        match widget {
            WidgetView::InputColor(model) => Some(model),
            _ => None,
        }
    }

    open spec fn wrap(model: InputColorView) -> WidgetView {
        WidgetView::InputColor(model)
    }

    /// The native call leaves behind the colour that was chosen.
    open spec fn settled(model: InputColorView, seen: SeenView) -> InputColorView {
        match seen {
            SeenView::Color(value) => InputColorView { value, ..model },
            _ => model,
        }
    }

    /// A colour field never fires.
    open spec fn fires(before: InputColorView, after: InputColorView) -> bool {
        false
    }

    proof fn pick_wrap(model: InputColorView) {
    }

    proof fn wrap_pick(widget: WidgetView) {
    }

    fn update(&mut self, seen: Seen) -> (fire: bool) {
        match seen {
            Seen::Color(value) => {
                self.value = value;
            },
            _ => {},
        }
        false
    }

    fn into_widget(self) -> (widget: Widget) {
        Widget::InputColor(self)
    }

    fn downcast_ref(widget: &Widget) -> (found: Option<&Self>) {
        match widget {
            Widget::InputColor(field) => Some(field),
            _ => None,
        }
    }

    fn downcast_mut(widget: &mut Widget) -> (found: Option<&mut Self>) {
        match widget {
            Widget::InputColor(field) => Some(field),
            _ => None,
        }
    }
}

impl Get<Vec<u32>> for InputColor {
    /// Red, green, blue and alpha, in this order.
    open spec fn read(model: InputColorView) -> Seq<u32> {
        seq![model.value.x, model.value.y, model.value.z, model.value.w]
    }

    fn get(&self) -> (value: Vec<u32>) {
        let color = self.value;
        let mut value: Vec<u32> = Vec::new();
        value.push(color.x);
        value.push(color.y);
        value.push(color.z);
        value.push(color.w);
        assert(value@ =~= Self::read(self@));
        value
    }
}

} // verus!
