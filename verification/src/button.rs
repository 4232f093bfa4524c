//! A push button.

use crate::label::{is_terminated, terminate, terminated};
use crate::native::{Draw, DrawView, ImGuiGlue, Seen, SeenView};
use crate::widget::{Get, Update, Widget, WidgetView};
use vstd::prelude::*;

verus! {

/// A button with its label and whether it was pressed when it was last
/// drawn.
pub struct Button {
    label: String,
    value: bool,
}

/// What a [`Button`] holds.
pub struct ButtonView {
    pub label: Seq<char>,
    pub value: bool,
}

impl View for Button {
    type V = ButtonView;

    closed spec fn view(&self) -> ButtonView {
        ButtonView { label: self.label@, value: self.value }
    }
}

impl Button {
    /// A button that was not pressed, under `label` with a NUL at its end.
    pub fn new(label: &str) -> (button: Self)
        ensures
            button@ == (ButtonView { label: terminated(label@), value: false }),
            is_terminated(button@.label),
    {
        Button { label: terminate(label), value: false }
    }
}

impl ImGuiGlue for Button {
    open spec fn call(model: ButtonView) -> DrawView {
        DrawView::Button { text: model.label, value: model.value }
    }

    fn render(&self) -> (draw: Draw) {
        Draw::Button { text: self.label.clone(), value: self.value }
    }
}

impl Update for Button {
    open spec fn pick(widget: WidgetView) -> Option<ButtonView> {
        match widget {
            WidgetView::Button(model) => Some(model),
            _ => None,
        }
    }

    open spec fn wrap(model: ButtonView) -> WidgetView {
        WidgetView::Button(model)
    }

    /// The native call leaves behind whether the button was pressed.
    open spec fn settled(model: ButtonView, seen: SeenView) -> ButtonView {
        match seen {
            SeenView::Flag(pressed) => ButtonView { value: pressed, ..model },
            _ => model,
        }
    }

    /// A button fires when the native call has changed whether it is
    /// pressed.
    open spec fn fires(before: ButtonView, after: ButtonView) -> bool {
        before.value != after.value
    }

    proof fn pick_wrap(model: ButtonView) {
    }

    proof fn wrap_pick(widget: WidgetView) {
    }

    fn update(&mut self, seen: Seen) -> (fire: bool) {
        let before = self.value;
        match seen {
            Seen::Flag(pressed) => {
                self.value = pressed;
            },
            _ => {},
        }
        before != self.value
    }

    fn into_widget(self) -> (widget: Widget) {
        Widget::Button(self)
    }

    fn downcast_ref(widget: &Widget) -> (found: Option<&Self>) {
        match widget {
            Widget::Button(button) => Some(button),
            _ => None,
        }
    }

    fn downcast_mut(widget: &mut Widget) -> (found: Option<&mut Self>) {
        match widget {
            Widget::Button(button) => Some(button),
            _ => None,
        }
    }
}

impl Get<bool> for Button {
    open spec fn read(model: ButtonView) -> bool {
        model.value
    }

    fn get(&self) -> (value: bool) {
        self.value
    }
}

} // verus!
