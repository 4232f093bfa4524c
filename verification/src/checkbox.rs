//! A box that is ticked or not.

use crate::label::{is_terminated, terminate, terminated};
use crate::native::{Draw, DrawView, ImGuiGlue, Seen, SeenView};
use crate::widget::{Get, SetValue, Update, Widget, WidgetView};
use vstd::prelude::*;

verus! {

/// A checkbox with its label and whether it is ticked.
pub struct Checkbox {
    label: String,
    value: bool,
}

/// What a [`Checkbox`] holds.
pub struct CheckboxView {
    pub label: Seq<char>,
    pub value: bool,
}

impl View for Checkbox {
    type V = CheckboxView;

    closed spec fn view(&self) -> CheckboxView {
        CheckboxView { label: self.label@, value: self.value }
    }
}

impl Checkbox {
    /// A checkbox that is not ticked, under `label` with a NUL at its end.
    pub fn new(label: &str) -> (checkbox: Self)
        ensures
            checkbox@ == (CheckboxView { label: terminated(label@), value: false }),
            is_terminated(checkbox@.label),
    {
        Checkbox { label: terminate(label), value: false }
    }
}

impl ImGuiGlue for Checkbox {
    open spec fn call(model: CheckboxView) -> DrawView {
        DrawView::Checkbox { label: model.label, value: model.value }
    }

    fn render(&self) -> (draw: Draw) {
        Draw::Checkbox { label: self.label.clone(), value: self.value }
    }
}

impl Update for Checkbox {
    open spec fn pick(widget: WidgetView) -> Option<CheckboxView> {
        match widget {
            WidgetView::Checkbox(model) => Some(model),
            _ => None,
        }
    }

    open spec fn wrap(model: CheckboxView) -> WidgetView {
        WidgetView::Checkbox(model)
    }

    /// The native call leaves behind whether the box is ticked.
    open spec fn settled(model: CheckboxView, seen: SeenView) -> CheckboxView {
        match seen {
            SeenView::Flag(ticked) => CheckboxView { value: ticked, ..model },
            _ => model,
        }
    }

    /// A checkbox fires when the native call has changed its tick.
    open spec fn fires(before: CheckboxView, after: CheckboxView) -> bool {
        before.value != after.value
    }

    proof fn pick_wrap(model: CheckboxView) {
    }

    proof fn wrap_pick(widget: WidgetView) {
    }

    fn update(&mut self, seen: Seen) -> (fire: bool) {
        let before = self.value;
        match seen {
            Seen::Flag(ticked) => {
                self.value = ticked;
            },
            _ => {},
        }
        before != self.value
    }

    fn into_widget(self) -> (widget: Widget) {
        Widget::Checkbox(self)
    }

    fn downcast_ref(widget: &Widget) -> (found: Option<&Self>) {
        match widget {
            Widget::Checkbox(checkbox) => Some(checkbox),
            _ => None,
        }
    }

    fn downcast_mut(widget: &mut Widget) -> (found: Option<&mut Self>) {
        match widget {
            Widget::Checkbox(checkbox) => Some(checkbox),
            _ => None,
        }
    }
}

impl SetValue<bool> for Checkbox {
    open spec fn write(model: CheckboxView, value: bool) -> CheckboxView {
        CheckboxView { value, ..model }
    }

    proof fn shown(model: CheckboxView, value: bool) {
    }

    fn set(&mut self, value: bool) {
        self.value = value;
    }
}

impl Get<bool> for Checkbox {
    open spec fn read(model: CheckboxView) -> bool {
        model.value
    }

    fn get(&self) -> (value: bool) {
        self.value
    }
}

} // verus!
