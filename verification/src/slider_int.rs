//! A slider over whole numbers.

use crate::label::{is_terminated, terminate, terminated};
use crate::native::{Draw, DrawView, ImGuiGlue, Seen, SeenView};
use crate::widget::{Get, SetValue, Update, Widget, WidgetView};
use vstd::prelude::*;

verus! {

/// A slider with its label, its value and the two ends of its range.
pub struct SliderInt {
    label: String,
    value: i32,
    min: i32,
    max: i32,
}

/// What a [`SliderInt`] holds.
pub struct SliderIntView {
    pub label: Seq<char>,
    pub value: i32,
    pub min: i32,
    pub max: i32,
}

impl View for SliderInt {
    type V = SliderIntView;

    closed spec fn view(&self) -> SliderIntView {
        SliderIntView { label: self.label@, value: self.value, min: self.min, max: self.max }
    }
}

impl SliderInt {
    /// A slider from 0 to 100 that stands at 0, under `label` with a NUL at
    /// its end.
    pub fn new(label: &str) -> (slider: Self)
        ensures
            slider@ == (SliderIntView { label: terminated(label@), value: 0, min: 0, max: 100 }),
            is_terminated(slider@.label),
    {
        SliderInt { label: terminate(label), value: 0, min: 0, max: 100 }
    }
}

impl ImGuiGlue for SliderInt {
    open spec fn call(model: SliderIntView) -> DrawView {
        DrawView::SliderInt {
            label: model.label,
            value: model.value,
            min_val: model.min,
            max_val: model.max,
        }
    }

    fn render(&self) -> (draw: Draw) {
        Draw::SliderInt {
            label: self.label.clone(),
            value: self.value,
            min_val: self.min,
            max_val: self.max,
        }
    }
}

impl Update for SliderInt {
    open spec fn pick(widget: WidgetView) -> Option<SliderIntView> {
        match widget {
            WidgetView::SliderInt(model) => Some(model),
            _ => None,
        }
    }

    open spec fn wrap(model: SliderIntView) -> WidgetView {
        WidgetView::SliderInt(model)
    }

    /// The native call leaves behind where the slider stands.
    open spec fn settled(model: SliderIntView, seen: SeenView) -> SliderIntView {
        match seen {
            SeenView::Int(value) => SliderIntView { value, ..model },
            _ => model,
        }
    }

    /// A slider fires when the native call has moved it.
    open spec fn fires(before: SliderIntView, after: SliderIntView) -> bool {
        before.value != after.value
    }

    proof fn pick_wrap(model: SliderIntView) {
    }

    proof fn wrap_pick(widget: WidgetView) {
    }

    fn update(&mut self, seen: Seen) -> (fire: bool) {
        let before = self.value;
        match seen {
            Seen::Int(value) => {
                self.value = value;
            },
            _ => {},
        }
        before != self.value
    }

    fn into_widget(self) -> (widget: Widget) {
        Widget::SliderInt(self)
    }

    fn downcast_ref(widget: &Widget) -> (found: Option<&Self>) {
        match widget {
            Widget::SliderInt(slider) => Some(slider),
            _ => None,
        }
    }

    fn downcast_mut(widget: &mut Widget) -> (found: Option<&mut Self>) {
        match widget {
            Widget::SliderInt(slider) => Some(slider),
            _ => None,
        }
    }
}

impl Get<i32> for SliderInt {
    open spec fn read(model: SliderIntView) -> i32 {
        model.value
    }

    fn get(&self) -> (value: i32) {
        self.value
    }
}

impl SetValue<i32> for SliderInt {
    /// The value is taken as it is, inside the range or not.
    open spec fn write(model: SliderIntView, value: i32) -> SliderIntView {
        SliderIntView { value, ..model }
    }

    proof fn shown(model: SliderIntView, value: i32) {
    }

    fn set(&mut self, value: i32) {
        self.value = value;
    }
}

} // verus!
