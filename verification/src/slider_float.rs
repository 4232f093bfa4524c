//! A slider over single-precision numbers.

use crate::label::{is_terminated, terminate, terminated};
use crate::native::{Draw, DrawView, ImGuiGlue, Seen, SeenView};
use crate::single;
use crate::widget::{Get, SetValue, Update, Widget, WidgetView};
use vstd::prelude::*;

verus! {

/// A slider with its label, its value and the two ends of its range, each
/// number held by its bits (see `single`).
pub struct SliderFloat {
    label: String,
    value: u32,
    min: u32,
    max: u32,
}

/// What a [`SliderFloat`] holds.
pub struct SliderFloatView {
    pub label: Seq<char>,
    pub value: u32,
    pub min: u32,
    pub max: u32,
}

impl View for SliderFloat {
    type V = SliderFloatView;

    closed spec fn view(&self) -> SliderFloatView {
        SliderFloatView { label: self.label@, value: self.value, min: self.min, max: self.max }
    }
}

impl SliderFloat {
    /// A slider from 0.0 to 100.0 that stands at 0.0, under `label` with a
    /// NUL at its end.
    pub fn new(label: &str) -> (slider: Self)
        ensures
            slider@ == (SliderFloatView {
                label: terminated(label@),
                value: single::ZERO,
                min: single::ZERO,
                max: single::HUNDRED,
            }),
            is_terminated(slider@.label),
    {
        SliderFloat {
            label: terminate(label),
            value: single::ZERO,
            min: single::ZERO,
            max: single::HUNDRED,
        }
    }
}

impl ImGuiGlue for SliderFloat {
    open spec fn call(model: SliderFloatView) -> DrawView {
        DrawView::SliderFloat {
            label: model.label,
            value: model.value,
            min_val: model.min,
            max_val: model.max,
        }
    }

    fn render(&self) -> (draw: Draw) {
        Draw::SliderFloat {
            label: self.label.clone(),
            value: self.value,
            min_val: self.min,
            max_val: self.max,
        }
    }
}

impl Update for SliderFloat {
    open spec fn pick(widget: WidgetView) -> Option<SliderFloatView> {
        match widget {
            WidgetView::SliderFloat(model) => Some(model),
            _ => None,
        }
    }

    open spec fn wrap(model: SliderFloatView) -> WidgetView {
        WidgetView::SliderFloat(model)
    }

    /// The native call leaves behind where the slider stands.
    open spec fn settled(model: SliderFloatView, seen: SeenView) -> SliderFloatView {
        match seen {
            SeenView::Single(value) => SliderFloatView { value, ..model },
            _ => model,
        }
    }

    /// A slider fires when the number it stands at after the native call is
    /// unequal to the one before. A slider that stands at no number
    /// therefore fires every time.
    open spec fn fires(before: SliderFloatView, after: SliderFloatView) -> bool {
        single::differs(before.value, after.value)
    }

    proof fn pick_wrap(model: SliderFloatView) {
    }

    proof fn wrap_pick(widget: WidgetView) {
    }

    fn update(&mut self, seen: Seen) -> (fire: bool) {
        let before = self.value;
        match seen {
            Seen::Single(value) => {
                self.value = value;
            },
            _ => {},
        }
        single::ne(before, self.value)
    }

    fn into_widget(self) -> (widget: Widget) {
        Widget::SliderFloat(self)
    }

    fn downcast_ref(widget: &Widget) -> (found: Option<&Self>) {
        match widget {
            Widget::SliderFloat(slider) => Some(slider),
            _ => None,
        }
    }

    fn downcast_mut(widget: &mut Widget) -> (found: Option<&mut Self>) {
        match widget {
            Widget::SliderFloat(slider) => Some(slider),
            _ => None,
        }
    }
}

impl Get<u32> for SliderFloat {
    open spec fn read(model: SliderFloatView) -> u32 {
        model.value
    }

    fn get(&self) -> (value: u32) {
        self.value
    }
}

impl SetValue<u32> for SliderFloat {
    /// The value is taken as it is, inside the range or not.
    open spec fn write(model: SliderFloatView, value: u32) -> SliderFloatView {
        SliderFloatView { value, ..model }
    }

    proof fn shown(model: SliderFloatView, value: u32) {
    }

    fn set(&mut self, value: u32) {
        self.value = value;
    }
}

} // verus!
