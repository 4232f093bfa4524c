//! A line of text.

use crate::label::{terminate, terminated};
use crate::native::{Draw, DrawView, ImGuiGlue, Seen, SeenView};
use crate::widget::{Get, SetValue, Update, Widget, WidgetView};
use vstd::prelude::*;

verus! {

/// A text that is shown as it is.
pub struct Text {
    pub value: String,
}

/// What a [`Text`] holds.
pub struct TextView {
    pub value: Seq<char>,
}

impl View for Text {
    type V = TextView;

    open spec fn view(&self) -> TextView {
        TextView { value: self.value@ }
    }
}

impl Text {
    /// The text `label` with a NUL at its end.
    pub fn new(label: &str) -> (text: Self)
        ensures
            text@ == (TextView { value: terminated(label@) }),
    {
        Text { value: terminate(label) }
    }
}

impl ImGuiGlue for Text {
    open spec fn call(model: TextView) -> DrawView {
        DrawView::Text { text: model.value }
    }

    fn render(&self) -> (draw: Draw) {
        Draw::Text { text: self.value.clone() }
    }
}

impl Update for Text {
    open spec fn pick(widget: WidgetView) -> Option<TextView> {
        match widget {
            WidgetView::Text(model) => Some(model),
            _ => None,
        }
    }

    open spec fn wrap(model: TextView) -> WidgetView {
        WidgetView::Text(model)
    }

    /// The native call leaves a text as it is.
    open spec fn settled(model: TextView, seen: SeenView) -> TextView {
        model
    }

    /// A text never fires.
    open spec fn fires(before: TextView, after: TextView) -> bool {
        false
    }

    proof fn pick_wrap(model: TextView) {
    }

    proof fn wrap_pick(widget: WidgetView) {
    }

    fn update(&mut self, seen: Seen) -> (fire: bool) {
        false
    }

    fn into_widget(self) -> (widget: Widget) {
        Widget::Text(self)
    }

    fn downcast_ref(widget: &Widget) -> (found: Option<&Self>) {
        match widget {
            Widget::Text(text) => Some(text),
            _ => None,
        }
    }

    fn downcast_mut(widget: &mut Widget) -> (found: Option<&mut Self>) {
        match widget {
            Widget::Text(text) => Some(text),
            _ => None,
        }
    }
}

impl SetValue<String> for Text {
    /// The new text is taken as it is: no NUL is put behind it.
    open spec fn write(model: TextView, value: Seq<char>) -> TextView {
        TextView { value }
    }

    proof fn shown(model: TextView, value: Seq<char>) {
    }

    fn set(&mut self, value: String) {
        self.value = value;
    }
}

impl Get<String> for Text {
    open spec fn read(model: TextView) -> Seq<char> {
        model.value
    }

    fn get(&self) -> (value: String) {
        self.value.clone()
    }
}

} // verus!
