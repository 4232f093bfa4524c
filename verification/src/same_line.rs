//! The mark that keeps the next widget on the line of the last one.

use crate::native::{Draw, DrawView, ImGuiGlue, Seen, SeenView};
use crate::single;
use crate::widget::{Update, Widget, WidgetView};
use vstd::prelude::*;

verus! {

/// Where on the line the next widget goes, each number held by its bits
/// (see `single`).
pub struct SameLine {
    offset_from_start_x: u32,
    spacing: u32,
}

/// What a [`SameLine`] holds.
pub struct SameLineView {
    pub offset_from_start_x: u32,
    pub spacing: u32,
}

impl SameLineView {
    /// The mark that leaves both numbers to the toolkit: an offset of 0.0
    /// and a spacing of -1.0.
    pub open spec fn standard() -> SameLineView {
        SameLineView { offset_from_start_x: single::ZERO, spacing: single::MINUS_ONE }
    }
}

impl View for SameLine {
    type V = SameLineView;

    closed spec fn view(&self) -> SameLineView {
        SameLineView { offset_from_start_x: self.offset_from_start_x, spacing: self.spacing }
    }
}

impl SameLine {
    /// A mark with the given offset and spacing; 0.0 stands in for an
    /// offset that is not given, -1.0 for a spacing that is not.
    pub fn new(offset_from_start_x: Option<u32>, spacing: Option<u32>) -> (mark: Self)
        ensures
            mark@ == (SameLineView {
                offset_from_start_x: match offset_from_start_x {
                    Some(x) => x,
                    None => single::ZERO,
                },
                spacing: match spacing {
                    Some(x) => x,
                    None => single::MINUS_ONE,
                },
            }),
    {
        let offset_from_start_x = if let Some(x) = offset_from_start_x {
            x
        } else {
            single::ZERO
        };
        let spacing = if let Some(x) = spacing {
            x
        } else {
            single::MINUS_ONE
        };
        SameLine { offset_from_start_x, spacing }
    }
}

impl ImGuiGlue for SameLine {
    open spec fn call(model: SameLineView) -> DrawView {
        DrawView::SameLine {
            offset_from_start_x: model.offset_from_start_x,
            spacing: model.spacing,
        }
    }

    fn render(&self) -> (draw: Draw) {
        Draw::SameLine { offset_from_start_x: self.offset_from_start_x, spacing: self.spacing }
    }
}

impl Update for SameLine {
    open spec fn pick(widget: WidgetView) -> Option<SameLineView> {
        match widget {
            WidgetView::SameLine(model) => Some(model),
            _ => None,
        }
    }

    open spec fn wrap(model: SameLineView) -> WidgetView {
        WidgetView::SameLine(model)
    }

    /// The native call leaves the mark as it is.
    open spec fn settled(model: SameLineView, seen: SeenView) -> SameLineView {
        model
    }

    /// The mark never fires.
    open spec fn fires(before: SameLineView, after: SameLineView) -> bool {
        false
    }

    proof fn pick_wrap(model: SameLineView) {
    }

    proof fn wrap_pick(widget: WidgetView) {
    }

    fn update(&mut self, seen: Seen) -> (fire: bool) {
        false
    }

    fn into_widget(self) -> (widget: Widget) {
        Widget::SameLine(self)
    }

    fn downcast_ref(widget: &Widget) -> (found: Option<&Self>) {
        match widget {
            Widget::SameLine(mark) => Some(mark),
            _ => None,
        }
    }

    fn downcast_mut(widget: &mut Widget) -> (found: Option<&mut Self>) {
        match widget {
            Widget::SameLine(mark) => Some(mark),
            _ => None,
        }
    }
}

} // verus!
