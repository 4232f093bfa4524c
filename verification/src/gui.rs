//! The application: its windows, in the order in which they are drawn.

use crate::label::{is_terminated, terminate, terminated};
use crate::ending::{countable, lemma_gui_spot, spot, tops};
use crate::place::place;
use crate::widget::{
    lemma_window_indices_fit, of_kind, picker, set_among, Container2, Get, SetValue, Update,
    Window, WindowView,
};
use vstd::prelude::*;

verus! {

/// An application with its title and its windows.
pub struct Gui {
    label: String,
    windows2: Vec<Window>,
    /// Whether the toolkit's own demonstration window is shown.
    pub show_demo_window: bool,
}

/// What a [`Gui`] holds.
pub struct GuiView {
    pub label: Seq<char>,
    pub windows: Seq<WindowView>,
    pub show_demo_window: bool,
}

/// What each window of `windows` holds.
pub open spec fn window_views(windows: Seq<Window>) -> Seq<WindowView> {
    Seq::new(windows.len(), |i: int| windows[i]@)
}

/// What windows hold where one of them is replaced is what they held, but
/// for that one.
pub proof fn lemma_window_views_update(windows: Seq<Window>, i: int)
    requires
        0 <= i < windows.len(),
    ensures
        forall|window: Window| #[trigger]
            window_views(windows.update(i, window)) == window_views(windows).update(i, window@),
{
    assert forall|window: Window| #[trigger]
        window_views(windows.update(i, window)) == window_views(windows).update(
            i,
            window@,
        ) by {
        assert(window_views(windows.update(i, window)) =~= window_views(windows).update(
            i,
            window@,
        ));
    }
}

/// Every application is countable: every index that leads to one of its
/// widgets is less than the greatest index that there is.
pub proof fn lemma_countable(gui: Gui)
    ensures
        countable(tops(gui@)),
{
    assert forall|path: Seq<usize>| #[trigger] spot(tops(gui@), path) is Some implies path.last()
        < usize::MAX by {
        lemma_gui_spot(gui@, path);
        vstd::std_specs::vec::axiom_spec_len(&gui.windows2);
        if path.len() >= 2 {
            let rest = path.drop_first();
            assert(rest.last() == path.last());
            lemma_window_indices_fit(gui.windows2@[path[0] as int], rest);
        }
    }
}

impl View for Gui {
    type V = GuiView;

    closed spec fn view(&self) -> GuiView {
        GuiView {
            label: self.label@,
            windows: window_views(self.windows2@),
            show_demo_window: self.show_demo_window,
        }
    }
}

impl Gui {
    /// An application without windows that does not show the demonstration
    /// window, under the title `label` with a NUL at its end.
    pub fn new(label: &str) -> (gui: Gui)
        ensures
            gui@ == (GuiView {
                label: terminated(label@),
                windows: Seq::empty(),
                show_demo_window: false,
            }),
            is_terminated(gui@.label),
    {
        let gui = Gui { label: terminate(label), windows2: Vec::new(), show_demo_window: false };
        assert(window_views(gui.windows2@) =~= Seq::empty());
        gui
    }

    /// The application with `window` behind its other windows.
    pub fn window(self, window: Window) -> (extended: Self)
        ensures
            extended@ == (GuiView { windows: self@.windows.push(window@), ..self@ }),
    {
        let mut extended = self;
        extended.windows2.push(window);
        assert(window_views(extended.windows2@) =~= self@.windows.push(window@));
        extended
    }

    /// The windows of the application.
    pub fn windows(&self) -> (windows: &Vec<Window>)
        ensures
            window_views(windows@) == self@.windows,
    {
        &self.windows2
    }

    /// The windows of the application, to be changed in place.
    pub(crate) fn windows_mut(&mut self) -> (windows: &mut Vec<Window>)
        ensures
            window_views(windows@) == old(self)@.windows,
            final(self)@ == (GuiView { windows: window_views(final(windows)@), ..old(self)@ }),
    {
        &mut self.windows2
    }

    /// Whether the toolkit's own demonstration window is shown.
    pub fn shows_demo_window(&self) -> (shown: bool)
        ensures
            shown == self@.show_demo_window,
    {
        self.show_demo_window
    }

    /// The title of the application, with the NUL at its end.
    pub fn label(&self) -> (label: &String)
        ensures
            label@ == self@.label,
    {
        &self.label
    }

    /// Sets the value of the `widget_idx`-th widget of kind `T` in the
    /// `window_idx`-th window, both counted from 0. Nothing else changes.
    pub fn set<T: Update + SetValue<U>, U: View>(
        &mut self,
        window_idx: usize,
        widget_idx: usize,
        value: U,
    )
        requires
            window_idx < old(self)@.windows.len(),
            widget_idx < of_kind::<T>(old(self)@.windows[window_idx as int].widgets).len(),
        ensures
            final(self)@ == (GuiView {
                windows: old(self)@.windows.update(
                    window_idx as int,
                    WindowView {
                        widgets: set_among::<T, U>(
                            old(self)@.windows[window_idx as int].widgets,
                            widget_idx as int,
                            value@,
                        ),
                        ..old(self)@.windows[window_idx as int]
                    },
                ),
                ..old(self)@
            }),
    {
        let ghost before = self@.windows;
        let window = &mut self.windows2[window_idx];
        window.set_val::<T, U>(widget_idx, value);
        assert(window_views(self.windows2@) =~= before.update(
            window_idx as int,
            WindowView {
                widgets: set_among::<T, U>(
                    before[window_idx as int].widgets,
                    widget_idx as int,
                    value@,
                ),
                ..before[window_idx as int]
            },
        ));
    }

    /// The value of the `widget_idx`-th widget of kind `T` in the
    /// `window_idx`-th window, both counted from 0.
    pub fn get<T: Update + Get<U>, U: View>(&self, window_idx: usize, widget_idx: usize) -> (value:
        U)
        requires
            window_idx < self@.windows.len(),
            widget_idx < of_kind::<T>(self@.windows[window_idx as int].widgets).len(),
        ensures
            value@ == T::read(
                of_kind::<T>(self@.windows[window_idx as int].widgets)[widget_idx as int],
            ),
    {
        self.windows2[window_idx].get_val::<T, U>(widget_idx)
    }

    /// The `widget_idx`-th widget of kind `T` in the `window_idx`-th
    /// window, both counted from 0, to be read and changed in place: the
    /// window afterwards holds the widget as it was left, and everything
    /// else is as it was.
    pub fn get_widget<T: Update>(&mut self, window_idx: usize, widget_idx: usize) -> (widget:
        &mut T)
        requires
            window_idx < old(self)@.windows.len(),
            widget_idx < of_kind::<T>(old(self)@.windows[window_idx as int].widgets).len(),
        ensures
            widget@ == of_kind::<T>(old(self)@.windows[window_idx as int].widgets)[widget_idx
                as int],
            final(self)@ == (GuiView {
                windows: old(self)@.windows.update(
                    window_idx as int,
                    WindowView {
                        widgets: old(self)@.windows[window_idx as int].widgets.update(
                            place(
                                old(self)@.windows[window_idx as int].widgets,
                                picker::<T>(),
                                widget_idx as int,
                            ),
                            T::wrap(final(widget)@),
                        ),
                        ..old(self)@.windows[window_idx as int]
                    },
                ),
                ..old(self)@
            }),
    {
        proof {
            lemma_window_views_update(self.windows2@, window_idx as int);
        }
        self.windows2[window_idx].get_widget::<T>(widget_idx)
    }
}

} // verus!
