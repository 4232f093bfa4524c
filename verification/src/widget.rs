//! The widgets as one type, the containers that hold them, and the traits
//! that every kind of widget has.

use crate::button::{Button, ButtonView};
use crate::checkbox::{Checkbox, CheckboxView};
use crate::input_color::{InputColor, InputColorView};
use crate::input_text::{InputText, InputTextView};
use crate::same_line::{SameLine, SameLineView};
use crate::slider_float::{SliderFloat, SliderFloatView};
use crate::slider_int::{SliderInt, SliderIntView};
use crate::text::{Text, TextView};
use crate::frame::node_at;
use crate::label::{is_terminated, terminate, terminated};
use crate::native::{Draw, DrawView, ImGuiGlue, Seen, SeenView};
use crate::place::{
    find, finds, lemma_kept_update, lemma_kept_update_other, lemma_nth_has_place,
    lemma_place_is_nth, lemma_place_unique, place,
};
use vstd::prelude::*;

verus! {

/// A kind of widget.
///
/// Each frame a widget is drawn by a native call (see `ImGuiGlue`) and then
/// told what the call left behind; it takes that in and says whether its
/// callback is due.
pub trait Update: View + Sized {
    /// `widget` as one of this kind, or `None` where it is of another kind.
    spec fn pick(widget: WidgetView) -> Option<Self::V>;

    /// A widget of this kind as a widget of any kind.
    spec fn wrap(model: Self::V) -> WidgetView;

    /// What a widget in the state `model` holds after a native call that
    /// left `seen` behind. Something that the widget's native call never
    /// leaves behind changes nothing.
    spec fn settled(model: Self::V, seen: SeenView) -> Self::V;

    /// Whether the callback is due after a native call that took the widget
    /// from `before` to `after`.
    spec fn fires(before: Self::V, after: Self::V) -> bool;

    /// A wrapped widget is picked again as it was.
    proof fn pick_wrap(model: Self::V)
        ensures
            Self::pick(Self::wrap(model)) == Some(model),
    ;

    /// A widget that is picked is the picked one wrapped.
    proof fn wrap_pick(widget: WidgetView)
        requires
            Self::pick(widget) is Some,
        ensures
            Self::wrap(Self::pick(widget)->0) == widget,
    ;

    /// Takes in what the native call left behind and tells whether the
    /// callback is due.
    fn update(&mut self, seen: Seen) -> (fire: bool)
        ensures
            final(self)@ == Self::settled(old(self)@, seen@),
            fire == Self::fires(old(self)@, final(self)@),
    ;

    /// This widget as a widget of any kind.
    fn into_widget(self) -> (widget: Widget)
        ensures
            widget@ == Self::wrap(self@),
    ;

    /// `widget` as one of this kind, where it is one.
    fn downcast_ref(widget: &Widget) -> (found: Option<&Self>)
        ensures
            match found {
                Some(this) => Self::pick(widget@) == Some(this@),
                None => Self::pick(widget@) is None,
            },
    ;

    /// `widget` as one of this kind, where it is one, to be changed in
    /// place.
    fn downcast_mut(widget: &mut Widget) -> (found: Option<&mut Self>)
        ensures
            match found {
                Some(this) => Self::pick(old(widget)@) == Some(this@) && final(widget)@
                    == Self::wrap(final(this)@),
                None => Self::pick(old(widget)@) is None && final(widget)@ == old(widget)@,
            },
    ;
}

/// A widget that shows a value of type `T`.
pub trait Get<T: View>: View {
    /// The value that a widget in the state `model` shows.
    spec fn read(model: Self::V) -> T::V;

    /// The value that the widget shows.
    fn get(&self) -> (value: T)
        ensures
            value@ == Self::read(self@),
    ;
}

/// A widget whose value, of type `T`, can be set and is shown as it was
/// set.
pub trait SetValue<T: View>: Get<T> {
    /// A widget in the state `model` after its value was set to `value`.
    spec fn write(model: Self::V, value: T::V) -> Self::V;

    /// A widget shows the value that it was set to.
    proof fn shown(model: Self::V, value: T::V)
        ensures
            Self::read(Self::write(model, value)) == value,
    ;

    /// Sets the value that the widget shows.
    fn set(&mut self, value: T)
        ensures
            final(self)@ == Self::write(old(self)@, value@),
    ;
}

/// A widget of any kind.
pub enum Widget {
    Button(Button),
    Text(Text),
    Checkbox(Checkbox),
    InputText(InputText),
    InputColor(InputColor),
    SameLine(SameLine),
    SliderInt(SliderInt),
    SliderFloat(SliderFloat),
    TreeNode(TreeNode),
    Window(Window),
}

/// What a [`Widget`] holds.
pub enum WidgetView {
    Button(ButtonView),
    Text(TextView),
    Checkbox(CheckboxView),
    InputText(InputTextView),
    InputColor(InputColorView),
    SameLine(SameLineView),
    SliderInt(SliderIntView),
    SliderFloat(SliderFloatView),
    TreeNode(TreeNodeView),
    Window(WindowView),
}

/// A node that folds: its widgets are drawn while it is unfolded.
pub struct TreeNode {
    flags: i32,
    label: String,
    items: Vec<Widget>,
}

/// What a [`TreeNode`] holds.
pub struct TreeNodeView {
    pub flags: i32,
    pub label: Seq<char>,
    pub items: Seq<WidgetView>,
}

/// A window with its title and its widgets, in the order in which they are
/// drawn.
pub struct Window {
    label: String,
    widgets: Vec<Widget>,
}

/// What a [`Window`] holds.
pub struct WindowView {
    pub label: Seq<char>,
    pub widgets: Seq<WidgetView>,
}

/// What each widget of `items` holds.
pub open spec fn views(items: Seq<Widget>) -> Seq<WidgetView>
    decreases items,
{
    Seq::new(
        items.len(),
        |i: int|
            if 0 <= i < items.len() {
                widget_view(items[i])
            } else {
                arbitrary()
            },
    )
}

/// What `widget` holds.
pub open spec fn widget_view(widget: Widget) -> WidgetView
    decreases widget,
{
    match widget {
        Widget::Button(button) => WidgetView::Button(button@),
        Widget::Text(text) => WidgetView::Text(text@),
        Widget::Checkbox(checkbox) => WidgetView::Checkbox(checkbox@),
        Widget::InputText(field) => WidgetView::InputText(field@),
        Widget::InputColor(field) => WidgetView::InputColor(field@),
        Widget::SameLine(mark) => WidgetView::SameLine(mark@),
        Widget::SliderInt(slider) => WidgetView::SliderInt(slider@),
        Widget::SliderFloat(slider) => WidgetView::SliderFloat(slider@),
        Widget::TreeNode(node) => WidgetView::TreeNode(node.model()),
        Widget::Window(window) => WidgetView::Window(window.model()),
    }
}

impl TreeNode {
    /// What the node holds.
    pub closed spec fn model(self) -> TreeNodeView
        decreases self,
    {
        TreeNodeView { flags: self.flags, label: self.label@, items: views(self.items@) }
    }
}

impl Window {
    /// What the window holds.
    pub closed spec fn model(self) -> WindowView
        decreases self,
    {
        WindowView { label: self.label@, widgets: views(self.widgets@) }
    }
}

impl View for Widget {
    type V = WidgetView;

    open spec fn view(&self) -> WidgetView {
        widget_view(*self)
    }
}

impl View for TreeNode {
    type V = TreeNodeView;

    open spec fn view(&self) -> TreeNodeView {
        self.model()
    }
}

impl View for Window {
    type V = WindowView;

    open spec fn view(&self) -> WindowView {
        self.model()
    }
}

/// The widgets that `widget` holds itself; none where it is no container.
pub open spec fn children(widget: WidgetView) -> Seq<WidgetView> {
    match widget {
        WidgetView::TreeNode(node) => node.items,
        WidgetView::Window(window) => window.widgets,
        _ => Seq::empty(),
    }
}

/// `widget` with `items` in place of the widgets that it holds; `widget`
/// itself where it is no container.
pub open spec fn with_children(widget: WidgetView, items: Seq<WidgetView>) -> WidgetView {
    match widget {
        WidgetView::TreeNode(node) => WidgetView::TreeNode(TreeNodeView { items, ..node }),
        WidgetView::Window(window) => WidgetView::Window(WindowView { widgets: items, ..window }),
        _ => widget,
    }
}

/// What `widget` holds after a native call that left `seen` behind.
pub open spec fn settled(widget: WidgetView, seen: SeenView) -> WidgetView {
    match widget {
        WidgetView::Button(model) => WidgetView::Button(Button::settled(model, seen)),
        WidgetView::Text(model) => WidgetView::Text(Text::settled(model, seen)),
        WidgetView::Checkbox(model) => WidgetView::Checkbox(Checkbox::settled(model, seen)),
        WidgetView::InputText(model) => WidgetView::InputText(InputText::settled(model, seen)),
        WidgetView::InputColor(model) => WidgetView::InputColor(InputColor::settled(model, seen)),
        WidgetView::SameLine(model) => WidgetView::SameLine(SameLine::settled(model, seen)),
        WidgetView::SliderInt(model) => WidgetView::SliderInt(SliderInt::settled(model, seen)),
        WidgetView::SliderFloat(model) => WidgetView::SliderFloat(
            SliderFloat::settled(model, seen),
        ),
        WidgetView::TreeNode(model) => WidgetView::TreeNode(TreeNode::settled(model, seen)),
        WidgetView::Window(model) => WidgetView::Window(Window::settled(model, seen)),
    }
}

/// Whether the callback of `widget` is due after a native call that left
/// `seen` behind.
pub open spec fn fires_on(widget: WidgetView, seen: SeenView) -> bool {
    match widget {
        WidgetView::Button(model) => Button::fires(model, Button::settled(model, seen)),
        WidgetView::Text(model) => Text::fires(model, Text::settled(model, seen)),
        WidgetView::Checkbox(model) => Checkbox::fires(model, Checkbox::settled(model, seen)),
        WidgetView::InputText(model) => InputText::fires(model, InputText::settled(model, seen)),
        WidgetView::InputColor(model) => InputColor::fires(
            model,
            InputColor::settled(model, seen),
        ),
        WidgetView::SameLine(model) => SameLine::fires(model, SameLine::settled(model, seen)),
        WidgetView::SliderInt(model) => SliderInt::fires(model, SliderInt::settled(model, seen)),
        WidgetView::SliderFloat(model) => SliderFloat::fires(
            model,
            SliderFloat::settled(model, seen),
        ),
        WidgetView::TreeNode(model) => TreeNode::fires(model, TreeNode::settled(model, seen)),
        WidgetView::Window(model) => Window::fires(model, Window::settled(model, seen)),
    }
}

/// Whether the widgets that `widget` holds are drawn after a native call
/// that left `seen` behind: those of a window always, those of a tree node
/// where the call said that the node is unfolded.
pub open spec fn opens(widget: WidgetView, seen: SeenView) -> bool {
    match widget {
        WidgetView::Window(_) => true,
        WidgetView::TreeNode(_) => seen == SeenView::Flag(true),
        _ => false,
    }
}

/// The native call that closes `widget` behind the widgets that it holds.
pub open spec fn closing(widget: WidgetView) -> Option<DrawView> {
    match widget {
        WidgetView::Window(_) => Some(DrawView::End),
        WidgetView::TreeNode(_) => Some(DrawView::TreePop),
        _ => None,
    }
}

impl ImGuiGlue for Widget {
    open spec fn call(model: WidgetView) -> DrawView {
        match model {
            WidgetView::Button(model) => Button::call(model),
            WidgetView::Text(model) => Text::call(model),
            WidgetView::Checkbox(model) => Checkbox::call(model),
            WidgetView::InputText(model) => InputText::call(model),
            WidgetView::InputColor(model) => InputColor::call(model),
            WidgetView::SameLine(model) => SameLine::call(model),
            WidgetView::SliderInt(model) => SliderInt::call(model),
            WidgetView::SliderFloat(model) => SliderFloat::call(model),
            WidgetView::TreeNode(model) => TreeNode::call(model),
            WidgetView::Window(model) => Window::call(model),
        }
    }

    fn render(&self) -> (draw: Draw) {
        match self {
            Widget::Button(button) => button.render(),
            Widget::Text(text) => text.render(),
            Widget::Checkbox(checkbox) => checkbox.render(),
            Widget::InputText(field) => field.render(),
            Widget::InputColor(field) => field.render(),
            Widget::SameLine(mark) => mark.render(),
            Widget::SliderInt(slider) => slider.render(),
            Widget::SliderFloat(slider) => slider.render(),
            Widget::TreeNode(node) => node.render(),
            Widget::Window(window) => window.render(),
        }
    }
}

impl Widget {
    /// Takes in what the native call left behind and tells whether the
    /// callback is due.
    pub fn update(&mut self, seen: Seen) -> (fire: bool)
        ensures
            final(self)@ == settled(old(self)@, seen@),
            fire == fires_on(old(self)@, seen@),
    {
        match self {
            Widget::Button(button) => button.update(seen),
            Widget::Text(text) => text.update(seen),
            Widget::Checkbox(checkbox) => checkbox.update(seen),
            Widget::InputText(field) => field.update(seen),
            Widget::InputColor(field) => field.update(seen),
            Widget::SameLine(mark) => mark.update(seen),
            Widget::SliderInt(slider) => slider.update(seen),
            Widget::SliderFloat(slider) => slider.update(seen),
            Widget::TreeNode(node) => node.update(seen),
            Widget::Window(window) => window.update(seen),
        }
    }

    /// Whether the widgets that this one holds are drawn after a native
    /// call that left `seen` behind.
    pub fn unfolds(&self, seen: &Seen) -> (open: bool)
        ensures
            open == opens(self@, seen@),
    {
        match self {
            Widget::Window(_) => true,
            Widget::TreeNode(_) => match seen {
                Seen::Flag(open) => *open,
                _ => false,
            },
            _ => false,
        }
    }

    /// The widgets that this one holds, where it is a container.
    pub fn held(&self) -> (items: Option<&Vec<Widget>>)
        ensures
            match items {
                Some(items) => views(items@) == children(self@),
                None => children(self@) == Seq::<WidgetView>::empty(),
            },
    {
        match self {
            Widget::TreeNode(node) => Some(node.get_items()),
            Widget::Window(window) => Some(window.get_items()),
            _ => None,
        }
    }

    /// The widgets that this one holds, where it is a container, to be
    /// changed in place.
    pub fn held_mut(&mut self) -> (items: Option<&mut Vec<Widget>>)
        ensures
            match items {
                Some(items) => views(items@) == children(old(self)@) && final(self)@
                    == with_children(old(self)@, views(final(items)@)),
                None => children(old(self)@) == Seq::<WidgetView>::empty() && final(self)@ == old(
                    self,
                )@,
            },
    {
        match self {
            Widget::TreeNode(node) => Some(node.get_mut_items()),
            Widget::Window(window) => Some(window.get_mut_items()),
            _ => None,
        }
    }

    /// The native call that closes this widget behind the widgets that it
    /// holds.
    pub fn close(&self) -> (draw: Option<Draw>)
        ensures
            match draw {
                Some(draw) => closing(self@) == Some(draw@),
                None => closing(self@) is None,
            },
    {
        match self {
            Widget::Window(_) => Some(Draw::End),
            Widget::TreeNode(_) => Some(Draw::TreePop),
            _ => None,
        }
    }
}

/// Keeps the widgets of kind `T`, each as one of that kind.
pub open spec fn picker<T: Update>() -> spec_fn(WidgetView) -> Option<T::V> {
    |widget: WidgetView| T::pick(widget)
}

/// The widgets of kind `T` among `items`, in their order.
pub open spec fn of_kind<T: Update>(items: Seq<WidgetView>) -> Seq<T::V> {
    items.filter_map(picker::<T>())
}

/// What widgets hold where one of them is replaced is what they held, but
/// for that one.
pub proof fn lemma_views_update(items: Seq<Widget>, i: int)
    requires
        0 <= i < items.len(),
    ensures
        forall|widget: Widget| #[trigger]
            views(items.update(i, widget)) == views(items).update(i, widget@),
{
    assert forall|widget: Widget| #[trigger]
        views(items.update(i, widget)) == views(items).update(i, widget@) by {
        assert(views(items.update(i, widget)) =~= views(items).update(i, widget@));
    }
}

/// Every index that leads to a widget is less than the greatest index
/// that there is: a vector holds no more widgets than can be counted.
pub proof fn lemma_indices_fit(items: Vec<Widget>, path: Seq<usize>)
    ensures
        node_at(views(items@), path) is Some ==> path.last() < usize::MAX,
    decreases path.len(),
{
    vstd::std_specs::vec::axiom_spec_len(&items);
    if path.len() >= 2 && path[0] < items@.len() {
        let rest = path.drop_first();
        assert(rest.last() == path.last());
        assert(views(items@)[path[0] as int] == items@[path[0] as int]@);
        match items@[path[0] as int] {
            Widget::TreeNode(node) => {
                lemma_indices_fit(node.items, rest);
            },
            Widget::Window(window) => {
                lemma_indices_fit(window.widgets, rest);
            },
            _ => {
                assert(node_at(Seq::<WidgetView>::empty(), rest) is None);
            },
        }
    }
}

/// The same for the widgets that a window holds.
pub proof fn lemma_window_indices_fit(window: Window, path: Seq<usize>)
    ensures
        node_at(window@.widgets, path) is Some ==> path.last() < usize::MAX,
{
    lemma_indices_fit(window.widgets, path);
}

/// Keeps the widgets of kind `T`, each by what it holds.
pub(crate) open spec fn lifted<T: Update>() -> spec_fn(Widget) -> Option<T::V> {
    |widget: Widget| T::pick(widget@)
}

/// What is kept of widgets is what is kept of what they hold.
pub(crate) proof fn lemma_lifted_kept<T: Update>(items: Seq<Widget>)
    ensures
        items.filter_map(lifted::<T>()) == of_kind::<T>(views(items)),
    decreases items.len(),
{
    if items.len() > 0 {
        lemma_lifted_kept::<T>(items.drop_last());
        assert(views(items).drop_last() =~= views(items.drop_last()));
    }
}

/// A place among widgets is the same place among what they hold.
pub(crate) proof fn lemma_lifted_finds<T: Update>(items: Seq<Widget>, n: int, found: Option<usize>)
    requires
        finds(items, lifted::<T>(), n, found),
    ensures
        finds(views(items), picker::<T>(), n, found),
{
    match found {
        Some(i) => {
            lemma_lifted_kept::<T>(items.take(i as int));
            assert(views(items.take(i as int)) =~= views(items).take(i as int));
        },
        None => {
            lemma_lifted_kept::<T>(items);
        },
    }
}

/// The place in `items` of the `n`-th widget of kind `T`, counted from 0.
pub(crate) fn locate<T: Update>(items: &Vec<Widget>, n: usize) -> (found: Option<usize>)
    ensures
        finds(views(items@), picker::<T>(), n as int, found),
{
    let hit = |widget: &Widget| -> (b: bool)
        ensures
            b == (T::pick(widget@) is Some),
        { T::downcast_ref(widget).is_some() };
    let found = find::<Widget, T::V, _>(items, hit, n, Ghost(lifted::<T>()));
    proof {
        lemma_lifted_finds::<T>(items@, n as int, found);
    }
    found
}

/// `items` after the value of the `idx`-th widget of kind `T` was set to
/// `value`: that widget holds the value, and every other widget is as it
/// was.
pub open spec fn set_among<T: Update + SetValue<U>, U: View>(
    items: Seq<WidgetView>,
    idx: int,
    value: U::V,
) -> Seq<WidgetView> {
    items.update(
        place(items, picker::<T>(), idx),
        T::wrap(T::write(of_kind::<T>(items)[idx], value)),
    )
}

/// After a set, the widgets of kind `T` are the same but for the one that
/// was set, which holds the value; there are as many widgets as before.
pub proof fn lemma_set_among<T: Update + SetValue<U>, U: View>(
    items: Seq<WidgetView>,
    idx: int,
    value: U::V,
)
    requires
        0 <= idx < of_kind::<T>(items).len(),
    ensures
        set_among::<T, U>(items, idx, value).len() == items.len(),
        of_kind::<T>(set_among::<T, U>(items, idx, value)) == of_kind::<T>(items).update(
            idx,
            T::write(of_kind::<T>(items)[idx], value),
        ),
{
    let i = lemma_nth_has_place(items, picker::<T>(), idx);
    lemma_place_unique(items, picker::<T>(), idx, i, place(items, picker::<T>(), idx));
    let set = T::write(of_kind::<T>(items)[idx], value);
    T::pick_wrap(set);
    lemma_kept_update(items, picker::<T>(), idx, i, T::wrap(set));
}

/// After a set, a get of the same widget gives the value that was set.
pub proof fn lemma_get_after_set<T: Update + SetValue<U>, U: View>(
    items: Seq<WidgetView>,
    idx: int,
    value: U::V,
)
    requires
        0 <= idx < of_kind::<T>(items).len(),
    ensures
        0 <= idx < of_kind::<T>(set_among::<T, U>(items, idx, value)).len(),
        <T as Get<U>>::read(of_kind::<T>(set_among::<T, U>(items, idx, value))[idx]) == value,
{
    lemma_set_among::<T, U>(items, idx, value);
    T::shown(of_kind::<T>(items)[idx], value);
}

/// A widget that is added is the last of its kind, behind the widgets of
/// that kind that were there.
pub proof fn lemma_add_among<T: Update>(items: Seq<WidgetView>, model: T::V)
    ensures
        of_kind::<T>(items.push(T::wrap(model))) == of_kind::<T>(items).push(model),
{
    let added = items.push(T::wrap(model));
    T::pick_wrap(model);
    assert(added.drop_last() =~= items);
    assert(of_kind::<T>(items) + seq![model] =~= of_kind::<T>(items).push(model));
}

/// After a set of a widget of kind `T`, the widgets of a kind `K` that
/// holds no widget of kind `T` are the same.
pub proof fn lemma_set_among_other<T: Update + SetValue<U>, U: View, K: Update>(
    items: Seq<WidgetView>,
    idx: int,
    value: U::V,
)
    requires
        0 <= idx < of_kind::<T>(items).len(),
        forall|widget: WidgetView| T::pick(widget) is Some ==> K::pick(widget) is None,
    ensures
        of_kind::<K>(set_among::<T, U>(items, idx, value)) == of_kind::<K>(items),
{
    let i = lemma_nth_has_place(items, picker::<T>(), idx);
    lemma_place_unique(items, picker::<T>(), idx, i, place(items, picker::<T>(), idx));
    let set = T::write(of_kind::<T>(items)[idx], value);
    T::pick_wrap(set);
    assert(T::pick(items[i]) is Some);
    assert(T::pick(T::wrap(set)) is Some);
    lemma_kept_update_other(items, picker::<K>(), i, T::wrap(set));
}

/// A widget that holds widgets.
pub trait Container2: View + Sized {
    /// The widgets that a container in the state `model` holds, in the
    /// order in which they are drawn.
    spec fn items(model: Self::V) -> Seq<WidgetView>;

    /// The container in the state `model` with `items` in place of its
    /// widgets.
    spec fn with_items(model: Self::V, items: Seq<WidgetView>) -> Self::V;

    /// A container holds the widgets that were put in place of its own,
    /// and only the last replacement counts.
    proof fn replaced(model: Self::V, first: Seq<WidgetView>, second: Seq<WidgetView>)
        ensures
            Self::items(Self::with_items(model, first)) == first,
            Self::with_items(Self::with_items(model, first), second) == Self::with_items(
                model,
                second,
            ),
            Self::with_items(model, Self::items(model)) == model,
    ;

    /// The widgets of the container.
    fn get_items(&self) -> (items: &Vec<Widget>)
        ensures
            views(items@) == Self::items(self@),
    ;

    /// The widgets of the container, to be changed in place.
    fn get_mut_items(&mut self) -> (items: &mut Vec<Widget>)
        ensures
            views(items@) == Self::items(old(self)@),
            final(self)@ == Self::with_items(old(self)@, views(final(items)@)),
    ;

    /// How many widgets of kind `T` the container holds.
    fn count<T: Update>(&self) -> (n: usize)
        ensures
            n == of_kind::<T>(Self::items(self@)).len(),
    {
        let items = self.get_items();
        let mut n: usize = 0;
        let mut i: usize = 0;
        while i < items.len()
            invariant
                i <= items.len(),
                n <= i,
                n == items@.take(i as int).filter_map(lifted::<T>()).len(),
            decreases items.len() - i,
        {
            proof {
                items@.lemma_filter_map_take_succ(lifted::<T>(), i as int);
            }
            if T::downcast_ref(&items[i]).is_some() {
                n = n + 1;
            }
            i = i + 1;
        }
        proof {
            assert(items@.take(i as int) =~= items@);
            lemma_lifted_kept::<T>(items@);
        }
        n
    }

    /// The value of the `idx`-th widget of kind `T`, counted from 0 among
    /// the widgets of that kind that the container itself holds.
    fn get_val<T: Update + Get<U>, U: View>(&self, idx: usize) -> (value: U)
        requires
            idx < of_kind::<T>(Self::items(self@)).len(),
        ensures
            value@ == T::read(of_kind::<T>(Self::items(self@))[idx as int]),
    {
        let items = self.get_items();
        let found = locate::<T>(items, idx);
        match found {
            Some(i) => {
                proof {
                    lemma_place_is_nth(views(items@), picker::<T>(), idx as int, i as int);
                }
                match T::downcast_ref(&items[i]) {
                    Some(widget) => widget.get(),
                    None => vstd::pervasive::unreached(),
                }
            },
            None => vstd::pervasive::unreached(),
        }
    }

    /// Sets the value of the `idx`-th widget of kind `T`, counted from 0
    /// among the widgets of that kind that the container itself holds.
    /// Nothing else changes.
    fn set_val<T: Update + SetValue<U>, U: View>(&mut self, idx: usize, value: U)
        requires
            idx < of_kind::<T>(Self::items(old(self)@)).len(),
        ensures
            final(self)@ == Self::with_items(
                old(self)@,
                set_among::<T, U>(Self::items(old(self)@), idx as int, value@),
            ),
    {
        let ghost before = Self::items(self@);
        let items = self.get_mut_items();
        let ghost held = items@;
        let found = locate::<T>(items, idx);
        match found {
            Some(i) => {
                proof {
                    lemma_place_is_nth(before, picker::<T>(), idx as int, i as int);
                    let at = place(before, picker::<T>(), idx as int);
                    lemma_place_unique(before, picker::<T>(), idx as int, i as int, at);
                }
                match T::downcast_mut(&mut items[i]) {
                    Some(widget) => {
                        widget.set(value);
                    },
                    None => {},
                }
                assert(views(items@) =~= before.update(
                    i as int,
                    T::wrap(T::write(of_kind::<T>(before)[idx as int], value@)),
                ));
            },
            None => {},
        }
    }

    /// The `widget_idx`-th widget of kind `T`, counted from 0 among the
    /// widgets of that kind that the container itself holds, to be read
    /// and changed in place: the container afterwards holds the widget as
    /// it was left, and every other widget as it was.
    fn get_widget<T: Update>(&mut self, widget_idx: usize) -> (widget: &mut T)
        requires
            widget_idx < of_kind::<T>(Self::items(old(self)@)).len(),
        ensures
            widget@ == of_kind::<T>(Self::items(old(self)@))[widget_idx as int],
            final(self)@ == Self::with_items(
                old(self)@,
                Self::items(old(self)@).update(
                    place(Self::items(old(self)@), picker::<T>(), widget_idx as int),
                    T::wrap(final(widget)@),
                ),
            ),
    {
        let ghost before = Self::items(self@);
        let items = self.get_mut_items();
        let ghost held = items@;
        let found = locate::<T>(items, widget_idx);
        match found {
            Some(i) => {
                proof {
                    lemma_place_is_nth(before, picker::<T>(), widget_idx as int, i as int);
                    let at = place(before, picker::<T>(), widget_idx as int);
                    lemma_place_unique(before, picker::<T>(), widget_idx as int, i as int, at);
                    lemma_views_update(held, i as int);
                }
                match T::downcast_mut(&mut items[i]) {
                    Some(widget) => widget,
                    None => vstd::pervasive::unreached(),
                }
            },
            None => vstd::pervasive::unreached(),
        }
    }

    /// The container with `widget` behind its other widgets.
    fn add<T: Update>(self, widget: T) -> (extended: Self)
        ensures
            extended@ == Self::with_items(self@, Self::items(self@).push(T::wrap(widget@))),
    {
        let ghost before = Self::items(self@);
        let mut extended = self;
        let items = extended.get_mut_items();
        items.push(widget.into_widget());
        assert(views(items@) =~= before.push(T::wrap(widget@)));
        extended
    }

    /// The container with `widget` behind its other widgets, on the line of
    /// the last of them.
    fn same_line<T: Update>(self, widget: T) -> (extended: Self)
        ensures
            extended@ == Self::with_items(
                self@,
                Self::items(self@).push(WidgetView::SameLine(SameLineView::standard())).push(
                    T::wrap(widget@),
                ),
            ),
    {
        proof {
            let marked = Self::items(self@).push(WidgetView::SameLine(SameLineView::standard()));
            Self::replaced(self@, marked, marked.push(T::wrap(widget@)));
        }
        self.add(SameLine::new(None, None)).add(widget)
    }
}

impl TreeNode {
    /// A node without widgets, under `label` with a NUL at its end.
    pub fn new(label: &str) -> (node: Self)
        ensures
            node@ == (TreeNodeView {
                flags: 0,
                label: terminated(label@),
                items: Seq::empty(),
            }),
            is_terminated(node@.label),
    {
        let node = TreeNode { flags: 0, label: terminate(label), items: Vec::new() };
        assert(views(node.items@) =~= Seq::empty());
        node
    }
}

impl ImGuiGlue for TreeNode {
    open spec fn call(model: TreeNodeView) -> DrawView {
        DrawView::TreeNodeEx { label: model.label, flags: model.flags }
    }

    fn render(&self) -> (draw: Draw) {
        Draw::TreeNodeEx { label: self.label.clone(), flags: self.flags }
    }
}

impl Update for TreeNode {
    open spec fn pick(widget: WidgetView) -> Option<TreeNodeView> {
        match widget {
            WidgetView::TreeNode(model) => Some(model),
            _ => None,
        }
    }

    open spec fn wrap(model: TreeNodeView) -> WidgetView {
        WidgetView::TreeNode(model)
    }

    /// The native call leaves the node as it is.
    open spec fn settled(model: TreeNodeView, seen: SeenView) -> TreeNodeView {
        model
    }

    /// A node never fires.
    open spec fn fires(before: TreeNodeView, after: TreeNodeView) -> bool {
        false
    }

    proof fn pick_wrap(model: TreeNodeView) {
    }

    proof fn wrap_pick(widget: WidgetView) {
    }

    fn update(&mut self, seen: Seen) -> (fire: bool) {
        false
    }

    fn into_widget(self) -> (widget: Widget) {
        Widget::TreeNode(self)
    }

    fn downcast_ref(widget: &Widget) -> (found: Option<&Self>) {
        match widget {
            Widget::TreeNode(node) => Some(node),
            _ => None,
        }
    }

    fn downcast_mut(widget: &mut Widget) -> (found: Option<&mut Self>) {
        match widget {
            Widget::TreeNode(node) => Some(node),
            _ => None,
        }
    }
}

impl Container2 for TreeNode {
    open spec fn items(model: TreeNodeView) -> Seq<WidgetView> {
        model.items
    }

    open spec fn with_items(model: TreeNodeView, items: Seq<WidgetView>) -> TreeNodeView {
        TreeNodeView { items, ..model }
    }

    proof fn replaced(model: TreeNodeView, first: Seq<WidgetView>, second: Seq<WidgetView>) {
    }

    fn get_items(&self) -> (items: &Vec<Widget>) {
        &self.items
    }

    fn get_mut_items(&mut self) -> (items: &mut Vec<Widget>) {
        &mut self.items
    }
}

impl Window {
    /// A window without widgets, under the title `label` with a NUL at its
    /// end.
    pub fn new(label: &str) -> (window: Self)
        ensures
            window@ == (WindowView { label: terminated(label@), widgets: Seq::empty() }),
            is_terminated(window@.label),
    {
        let window = Window { label: terminate(label), widgets: Vec::new() };
        assert(views(window.widgets@) =~= Seq::empty());
        window
    }
}

impl ImGuiGlue for Window {
    open spec fn call(model: WindowView) -> DrawView {
        DrawView::Begin { name: model.label, close: true, flags: 0 }
    }

    fn render(&self) -> (draw: Draw) {
        Draw::Begin { name: self.label.clone(), close: true, flags: 0 }
    }
}

impl Update for Window {
    open spec fn pick(widget: WidgetView) -> Option<WindowView> {
        match widget {
            WidgetView::Window(model) => Some(model),
            _ => None,
        }
    }

    open spec fn wrap(model: WindowView) -> WidgetView {
        WidgetView::Window(model)
    }

    /// The native call leaves the window as it is.
    open spec fn settled(model: WindowView, seen: SeenView) -> WindowView {
        model
    }

    /// A window never fires.
    open spec fn fires(before: WindowView, after: WindowView) -> bool {
        false
    }

    proof fn pick_wrap(model: WindowView) {
    }

    proof fn wrap_pick(widget: WidgetView) {
    }

    fn update(&mut self, seen: Seen) -> (fire: bool) {
        false
    }

    fn into_widget(self) -> (widget: Widget) {
        Widget::Window(self)
    }

    fn downcast_ref(widget: &Widget) -> (found: Option<&Self>) {
        match widget {
            Widget::Window(window) => Some(window),
            _ => None,
        }
    }

    fn downcast_mut(widget: &mut Widget) -> (found: Option<&mut Self>) {
        match widget {
            Widget::Window(window) => Some(window),
            _ => None,
        }
    }
}

impl Container2 for Window {
    open spec fn items(model: WindowView) -> Seq<WidgetView> {
        model.widgets
    }

    open spec fn with_items(model: WindowView, items: Seq<WidgetView>) -> WindowView {
        WindowView { widgets: items, ..model }
    }

    proof fn replaced(model: WindowView, first: Seq<WidgetView>, second: Seq<WidgetView>) {
    }

    fn get_items(&self) -> (items: &Vec<Widget>) {
        &self.widgets
    }

    fn get_mut_items(&mut self) -> (items: &mut Vec<Widget>) {
        &mut self.widgets
    }
}

} // verus!
