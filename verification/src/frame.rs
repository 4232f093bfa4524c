//! One frame, step by step.
//!
//! In a frame every window is opened, its widgets are drawn in their order,
//! and the window is closed. A widget is drawn by a native call; what the
//! call leaves behind goes into the widget, and where the widget then fires,
//! its callback is due before the next widget is drawn. The widgets that a
//! tree node holds are drawn where the native call said that the node is
//! unfolded.
//!
//! The library makes no native call and holds no callback. It walks the
//! application one step at a time: each step hands out what is to be done
//! next, and the caller hands in what a native call left behind.

use crate::ending::{left, lemma_step_nearer};
use crate::gui::{window_views, Gui, GuiView};
use crate::input_color::grey;
use crate::native::{Draw, DrawView, ImGuiGlue, ImGui_Vec4, Seen, SeenView};
use crate::single;
use crate::widget::{
    children, closing, fires_on, opens, settled, views, with_children, Container2, Update, Widget,
    WidgetView, Window, WindowView,
};
use vstd::prelude::*;

verus! {

/// The widget that `path` leads to from `items`: the first index picks one
/// of `items`, each further index one of the widgets that the last one
/// holds. `None` where an index picks nothing.
pub open spec fn node_at(items: Seq<WidgetView>, path: Seq<usize>) -> Option<WidgetView>
    decreases path.len(),
{
    if path.len() == 0 || path[0] >= items.len() {
        None
    } else if path.len() == 1 {
        Some(items[path[0] as int])
    } else {
        node_at(children(items[path[0] as int]), path.drop_first())
    }
}

/// `items` with `node` in place of the widget that `path` leads to; `items`
/// where `path` leads to none.
pub open spec fn with_node_at(
    items: Seq<WidgetView>,
    path: Seq<usize>,
    node: WidgetView,
) -> Seq<WidgetView>
    decreases path.len(),
{
    if path.len() == 0 || path[0] >= items.len() {
        items
    } else if path.len() == 1 {
        items.update(path[0] as int, node)
    } else {
        let first = items[path[0] as int];
        items.update(
            path[0] as int,
            with_children(first, with_node_at(children(first), path.drop_first(), node)),
        )
    }
}

/// The widget that the indices of `path` from the `from`-th on lead to.
pub fn peek<'a>(items: &'a Vec<Widget>, path: &Vec<usize>, from: usize) -> (found: Option<
    &'a Widget,
>)
    requires
        from <= path.len(),
    ensures
        match found {
            Some(widget) => node_at(views(items@), path@.skip(from as int)) == Some(widget@),
            None => node_at(views(items@), path@.skip(from as int)) is None,
        },
        found is Some ==> from < path.len() && path@.last() < usize::MAX,
    decreases path.len() - from,
{
    if from >= path.len() {
        return None;
    }
    let i = path[from];
    if i >= items.len() {
        return None;
    }
    if from + 1 == path.len() {
        return Some(&items[i]);
    }
    let ghost rest = path@.skip(from as int);
    assert(rest.drop_first() =~= path@.skip(from as int + 1));
    assert(rest[0] == i && rest.len() >= 2);
    assert(views(items@)[i as int] == items@[i as int]@);
    match items[i].held() {
        Some(held) => peek(held, path, from + 1),
        None => {
            assert(node_at(Seq::empty(), rest.drop_first()) is None);
            None
        },
    }
}

/// Hands what a native call left behind to the widget that the indices of
/// `path` from the `from`-th on lead to. Tells whether the widget fires and
/// whether the widgets that it holds are drawn next; `None` where `path`
/// leads to no widget.
pub fn settle(items: &mut Vec<Widget>, path: &Vec<usize>, from: usize, seen: Seen) -> (outcome:
    Option<(bool, bool)>)
    requires
        from <= path.len(),
    ensures
        match node_at(views(old(items)@), path@.skip(from as int)) {
            Some(node) => {
                &&& outcome == Some((fires_on(node, seen@), opens(node, seen@)))
                &&& views(final(items)@) == with_node_at(
                    views(old(items)@),
                    path@.skip(from as int),
                    settled(node, seen@),
                )
            },
            None => outcome is None && views(final(items)@) == views(old(items)@),
        },
        outcome is Some ==> from < path.len() && path@.last() < usize::MAX,
    decreases path.len() - from,
{
    if from >= path.len() {
        return None;
    }
    let i = path[from];
    if i >= items.len() {
        return None;
    }
    let ghost before = views(items@);
    let ghost rest = path@.skip(from as int);
    assert(rest.drop_first() =~= path@.skip(from as int + 1));
    assert(rest[0] == i && rest.len() == path.len() - from);
    assert(before[i as int] == items@[i as int]@);
    if from + 1 == path.len() {
        let open = items[i].unfolds(&seen);
        let fire = items[i].update(seen);
        assert(views(items@) =~= with_node_at(before, rest, settled(before[i as int], seen@)));
        return Some((fire, open));
    }
    let outcome = match items[i].held_mut() {
        Some(held) => settle(held, path, from + 1, seen),
        None => {
            assert(node_at(Seq::empty(), rest.drop_first()) is None);
            None
        },
    };
    assert(views(items@) =~= match node_at(before, rest) {
        Some(node) => with_node_at(before, rest, settled(node, seen@)),
        None => before,
    }) by {
        let first = before[i as int];
        assert(views(items@)[i as int] == items@[i as int]@);
        if node_at(before, rest) is None {
            assert(with_children(first, children(first)) == first);
        }
    }
    outcome
}

/// The widget that `path` leads to in `gui`: the first index picks a
/// window, the further ones lead on from the widgets of that window.
pub open spec fn gui_node(gui: GuiView, path: Seq<usize>) -> Option<WidgetView> {
    if path.len() == 0 || path[0] >= gui.windows.len() {
        None
    } else if path.len() == 1 {
        Some(WidgetView::Window(gui.windows[path[0] as int]))
    } else {
        node_at(gui.windows[path[0] as int].widgets, path.drop_first())
    }
}

/// `gui` with `node` in place of the widget that `path` leads to below a
/// window; `gui` where `path` leads to none or to a window itself.
pub open spec fn gui_with_node(gui: GuiView, path: Seq<usize>, node: WidgetView) -> GuiView {
    if path.len() < 2 || path[0] >= gui.windows.len() {
        gui
    } else {
        let window = gui.windows[path[0] as int];
        GuiView {
            windows: gui.windows.update(
                path[0] as int,
                WindowView {
                    widgets: with_node_at(window.widgets, path.drop_first(), node),
                    ..window
                },
            ),
            ..gui
        }
    }
}

/// Where a walk stands.
#[derive(Clone, Copy, Debug, PartialEq, Eq, Structural)]
pub enum Stage {
    /// Before the frame is opened.
    Start,
    /// The frame is open; the demonstration window is next.
    Demo,
    /// The widget that the path leads to is to be drawn.
    Enter,
    /// The widget that the path leads to was drawn; what the native call
    /// left behind is awaited.
    Drawn,
    /// The widgets that the container at the path holds are done; the
    /// container is to be closed.
    Leave,
    /// All windows are done; the frame is to be closed.
    Finish,
    /// The frame is closed.
    Done,
}

/// A walk through one frame: the stage and the path to the widget that the
/// walk stands at.
pub struct Walk {
    stage: Stage,
    path: Vec<usize>,
}

/// What a [`Walk`] holds.
pub struct WalkView {
    pub stage: Stage,
    pub path: Seq<usize>,
}

impl View for Walk {
    type V = WalkView;

    closed spec fn view(&self) -> WalkView {
        WalkView { stage: self.stage, path: self.path@ }
    }
}

/// What the caller is to do after a step of a walk.
#[derive(Debug)]
pub enum Action {
    /// Make this native call and hand what it leaves behind to the next
    /// step.
    Draw(Draw),
    /// Call the callback of the widget that this path leads to.
    Fire(Vec<usize>),
    /// Nothing; take the next step.
    Idle,
    /// Nothing more: the frame is closed.
    Done,
}

/// An [`Action`] with its texts and its path as sequences.
pub enum ActionView {
    Draw(DrawView),
    Fire(Seq<usize>),
    Idle,
    Done,
}

impl View for Action {
    type V = ActionView;

    open spec fn view(&self) -> ActionView {
        match *self {
            Action::Draw(draw) => ActionView::Draw(draw@),
            Action::Fire(path) => ActionView::Fire(path@),
            Action::Idle => ActionView::Idle,
            Action::Done => ActionView::Done,
        }
    }
}

/// The path to the widget behind the one that `path` leads to, in the same
/// container.
pub open spec fn sibling(path: Seq<usize>) -> Seq<usize> {
    if path.len() == 0 {
        path
    } else {
        path.drop_last().push((path.last() + 1) as usize)
    }
}

/// Where a walk goes on when its path leads to no widget: the container
/// that it was in is to be closed, or the frame where it was in none.
pub open spec fn climb(path: Seq<usize>) -> WalkView {
    if path.len() <= 1 {
        WalkView { stage: Stage::Finish, path: Seq::empty() }
    } else {
        WalkView { stage: Stage::Leave, path: path.drop_last() }
    }
}

/// The colour that the background is cleared to: grey.
pub open spec fn clear_color() -> ImGui_Vec4 {
    grey()
}

/// One step of a walk: what becomes of the application, where the walk
/// stands afterwards, and what the caller is to do.
///
/// `seen` counts in the stage `Drawn` only: it is what the native call left
/// behind that drew the widget at the path.
pub open spec fn step(gui: GuiView, walk: WalkView, seen: SeenView) -> (
    GuiView,
    WalkView,
    ActionView,
) {
    match walk.stage {
        Stage::Start => (
            gui,
            WalkView { stage: Stage::Demo, path: Seq::empty() },
            ActionView::Draw(DrawView::StartFrame),
        ),
        Stage::Demo => (
            gui,
            WalkView { stage: Stage::Enter, path: seq![0usize] },
            if gui.show_demo_window {
                ActionView::Draw(DrawView::ShowDemoWindow)
            } else {
                ActionView::Idle
            },
        ),
        Stage::Enter => match gui_node(gui, walk.path) {
            Some(node) => (
                gui,
                WalkView { stage: Stage::Drawn, path: walk.path },
                ActionView::Draw(Widget::call(node)),
            ),
            None => (gui, climb(walk.path), ActionView::Idle),
        },
        Stage::Drawn => match gui_node(gui, walk.path) {
            Some(node) => (
                gui_with_node(gui, walk.path, settled(node, seen)),
                WalkView {
                    stage: Stage::Enter,
                    path: if opens(node, seen) {
                        walk.path.push(0)
                    } else {
                        sibling(walk.path)
                    },
                },
                if fires_on(node, seen) {
                    ActionView::Fire(walk.path)
                } else {
                    ActionView::Idle
                },
            ),
            None => (gui, climb(walk.path), ActionView::Idle),
        },
        Stage::Leave => match gui_node(gui, walk.path) {
            Some(node) => (
                gui,
                WalkView { stage: Stage::Enter, path: sibling(walk.path) },
                match closing(node) {
                    Some(draw) => ActionView::Draw(draw),
                    None => ActionView::Idle,
                },
            ),
            None => (
                gui,
                WalkView { stage: Stage::Finish, path: Seq::empty() },
                ActionView::Idle,
            ),
        },
        Stage::Finish => (
            gui,
            WalkView { stage: Stage::Done, path: Seq::empty() },
            ActionView::Draw(DrawView::EndFrame { color: clear_color() }),
        ),
        Stage::Done => (gui, walk, ActionView::Done),
    }
}

impl Walk {
    /// A walk that stands before the frame.
    pub fn new() -> (walk: Walk)
        ensures
            walk@ == (WalkView { stage: Stage::Start, path: Seq::empty() }),
    {
        Walk { stage: Stage::Start, path: Vec::new() }
    }

    /// Where the walk stands.
    pub fn stage(&self) -> (stage: Stage)
        ensures
            stage == self@.stage,
    {
        self.stage
    }

    /// The path to the widget that the walk stands at.
    pub fn path(&self) -> (path: &Vec<usize>)
        ensures
            path@ == self@.path,
    {
        &self.path
    }

    /// Moves the path on to the next widget of the same container.
    fn step_aside(&mut self)
        requires
            old(self).path.len() > 0,
            old(self).path@.last() < usize::MAX,
        ensures
            final(self).stage == old(self).stage,
            final(self).path@ == sibling(old(self).path@),
    {
        let last = self.path.pop().unwrap();
        self.path.push(last + 1);
    }

    /// Leaves the container that the walk was in.
    fn step_out(&mut self)
        ensures
            final(self)@ == climb(old(self)@.path),
    {
        if self.path.len() <= 1 {
            self.path.clear();
            self.stage = Stage::Finish;
        } else {
            self.path.pop();
            self.stage = Stage::Leave;
        }
    }
}

impl Gui {
    /// The widget that `path` leads to.
    pub fn node<'a>(&'a self, path: &Vec<usize>) -> (found: Option<Node<'a>>)
        ensures
            match found {
                Some(node) => gui_node(self@, path@) == Some(node@),
                None => gui_node(self@, path@) is None,
            },
            found is Some ==> path.len() > 0 && path@.last() < usize::MAX,
    {
        let windows = self.windows();
        if path.len() == 0 || path[0] >= windows.len() {
            return None;
        }
        let window = &windows[path[0]];
        if path.len() == 1 {
            return Some(Node::Window(window));
        }
        assert(path@.skip(1) =~= path@.drop_first());
        match peek(window.get_items(), path, 1) {
            Some(widget) => Some(Node::Widget(widget)),
            None => None,
        }
    }

    /// Takes one step of a walk through a frame: takes in what the last
    /// native call left behind, moves the walk on, and tells what is to be
    /// done next.
    pub fn update(&mut self, walk: &mut Walk, seen: Seen) -> (action: Action)
        ensures
            (final(self)@, final(walk)@, action@) == step(old(self)@, old(walk)@, seen@),
            old(walk)@.stage != Stage::Done ==> left(final(self)@, final(walk)@) < left(
                old(self)@,
                old(walk)@,
            ),
    {
        let ghost before = (self@, walk@, seen@);
        let action = match walk.stage {
            Stage::Start => {
                walk.stage = Stage::Demo;
                walk.path.clear();
                Action::Draw(Draw::StartFrame)
            },
            Stage::Demo => {
                walk.stage = Stage::Enter;
                walk.path.clear();
                walk.path.push(0);
                assert(walk.path@ =~= seq![0usize]);
                if self.shows_demo_window() {
                    Action::Draw(Draw::ShowDemoWindow)
                } else {
                    Action::Idle
                }
            },
            Stage::Enter => {
                match self.node(&walk.path) {
                    Some(node) => {
                        walk.stage = Stage::Drawn;
                        Action::Draw(node.render())
                    },
                    None => {
                        walk.step_out();
                        Action::Idle
                    },
                }
            },
            Stage::Drawn => {
                match self.settle(&walk.path, seen) {
                    Some((fire, open)) => {
                        let action = if fire {
                            Action::Fire(walk.path.clone())
                        } else {
                            Action::Idle
                        };
                        walk.stage = Stage::Enter;
                        if open {
                            walk.path.push(0);
                        } else {
                            walk.step_aside();
                        }
                        action
                    },
                    None => {
                        walk.step_out();
                        Action::Idle
                    },
                }
            },
            Stage::Leave => {
                match self.node(&walk.path) {
                    Some(node) => {
                        let action = match node.close() {
                            Some(draw) => Action::Draw(draw),
                            None => Action::Idle,
                        };
                        walk.stage = Stage::Enter;
                        walk.step_aside();
                        action
                    },
                    None => {
                        walk.stage = Stage::Finish;
                        walk.path.clear();
                        Action::Idle
                    },
                }
            },
            Stage::Finish => {
                walk.stage = Stage::Done;
                walk.path.clear();
                Action::Draw(
                    Draw::EndFrame {
                        color: ImGui_Vec4 {
                            x: single::THREE_TENTHS,
                            y: single::THREE_TENTHS,
                            z: single::THREE_TENTHS,
                            w: single::ONE,
                        },
                    },
                )
            },
            Stage::Done => Action::Done,
        };
        proof {
            if before.1.stage != Stage::Done {
                lemma_step_nearer(before.0, before.1, before.2);
            }
        }
        action
    }

    /// Hands what a native call left behind to the widget that `path`
    /// leads to. Tells whether the widget fires and whether the widgets
    /// that it holds are drawn next; `None` where `path` leads to no
    /// widget.
    pub fn settle(&mut self, path: &Vec<usize>, seen: Seen) -> (outcome: Option<(bool, bool)>)
        ensures
            match gui_node(old(self)@, path@) {
                Some(node) => {
                    &&& outcome == Some((fires_on(node, seen@), opens(node, seen@)))
                    &&& final(self)@ == gui_with_node(old(self)@, path@, settled(node, seen@))
                    &&& path.len() > 0
                    &&& path@.last() < usize::MAX
                },
                None => outcome is None && final(self)@ == old(self)@,
            },
    {
        let ghost before = self@;
        let windows = self.windows_mut();
        if path.len() == 0 || path[0] >= windows.len() {
            return None;
        }
        if path.len() == 1 {
            return Some((false, true));
        }
        assert(path@.skip(1) =~= path@.drop_first());
        let ghost first = path@[0] as int;
        let ghost old_window = before.windows[first];
        let window = &mut windows[path[0]];
        let items = window.get_mut_items();
        let outcome = settle(items, path, 1, seen);
        proof {
            assert(window_views(windows@) =~= before.windows.update(
                first,
                WindowView { widgets: views(items@), ..old_window },
            ));
            if node_at(old_window.widgets, path@.drop_first()) is None {
                assert(before.windows.update(first, old_window) =~= before.windows);
            }
        }
        outcome
    }
}

/// A widget in its place: a window of the application, or a widget that a
/// container holds.
pub enum Node<'a> {
    Window(&'a Window),
    Widget(&'a Widget),
}

impl<'a> View for Node<'a> {
    type V = WidgetView;

    open spec fn view(&self) -> WidgetView {
        match *self {
            Node::Window(window) => WidgetView::Window(window@),
            Node::Widget(widget) => widget@,
        }
    }
}

impl<'a> Node<'a> {
    /// The native call that draws the widget.
    pub fn render(&self) -> (draw: Draw)
        ensures
            draw@ == Widget::call(self@),
    {
        match self {
            Node::Window(window) => window.render(),
            Node::Widget(widget) => widget.render(),
        }
    }

    /// The native call that closes the widget behind the widgets that it
    /// holds.
    pub fn close(&self) -> (draw: Option<Draw>)
        ensures
            match draw {
                Some(draw) => closing(self@) == Some(draw@),
                None => closing(self@) is None,
            },
    {
        match self {
            Node::Window(_) => Some(Draw::End),
            Node::Widget(widget) => widget.close(),
        }
    }
}

} // verus!
