//! Every frame ends.
//!
//! A walk through a frame goes by steps (see `frame`). This module gives
//! each state of a walk a number that the shape of the application bounds,
//! and shows that every step makes it smaller. A step changes what widgets
//! hold, never which widgets there are, so the walk of a frame is over after
//! as many steps as that number at most.

use crate::frame::{
    gui_node, gui_with_node, node_at, sibling, step, with_node_at, Stage, WalkView,
};
use crate::gui::GuiView;
use crate::native::SeenView;
use crate::widget::{children, opens, settled, with_children, WidgetView};
use vstd::prelude::*;

verus! {

/// What a widget looks like to a walk: whether it holds widgets, and what
/// those look like.
pub enum Shape {
    Leaf,
    Holder(Seq<Shape>),
}

/// The shapes that a shape holds.
pub open spec fn kids(shape: Shape) -> Seq<Shape> {
    match shape {
        Shape::Leaf => Seq::empty(),
        Shape::Holder(inner) => inner,
    }
}

/// The shape of `widget`.
pub open spec fn shape(widget: WidgetView) -> Shape
    decreases widget,
{
    match widget {
        WidgetView::TreeNode(node) => Shape::Holder(shapes(node.items)),
        WidgetView::Window(window) => Shape::Holder(shapes(window.widgets)),
        _ => Shape::Leaf,
    }
}

/// The shape of each widget of `items`.
pub open spec fn shapes(items: Seq<WidgetView>) -> Seq<Shape>
    decreases items,
{
    Seq::new(
        items.len(),
        |i: int|
            if 0 <= i < items.len() {
                shape(items[i])
            } else {
                arbitrary()
            },
    )
}

/// The shape of each window of `gui`.
pub open spec fn tops(gui: GuiView) -> Seq<Shape> {
    Seq::new(gui.windows.len(), |i: int| Shape::Holder(shapes(gui.windows[i].widgets)))
}

/// The shape that `path` leads to from `shapes`.
pub open spec fn spot(shapes: Seq<Shape>, path: Seq<usize>) -> Option<Shape>
    decreases path.len(),
{
    if path.len() == 0 || path[0] >= shapes.len() {
        None
    } else if path.len() == 1 {
        Some(shapes[path[0] as int])
    } else {
        spot(kids(shapes[path[0] as int]), path.drop_first())
    }
}

/// The most steps that a walk spends on a widget of this shape: two to draw
/// it and take in what was left behind and, for one that holds widgets, the
/// steps for those and two to leave it.
pub open spec fn cost(shape: Shape) -> nat
    decreases shape, 0nat,
{
    match shape {
        Shape::Leaf => 2,
        Shape::Holder(inner) => 4 + rest(inner, 0),
    }
}

/// The cost of the shapes from the `i`-th on.
pub open spec fn rest(shapes: Seq<Shape>, i: int) -> nat
    decreases shapes, shapes.len() - i,
{
    if 0 <= i < shapes.len() {
        cost(shapes[i]) + rest(shapes, i + 1)
    } else {
        0
    }
}

/// The most steps until a walk that stands at `path` in `stage` has left
/// `shapes`.
pub open spec fn weight(shapes: Seq<Shape>, path: Seq<usize>, stage: Stage) -> nat
    decreases path.len(),
{
    if path.len() == 0 {
        1
    } else {
        let i = path[0] as int;
        if path.len() == 1 {
            match stage {
                Stage::Enter => rest(shapes, i) + 1,
                Stage::Drawn => if i < shapes.len() {
                    rest(shapes, i)
                } else {
                    1
                },
                _ => if i < shapes.len() {
                    rest(shapes, i + 1) + 2
                } else {
                    1
                },
            }
        } else if i < shapes.len() {
            weight(kids(shapes[i]), path.drop_first(), stage) + rest(shapes, i + 1) + 2
        } else if stage == Stage::Leave {
            1
        } else {
            2
        }
    }
}

/// The most steps that a walk in the state `walk` has before it.
pub open spec fn left(gui: GuiView, walk: WalkView) -> nat {
    match walk.stage {
        Stage::Done => 0,
        Stage::Finish => 1,
        Stage::Start => rest(tops(gui), 0) + 5,
        Stage::Demo => rest(tops(gui), 0) + 4,
        _ => weight(tops(gui), walk.path, walk.stage) + 1,
    }
}

/// A path leads to a shape where it leads to a widget, and to the shape of
/// that widget.
pub proof fn lemma_spot(items: Seq<WidgetView>, path: Seq<usize>)
    ensures
        spot(shapes(items), path) == match node_at(items, path) {
            Some(node) => Some(shape(node)),
            None => None,
        },
    decreases path.len(),
{
    if path.len() >= 2 && path[0] < items.len() {
        let first = items[path[0] as int];
        assert(kids(shape(first)) =~= shapes(children(first)));
        lemma_spot(children(first), path.drop_first());
    }
}

/// The same for a path from the windows of an application.
pub proof fn lemma_gui_spot(gui: GuiView, path: Seq<usize>)
    ensures
        spot(tops(gui), path) == match gui_node(gui, path) {
            Some(node) => Some(shape(node)),
            None => None,
        },
{
    if path.len() >= 2 && path[0] < gui.windows.len() {
        lemma_spot(gui.windows[path[0] as int].widgets, path.drop_first());
    }
}

/// What a native call leaves behind does not change the shape of a widget.
pub proof fn lemma_settled_shape(widget: WidgetView, seen: SeenView)
    ensures
        shape(settled(widget, seen)) == shape(widget),
{
}

/// A widget in place of one of its shape leaves all shapes as they were.
pub proof fn lemma_with_node_shapes(items: Seq<WidgetView>, path: Seq<usize>, node: WidgetView)
    requires
        node_at(items, path) is Some,
        shape(node) == shape(node_at(items, path)->0),
    ensures
        shapes(with_node_at(items, path, node)) == shapes(items),
    decreases path.len(),
{
    let i = path[0] as int;
    if path.len() == 1 {
        assert(shapes(with_node_at(items, path, node)) =~= shapes(items));
    } else {
        let first = items[i];
        let inner = with_node_at(children(first), path.drop_first(), node);
        lemma_with_node_shapes(children(first), path.drop_first(), node);
        assert(node_at(Seq::<WidgetView>::empty(), path.drop_first()) is None);
        assert(shape(with_children(first, inner)) == shape(first));
        assert(shapes(with_node_at(items, path, node)) =~= shapes(items));
    }
}

/// A step leaves the shapes of an application as they were.
pub proof fn lemma_step_shapes(gui: GuiView, walk: WalkView, seen: SeenView)
    ensures
        tops(step(gui, walk, seen).0) == tops(gui),
{
    if walk.stage == Stage::Drawn {
        match gui_node(gui, walk.path) {
            Some(node) => {
                let path = walk.path;
                let after = gui_with_node(gui, path, settled(node, seen));
                lemma_settled_shape(node, seen);
                if path.len() >= 2 && path[0] < gui.windows.len() {
                    lemma_with_node_shapes(
                        gui.windows[path[0] as int].widgets,
                        path.drop_first(),
                        settled(node, seen),
                    );
                }
                assert(tops(after) =~= tops(gui));
            },
            None => {},
        }
    }
}

/// A holder costs more than the walk through what it holds.
proof fn lemma_weight_positive(shapes: Seq<Shape>, path: Seq<usize>, stage: Stage)
    requires
        stage == Stage::Enter || stage == Stage::Drawn || stage == Stage::Leave,
    ensures
        weight(shapes, path, stage) >= 1,
    decreases path.len(),
{
    if path.len() == 1 {
        let i = path[0] as int;
        if i < shapes.len() {
            assert(rest(shapes, i) == cost(shapes[i]) + rest(shapes, i + 1));
        }
    }
}

/// Drawing the widget that the walk stands at brings the walk nearer to
/// its end.
proof fn lemma_weight_drawn(shapes: Seq<Shape>, path: Seq<usize>)
    requires
        spot(shapes, path) is Some,
    ensures
        weight(shapes, path, Stage::Drawn) < weight(shapes, path, Stage::Enter),
    decreases path.len(),
{
    if path.len() >= 2 {
        lemma_weight_drawn(kids(shapes[path[0] as int]), path.drop_first());
    }
}

/// Going on to the first widget that a holder holds brings the walk nearer
/// to its end.
proof fn lemma_weight_down(shapes: Seq<Shape>, path: Seq<usize>)
    requires
        spot(shapes, path) is Some,
        spot(shapes, path)->0 is Holder,
    ensures
        weight(shapes, path.push(0), Stage::Enter) < weight(shapes, path, Stage::Drawn),
    decreases path.len(),
{
    let i = path[0] as int;
    let down = path.push(0);
    assert(down.drop_first() =~= path.drop_first().push(0));
    if path.len() >= 2 {
        lemma_weight_down(kids(shapes[i]), path.drop_first());
    } else {
        assert(rest(shapes, i) == cost(shapes[i]) + rest(shapes, i + 1));
        assert(down.drop_first() =~= seq![0usize]);
    }
}

/// Going on to the next widget of the same holder brings the walk nearer
/// to its end.
proof fn lemma_weight_aside(shapes: Seq<Shape>, path: Seq<usize>, stage: Stage)
    requires
        spot(shapes, path) is Some,
        path.last() < usize::MAX,
        stage == Stage::Drawn || stage == Stage::Leave,
    ensures
        weight(shapes, sibling(path), Stage::Enter) < weight(shapes, path, stage),
    decreases path.len(),
{
    let i = path[0] as int;
    let aside = sibling(path);
    if path.len() >= 2 {
        assert(aside.drop_first() =~= sibling(path.drop_first()));
        assert(aside[0] == path[0]);
        lemma_weight_aside(kids(shapes[i]), path.drop_first(), stage);
    } else {
        assert(aside =~= seq![(i + 1) as usize]);
        assert(rest(shapes, i) == cost(shapes[i]) + rest(shapes, i + 1));
    }
}

/// Leaving a holder behind the last widget that it holds brings the walk
/// nearer to its end.
proof fn lemma_weight_up(shapes: Seq<Shape>, path: Seq<usize>, stage: Stage)
    requires
        path.len() >= 2,
        spot(shapes, path) is None,
        stage == Stage::Enter || stage == Stage::Drawn,
    ensures
        weight(shapes, path.drop_last(), Stage::Leave) < weight(shapes, path, stage),
    decreases path.len(),
{
    let i = path[0] as int;
    let up = path.drop_last();
    if i < shapes.len() {
        if path.len() == 2 {
            lemma_weight_positive(kids(shapes[i]), path.drop_first(), stage);
        } else {
            assert(up.drop_first() =~= path.drop_first().drop_last());
            lemma_weight_up(kids(shapes[i]), path.drop_first(), stage);
        }
    }
}

/// Every step of a walk that is not done brings it nearer to its end: the
/// number of steps that it has before it at most gets smaller.
///
/// Where the walk goes on to the next widget of the same holder, the index
/// of the widget that it stands at is to be less than the greatest index
/// that there is, as it is for every widget that a vector holds.
pub proof fn lemma_step_nearer(gui: GuiView, walk: WalkView, seen: SeenView)
    requires
        walk.stage != Stage::Done,
        (walk.stage == Stage::Drawn || walk.stage == Stage::Leave) && gui_node(gui, walk.path)
            is Some ==> walk.path.last() < usize::MAX,
    ensures
        left(step(gui, walk, seen).0, step(gui, walk, seen).1) < left(gui, walk),
{
    let path = walk.path;
    let shapes = tops(gui);
    lemma_step_shapes(gui, walk, seen);
    lemma_gui_spot(gui, path);
    match walk.stage {
        Stage::Start => {},
        Stage::Demo => {},
        Stage::Enter => {
            match gui_node(gui, path) {
                Some(node) => {
                    lemma_weight_drawn(shapes, path);
                },
                None => {
                    lemma_weight_positive(shapes, path, Stage::Enter);
                    if path.len() >= 2 {
                        lemma_weight_up(shapes, path, Stage::Enter);
                    }
                },
            }
        },
        Stage::Drawn => {
            match gui_node(gui, path) {
                Some(node) => {
                    if opens(node, seen) {
                        lemma_weight_down(shapes, path);
                    } else {
                        lemma_weight_aside(shapes, path, Stage::Drawn);
                    }
                },
                None => {
                    lemma_weight_positive(shapes, path, Stage::Drawn);
                    if path.len() >= 2 {
                        lemma_weight_up(shapes, path, Stage::Drawn);
                    }
                },
            }
        },
        Stage::Leave => {
            match gui_node(gui, path) {
                Some(node) => {
                    lemma_weight_aside(shapes, path, Stage::Leave);
                },
                None => {
                    lemma_weight_positive(shapes, path, Stage::Leave);
                },
            }
        },
        Stage::Finish => {},
        Stage::Done => {},
    }
}

/// No holder holds more widgets than can be counted: every index that
/// leads to a shape is less than the greatest index that there is. This
/// holds of every application that is held in vectors.
pub open spec fn countable(shapes: Seq<Shape>) -> bool {
    forall|path: Seq<usize>| #[trigger] spot(shapes, path) is Some ==> path.last() < usize::MAX
}

/// What native calls leave behind in a frame: for the widget that a path
/// leads to, what the call that draws it leaves behind.
pub type Answers = spec_fn(Seq<usize>) -> SeenView;

/// The application and the walk after `n` steps that are answered by
/// `answers`.
pub open spec fn walked(gui: GuiView, walk: WalkView, answers: Answers, n: nat) -> (
    GuiView,
    WalkView,
)
    decreases n,
{
    if n == 0 {
        (gui, walk)
    } else {
        let (gui, walk) = walked(gui, walk, answers, (n - 1) as nat);
        let next = step(gui, walk, answers(walk.path));
        (next.0, next.1)
    }
}

/// Steps leave the shapes of an application as they were, and bring a walk
/// that is not done nearer to its end, each by one at least.
pub proof fn lemma_walked(gui: GuiView, walk: WalkView, answers: Answers, n: nat)
    requires
        countable(tops(gui)),
    ensures
        tops(walked(gui, walk, answers, n).0) == tops(gui),
        walked(gui, walk, answers, n).1.stage == Stage::Done || left(
            walked(gui, walk, answers, n).0,
            walked(gui, walk, answers, n).1,
        ) + n <= left(gui, walk),
    decreases n,
{
    if n > 0 {
        lemma_walked(gui, walk, answers, (n - 1) as nat);
        let (before, at) = walked(gui, walk, answers, (n - 1) as nat);
        let seen = answers(at.path);
        lemma_step_shapes(before, at, seen);
        lemma_gui_spot(before, at.path);
        if at.stage != Stage::Done {
            lemma_step_nearer(before, at, seen);
        }
    }
}

/// Every frame ends: a walk is done after as many steps as it has before
/// it at most, whatever the native calls leave behind, and stays done.
pub proof fn lemma_frame_ends(gui: GuiView, walk: WalkView, answers: Answers, n: nat)
    requires
        countable(tops(gui)),
        n >= left(gui, walk),
    ensures
        walked(gui, walk, answers, n).1.stage == Stage::Done,
{
    lemma_walked(gui, walk, answers, n);
    let (after, at) = walked(gui, walk, answers, n);
    if at.stage != Stage::Done {
        assert(left(after, at) >= 1) by {
            if at.stage == Stage::Enter || at.stage == Stage::Drawn || at.stage == Stage::Leave {
                lemma_weight_positive(tops(after), at.path, at.stage);
            }
        }
    }
}

} // verus!
