//! What a frame does.
//!
//! The script of a frame says, without steps, what is done in it: every
//! widget is drawn once, in its order; behind its native call comes its
//! callback, where it fires on what the call left behind; behind that come
//! the widgets that it holds and the call that closes it, where it is
//! opened. This module shows that a walk (see `frame`) does what the script
//! says, action by action.

use crate::ending::{
    countable, left, lemma_frame_ends, lemma_gui_spot, lemma_step_shapes, shapes, tops, walked,
    Answers,
};
use crate::frame::{
    clear_color, gui_node, gui_with_node, node_at, sibling, step, with_node_at, ActionView, Stage,
    WalkView,
};
use crate::gui::GuiView;
use crate::native::{DrawView, ImGuiGlue, SeenView};
use crate::widget::{
    children, closing, fires_on, opens, settled, with_children, Widget, WidgetView,
};
use vstd::prelude::*;

verus! {

/// The callback of the widget at `path`, where the widget fires on `seen`.
pub open spec fn fire(node: WidgetView, path: Seq<usize>, seen: SeenView) -> Seq<ActionView> {
    if fires_on(node, seen) {
        seq![ActionView::Fire(path)]
    } else {
        Seq::empty()
    }
}

/// The native call that closes `node`, where there is one.
pub open spec fn close(node: WidgetView) -> Seq<ActionView> {
    match closing(node) {
        Some(draw) => seq![ActionView::Draw(draw)],
        None => Seq::empty(),
    }
}

/// What is done for the widgets of `items` from the `from`-th on, where
/// `prefix` is the path to the widget that holds them: for each in its
/// order, its native call and what follows it.
pub open spec fn script(
    items: Seq<WidgetView>,
    prefix: Seq<usize>,
    from: int,
    answers: Answers,
) -> Seq<ActionView>
    decreases items, items.len() - from,
{
    if 0 <= from < items.len() {
        seq![ActionView::Draw(Widget::call(items[from]))] + follow(
            items[from],
            prefix.push(from as usize),
            answers,
        ) + script(items, prefix, from + 1, answers)
    } else {
        Seq::empty()
    }
}

/// What follows the native call of the widget `node` at `path`: its
/// callback, where it fires, and then, where it is opened, what is done for
/// the widgets that it holds and the call that closes it.
pub open spec fn follow(node: WidgetView, path: Seq<usize>, answers: Answers) -> Seq<ActionView>
    decreases node, 0nat,
{
    let seen = answers(path);
    fire(node, path, seen) + if opens(node, seen) {
        (match node {
            WidgetView::TreeNode(inner) => script(inner.items, path, 0, answers),
            WidgetView::Window(inner) => script(inner.widgets, path, 0, answers),
            _ => Seq::empty(),
        }) + close(node)
    } else {
        Seq::empty()
    }
}

/// The windows of `gui`, each as a widget.
pub open spec fn windows_of(gui: GuiView) -> Seq<WidgetView> {
    Seq::new(gui.windows.len(), |i: int| WidgetView::Window(gui.windows[i]))
}

/// The native call that shows the demonstration window, where it is
/// shown.
pub open spec fn demo(gui: GuiView) -> Seq<ActionView> {
    if gui.show_demo_window {
        seq![ActionView::Draw(DrawView::ShowDemoWindow)]
    } else {
        Seq::empty()
    }
}

/// The native call that closes the frame.
pub open spec fn end() -> Seq<ActionView> {
    seq![ActionView::Draw(DrawView::EndFrame { color: clear_color() })]
}

/// What is done in a frame of `gui`, where the native calls leave behind
/// what `answers` says: the frame is opened, the demonstration window is
/// shown where it is to be, every window is drawn with what it holds, and
/// the frame is closed.
pub open spec fn frame(gui: GuiView, answers: Answers) -> Seq<ActionView> {
    seq![ActionView::Draw(DrawView::StartFrame)] + demo(gui) + script(
        windows_of(gui),
        Seq::empty(),
        0,
        answers,
    ) + end()
}

/// What is left to be done among `items` and below for a walk that stands
/// at `prefix + path` in `stage`.
pub open spec fn pending(
    items: Seq<WidgetView>,
    prefix: Seq<usize>,
    path: Seq<usize>,
    stage: Stage,
    answers: Answers,
) -> Seq<ActionView>
    decreases path.len(),
{
    if path.len() == 0 || path[0] >= items.len() {
        Seq::empty()
    } else {
        let i = path[0] as int;
        let behind = script(items, prefix, i + 1, answers);
        if path.len() == 1 {
            match stage {
                Stage::Enter => script(items, prefix, i, answers),
                Stage::Drawn => follow(items[i], prefix.push(path[0]), answers) + behind,
                _ => close(items[i]) + behind,
            }
        } else {
            pending(children(items[i]), prefix.push(path[0]), path.drop_first(), stage, answers)
                + close(items[i]) + behind
        }
    }
}

/// What is left to be done in a frame for a walk in the state `walk`.
pub open spec fn todo(gui: GuiView, walk: WalkView, answers: Answers) -> Seq<ActionView> {
    match walk.stage {
        Stage::Start => frame(gui, answers),
        Stage::Demo => demo(gui) + script(windows_of(gui), Seq::empty(), 0, answers) + end(),
        Stage::Finish => end(),
        Stage::Done => Seq::empty(),
        _ => pending(windows_of(gui), Seq::empty(), walk.path, walk.stage, answers) + end(),
    }
}

/// The walk stands in the application: its path leads through widgets
/// that are there, to a widget that is there or, before a widget is
/// entered, just behind the last one of a holder.
pub open spec fn proper(items: Seq<WidgetView>, path: Seq<usize>, stage: Stage) -> bool
    decreases path.len(),
{
    &&& path.len() >= 1
    &&& if path.len() == 1 {
        if stage == Stage::Enter {
            path[0] <= items.len()
        } else {
            path[0] < items.len()
        }
    } else {
        path[0] < items.len() && proper(children(items[path[0] as int]), path.drop_first(), stage)
    }
}

/// The walk is before or behind the windows, or stands in the application.
pub open spec fn in_place(gui: GuiView, walk: WalkView) -> bool {
    walk.stage == Stage::Enter || walk.stage == Stage::Drawn || walk.stage == Stage::Leave
        ==> proper(windows_of(gui), walk.path, walk.stage)
}

/// What a step hands out, as something that is done: nothing where the
/// caller is to do nothing.
pub open spec fn done_by(action: ActionView) -> Seq<ActionView> {
    match action {
        ActionView::Idle => Seq::empty(),
        ActionView::Done => Seq::empty(),
        _ => seq![action],
    }
}

/// A path from the windows leads where it leads in the application.
pub proof fn lemma_windows_node(gui: GuiView, path: Seq<usize>)
    ensures
        node_at(windows_of(gui), path) == gui_node(gui, path),
        shapes(windows_of(gui)) == tops(gui),
{
    assert(shapes(windows_of(gui)) =~= tops(gui));
}

/// What is done from a widget on does not depend on the widgets before
/// it.
pub proof fn lemma_script_from(
    items: Seq<WidgetView>,
    other: Seq<WidgetView>,
    prefix: Seq<usize>,
    from: int,
    answers: Answers,
)
    requires
        0 <= from,
        items.len() == other.len(),
        forall|j: int| from <= j < items.len() ==> items[j] == other[j],
    ensures
        script(items, prefix, from, answers) == script(other, prefix, from, answers),
    decreases items.len() - from,
{
    if from < items.len() {
        lemma_script_from(items, other, prefix, from + 1, answers);
    }
}

/// What follows the native call of a widget that holds widgets.
proof fn lemma_follow(node: WidgetView, path: Seq<usize>, answers: Answers)
    ensures
        follow(node, path, answers) == fire(node, path, answers(path)) + if opens(
            node,
            answers(path),
        ) {
            script(children(node), path, 0, answers) + close(node)
        } else {
            Seq::empty()
        },
{
}

/// A walk that stands at a widget stands in the application, and the
/// other way round.
proof fn lemma_proper_node(items: Seq<WidgetView>, path: Seq<usize>, stage: Stage)
    requires
        proper(items, path, stage),
    ensures
        node_at(items, path) is Some <==> path.last() < node_count(items, path),
        stage != Stage::Enter ==> node_at(items, path) is Some,
        node_at(items, path) is None ==> path.last() == node_count(items, path),
    decreases path.len(),
{
    if path.len() >= 2 {
        lemma_proper_node(children(items[path[0] as int]), path.drop_first(), stage);
    }
}

/// How many widgets the holder holds that the walk stands in.
pub open spec fn node_count(items: Seq<WidgetView>, path: Seq<usize>) -> nat
    decreases path.len(),
{
    if path.len() <= 1 || path[0] >= items.len() {
        items.len()
    } else {
        node_count(children(items[path[0] as int]), path.drop_first())
    }
}

/// A widget in its own place leaves the widgets as they are.
proof fn lemma_with_same_node(items: Seq<WidgetView>, path: Seq<usize>)
    requires
        node_at(items, path) is Some,
    ensures
        with_node_at(items, path, node_at(items, path)->0) == items,
    decreases path.len(),
{
    let i = path[0] as int;
    if path.len() == 1 {
        assert(items.update(i, items[i]) =~= items);
    } else {
        let first = items[i];
        assert(node_at(Seq::<WidgetView>::empty(), path.drop_first()) is None);
        lemma_with_same_node(children(first), path.drop_first());
        assert(with_children(first, children(first)) == first);
        assert(items.update(i, first) =~= items);
    }
}

/// Drawing the widget that the walk stands at is the next thing to be
/// done.
proof fn lemma_pending_enter(
    items: Seq<WidgetView>,
    prefix: Seq<usize>,
    path: Seq<usize>,
    answers: Answers,
)
    requires
        node_at(items, path) is Some,
    ensures
        pending(items, prefix, path, Stage::Enter, answers) == seq![
            ActionView::Draw(Widget::call(node_at(items, path)->0)),
        ] + pending(items, prefix, path, Stage::Drawn, answers),
    decreases path.len(),
{
    let i = path[0] as int;
    let behind = script(items, prefix, i + 1, answers);
    if path.len() == 1 {
        let draw = seq![ActionView::Draw(Widget::call(items[i]))];
        let then = follow(items[i], prefix.push(path[0]), answers);
        assert(path[0] as int as usize == path[0]);
        assert(draw + then + behind =~= draw + (then + behind));
    } else {
        let first = items[i];
        lemma_pending_enter(children(first), prefix.push(path[0]), path.drop_first(), answers);
        let draw = seq![ActionView::Draw(Widget::call(node_at(items, path)->0))];
        let below = pending(
            children(first),
            prefix.push(path[0]),
            path.drop_first(),
            Stage::Drawn,
            answers,
        );
        assert((draw + below) + close(first) + behind =~= draw + (below + close(first) + behind));
    }
}

/// Behind the last widget of a holder, closing the holder is the next
/// thing to be done.
proof fn lemma_pending_up(
    items: Seq<WidgetView>,
    prefix: Seq<usize>,
    path: Seq<usize>,
    answers: Answers,
)
    requires
        path.len() >= 2,
        proper(items, path, Stage::Enter),
        node_at(items, path) is None,
    ensures
        pending(items, prefix, path, Stage::Enter, answers) == pending(
            items,
            prefix,
            path.drop_last(),
            Stage::Leave,
            answers,
        ),
        proper(items, path.drop_last(), Stage::Leave),
    decreases path.len(),
{
    let i = path[0] as int;
    let first = items[i];
    let behind = script(items, prefix, i + 1, answers);
    let up = path.drop_last();
    if path.len() == 2 {
        assert(up =~= seq![path[0]]);
        assert(path.drop_first().len() == 1);
        let inner = pending(
            children(first),
            prefix.push(path[0]),
            path.drop_first(),
            Stage::Enter,
            answers,
        );
        assert(inner =~= Seq::empty());
        assert(inner + close(first) + behind =~= close(first) + behind);
    } else {
        assert(up.drop_first() =~= path.drop_first().drop_last());
        assert(up[0] == path[0]);
        lemma_pending_up(children(first), prefix.push(path[0]), path.drop_first(), answers);
    }
}

/// Behind the native call of a widget that is opened, its callback is the
/// next thing to be done, where it fires, and then the first widget that
/// it holds.
proof fn lemma_pending_down(
    items: Seq<WidgetView>,
    prefix: Seq<usize>,
    path: Seq<usize>,
    answers: Answers,
)
    requires
        proper(items, path, Stage::Drawn),
        node_at(items, path) is Some,
        opens(node_at(items, path)->0, answers(prefix + path)),
    ensures
        pending(items, prefix, path, Stage::Drawn, answers) == fire(
            node_at(items, path)->0,
            prefix + path,
            answers(prefix + path),
        ) + pending(items, prefix, path.push(0), Stage::Enter, answers),
        proper(items, path.push(0), Stage::Enter),
    decreases path.len(),
{
    let i = path[0] as int;
    let first = items[i];
    let behind = script(items, prefix, i + 1, answers);
    let down = path.push(0);
    assert(down.drop_first() =~= path.drop_first().push(0));
    assert(down[0] == path[0]);
    if path.len() == 1 {
        let at = prefix.push(path[0]);
        assert(at =~= prefix + path);
        lemma_follow(first, at, answers);
        let fired = fire(first, at, answers(at));
        let inner = script(children(first), at, 0, answers);
        assert(down.drop_first() =~= seq![0usize]);
        assert(proper(children(first), down.drop_first(), Stage::Enter));
        assert(pending(children(first), at, down.drop_first(), Stage::Enter, answers) == inner);
        assert((fired + (inner + close(first))) + behind =~= fired + (inner + close(first)
            + behind));
    } else {
        assert(prefix.push(path[0]) + path.drop_first() =~= prefix + path);
        lemma_pending_down(children(first), prefix.push(path[0]), path.drop_first(), answers);
        let node = node_at(items, path)->0;
        let fired = fire(node, prefix + path, answers(prefix + path));
        let below = pending(
            children(first),
            prefix.push(path[0]),
            down.drop_first(),
            Stage::Enter,
            answers,
        );
        assert((fired + below) + close(first) + behind =~= fired + (below + close(first)
            + behind));
    }
}

/// Behind the native call of a widget that is not opened, its callback is
/// the next thing to be done, where it fires, and then the next widget of
/// the same holder. What the call left behind in the widget changes
/// nothing of what is left to be done.
proof fn lemma_pending_aside(
    items: Seq<WidgetView>,
    prefix: Seq<usize>,
    path: Seq<usize>,
    answers: Answers,
    node: WidgetView,
)
    requires
        proper(items, path, Stage::Drawn),
        node_at(items, path) is Some,
        !opens(node_at(items, path)->0, answers(prefix + path)),
        path.last() < usize::MAX,
    ensures
        pending(items, prefix, path, Stage::Drawn, answers) == fire(
            node_at(items, path)->0,
            prefix + path,
            answers(prefix + path),
        ) + pending(
            with_node_at(items, path, node),
            prefix,
            sibling(path),
            Stage::Enter,
            answers,
        ),
        proper(with_node_at(items, path, node), sibling(path), Stage::Enter),
    decreases path.len(),
{
    let i = path[0] as int;
    let first = items[i];
    let after = with_node_at(items, path, node);
    let behind = script(items, prefix, i + 1, answers);
    let aside = sibling(path);
    lemma_script_from(items, after, prefix, i + 1, answers);
    if path.len() == 1 {
        let at = prefix.push(path[0]);
        assert(at =~= prefix + path);
        lemma_follow(first, at, answers);
        assert(aside =~= seq![(i + 1) as usize]);
        let fired = fire(first, at, answers(at));
        assert(fired + Seq::<ActionView>::empty() + behind =~= fired + behind);
        if i + 1 < after.len() {
        } else {
            assert(behind =~= Seq::empty());
        }
    } else {
        assert(aside.drop_first() =~= sibling(path.drop_first()));
        assert(aside[0] == path[0]);
        assert(prefix.push(path[0]) + path.drop_first() =~= prefix + path);
        assert(node_at(Seq::<WidgetView>::empty(), path.drop_first()) is None);
        lemma_pending_aside(
            children(first),
            prefix.push(path[0]),
            path.drop_first(),
            answers,
            node,
        );
        let inner = with_node_at(children(first), path.drop_first(), node);
        assert(children(after[i]) == inner);
        assert(close(after[i]) == close(first));
        let found = node_at(items, path)->0;
        let fired = fire(found, prefix + path, answers(prefix + path));
        let below = pending(inner, prefix.push(path[0]), aside.drop_first(), Stage::Enter, answers);
        assert((fired + below) + close(first) + behind =~= fired + (below + close(first)
            + behind));
    }
}

/// Behind the widgets that a holder holds, the call that closes it is the
/// next thing to be done, and then the next widget of the same holder.
proof fn lemma_pending_leave(
    items: Seq<WidgetView>,
    prefix: Seq<usize>,
    path: Seq<usize>,
    answers: Answers,
)
    requires
        proper(items, path, Stage::Leave),
        node_at(items, path) is Some,
        path.last() < usize::MAX,
    ensures
        pending(items, prefix, path, Stage::Leave, answers) == close(node_at(items, path)->0)
            + pending(items, prefix, sibling(path), Stage::Enter, answers),
        proper(items, sibling(path), Stage::Enter),
    decreases path.len(),
{
    let i = path[0] as int;
    let first = items[i];
    let behind = script(items, prefix, i + 1, answers);
    let aside = sibling(path);
    if path.len() == 1 {
        assert(aside =~= seq![(i + 1) as usize]);
        if i + 1 < items.len() {
        } else {
            assert(behind =~= Seq::empty());
        }
    } else {
        assert(aside.drop_first() =~= sibling(path.drop_first()));
        assert(aside[0] == path[0]);
        lemma_pending_leave(children(first), prefix.push(path[0]), path.drop_first(), answers);
        let closed = close(node_at(items, path)->0);
        let below = pending(
            children(first),
            prefix.push(path[0]),
            aside.drop_first(),
            Stage::Enter,
            answers,
        );
        assert((closed + below) + close(first) + behind =~= closed + (below + close(first)
            + behind));
    }
}

/// A widget that is opened is left as it is by its native call.
proof fn lemma_opened_settled(node: WidgetView, seen: SeenView)
    requires
        opens(node, seen),
    ensures
        settled(node, seen) == node,
{
}

/// Every step of a walk that stands in the application does the next
/// thing that is left to be done, and leaves the walk standing in the
/// application.
pub proof fn lemma_step_does(gui: GuiView, walk: WalkView, answers: Answers)
    requires
        in_place(gui, walk),
        countable(tops(gui)),
    ensures
        todo(gui, walk, answers) == done_by(step(gui, walk, answers(walk.path)).2) + todo(
            step(gui, walk, answers(walk.path)).0,
            step(gui, walk, answers(walk.path)).1,
            answers,
        ),
        in_place(step(gui, walk, answers(walk.path)).0, step(gui, walk, answers(walk.path)).1),
{
    let items = windows_of(gui);
    let path = walk.path;
    let none = Seq::<usize>::empty();
    let seen = answers(path);
    let next = step(gui, walk, seen);
    let last = end();
    lemma_windows_node(gui, path);
    lemma_windows_node(next.0, next.1.path);
    lemma_gui_spot(gui, path);
    assert(none + path =~= path);
    match walk.stage {
        Stage::Start => {
            let start = seq![ActionView::Draw(DrawView::StartFrame)];
            let all = script(items, none, 0, answers);
            assert(start + demo(gui) + all + last =~= start + (demo(gui) + all + last));
        },
        Stage::Demo => {
            let all = script(items, none, 0, answers);
            let first = seq![0usize];
            assert(pending(items, none, first, Stage::Enter, answers) == all) by {
                if 0 < items.len() {
                } else {
                    assert(all =~= Seq::empty());
                }
            }
            assert(demo(gui) + all + last =~= demo(gui) + (all + last));
        },
        Stage::Enter => {
            lemma_proper_node(items, path, Stage::Enter);
            match gui_node(gui, path) {
                Some(node) => {
                    lemma_pending_enter(items, none, path, answers);
                    let draw = seq![ActionView::Draw(Widget::call(node))];
                    let then = pending(items, none, path, Stage::Drawn, answers);
                    assert((draw + then) + last =~= draw + (then + last));
                    assert(proper(items, path, Stage::Drawn)) by {
                        lemma_proper_stage(items, path);
                    }
                },
                None => {
                    if path.len() >= 2 {
                        lemma_pending_up(items, none, path, answers);
                    } else {
                        assert(pending(items, none, path, Stage::Enter, answers) =~= Seq::empty());
                        assert(Seq::<ActionView>::empty() + last =~= last);
                    }
                },
            }
        },
        Stage::Drawn => {
            lemma_proper_node(items, path, Stage::Drawn);
            let node = gui_node(gui, path)->0;
            let fired = fire(node, path, seen);
            if opens(node, seen) {
                lemma_opened_settled(node, seen);
                lemma_pending_down(items, none, path, answers);
                assert(next.0 == gui) by {
                    if path.len() >= 2 {
                        lemma_with_same_node(
                            gui.windows[path[0] as int].widgets,
                            path.drop_first(),
                        );
                        assert(gui.windows.update(path[0] as int, gui.windows[path[0] as int])
                            =~= gui.windows);
                    }
                }
                let then = pending(items, none, path.push(0), Stage::Enter, answers);
                assert((fired + then) + last =~= fired + (then + last));
            } else {
                lemma_pending_aside(items, none, path, answers, settled(node, seen));
                let after = with_node_at(items, path, settled(node, seen));
                assert(windows_of(next.0) =~= after) by {
                    lemma_settled_window(gui, path, node, seen);
                }
                let then = pending(after, none, sibling(path), Stage::Enter, answers);
                assert((fired + then) + last =~= fired + (then + last));
            }
        },
        Stage::Leave => {
            lemma_proper_node(items, path, Stage::Leave);
            let node = gui_node(gui, path)->0;
            lemma_pending_leave(items, none, path, answers);
            let closed = close(node);
            let then = pending(items, none, sibling(path), Stage::Enter, answers);
            assert((closed + then) + last =~= closed + (then + last));
        },
        Stage::Finish => {
            assert(last + Seq::<ActionView>::empty() =~= last);
        },
        Stage::Done => {
            assert(Seq::<ActionView>::empty() + Seq::<ActionView>::empty() =~= Seq::<
                ActionView,
            >::empty());
        },
    }
}

/// A walk that stands at a widget to enter it stands at it in every
/// stage.
proof fn lemma_proper_stage(items: Seq<WidgetView>, path: Seq<usize>)
    requires
        proper(items, path, Stage::Enter),
        node_at(items, path) is Some,
    ensures
        proper(items, path, Stage::Drawn),
        proper(items, path, Stage::Leave),
    decreases path.len(),
{
    if path.len() >= 2 {
        lemma_proper_stage(children(items[path[0] as int]), path.drop_first());
    }
}

/// The windows of an application in which a widget took in what its
/// native call left behind.
proof fn lemma_settled_window(gui: GuiView, path: Seq<usize>, node: WidgetView, seen: SeenView)
    requires
        gui_node(gui, path) == Some(node),
    ensures
        windows_of(gui_with_node(gui, path, settled(node, seen))) == with_node_at(
            windows_of(gui),
            path,
            settled(node, seen),
        ),
{
    let items = windows_of(gui);
    let after = gui_with_node(gui, path, settled(node, seen));
    let i = path[0] as int;
    if path.len() == 1 {
        assert(settled(node, seen) == node);
        assert(items.update(i, node) =~= items);
        assert(windows_of(after) =~= items);
    } else {
        assert(windows_of(after) =~= with_node_at(items, path, settled(node, seen)));
    }
}

/// What is done in the first `n` steps of a walk that are answered by
/// `answers`.
pub open spec fn done_in(gui: GuiView, walk: WalkView, answers: Answers, n: nat) -> Seq<
    ActionView,
>
    decreases n,
{
    if n == 0 {
        Seq::empty()
    } else {
        let (before, at) = walked(gui, walk, answers, (n - 1) as nat);
        done_in(gui, walk, answers, (n - 1) as nat) + done_by(
            step(before, at, answers(at.path)).2,
        )
    }
}

/// What a walk has done and what is left to be done are together what was
/// to be done.
pub proof fn lemma_walk_does(gui: GuiView, walk: WalkView, answers: Answers, n: nat)
    requires
        in_place(gui, walk),
        countable(tops(gui)),
    ensures
        todo(gui, walk, answers) == done_in(gui, walk, answers, n) + todo(
            walked(gui, walk, answers, n).0,
            walked(gui, walk, answers, n).1,
            answers,
        ),
        in_place(walked(gui, walk, answers, n).0, walked(gui, walk, answers, n).1),
        tops(walked(gui, walk, answers, n).0) == tops(gui),
    decreases n,
{
    if n == 0 {
        assert(Seq::<ActionView>::empty() + todo(gui, walk, answers) =~= todo(gui, walk, answers));
    } else {
        lemma_walk_does(gui, walk, answers, (n - 1) as nat);
        let (before, at) = walked(gui, walk, answers, (n - 1) as nat);
        lemma_step_does(before, at, answers);
        lemma_step_shapes(before, at, answers(at.path));
        let sofar = done_in(gui, walk, answers, (n - 1) as nat);
        let now = done_by(step(before, at, answers(at.path)).2);
        let (after, then) = walked(gui, walk, answers, n);
        assert((sofar + now) + todo(after, then, answers) =~= sofar + (now + todo(
            after,
            then,
            answers,
        )));
    }
}

/// A walk through a frame does what the script of the frame says: every
/// widget is drawn once, in its order, with what follows its native call,
/// and then the walk is done.
pub proof fn lemma_walk_does_frame(gui: GuiView, answers: Answers, n: nat)
    requires
        countable(tops(gui)),
        n >= left(gui, WalkView { stage: Stage::Start, path: Seq::empty() }),
    ensures
        done_in(gui, WalkView { stage: Stage::Start, path: Seq::empty() }, answers, n) == frame(
            gui,
            answers,
        ),
        walked(gui, WalkView { stage: Stage::Start, path: Seq::empty() }, answers, n).1.stage
            == Stage::Done,
{
    let start = WalkView { stage: Stage::Start, path: Seq::empty() };
    lemma_walk_does(gui, start, answers, n);
    lemma_frame_ends(gui, start, answers, n);
    let sofar = done_in(gui, start, answers, n);
    assert(sofar + Seq::<ActionView>::empty() =~= sofar);
}

} // verus!
