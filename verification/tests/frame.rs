use rust_gui::frame::{peek, settle};
use rust_gui::{
    Action, Button, Checkbox, Container2, Draw, Get, Gui, ImGui_Vec4, InputText, Seen, SliderInt,
    Stage, Text, TreeNode, Walk, Widget, Window,
};

/// Walks one frame. Each native call is answered by `answer`; what is done
/// is written down, a native call by its name and its text.
fn run(gui: &mut Gui, answer: &dyn Fn(&Draw) -> Seen) -> Vec<String> {
    let mut log = Vec::new();
    let mut walk = Walk::new();
    let mut seen = Seen::Nothing;
    for _ in 0..10_000 {
        match gui.update(&mut walk, seen) {
            Action::Draw(draw) => {
                seen = answer(&draw);
                log.push(name(&draw));
            }
            Action::Fire(path) => {
                seen = Seen::Nothing;
                log.push(format!("fire {:?}", path));
            }
            Action::Idle => seen = Seen::Nothing,
            Action::Done => return log,
        }
    }
    panic!("the walk does not end");
}

fn name(draw: &Draw) -> String {
    let plain = |text: &String| text.trim_end_matches('\0').to_string();
    match draw {
        Draw::StartFrame => String::from("start"),
        Draw::ShowDemoWindow => String::from("demo"),
        Draw::EndFrame { .. } => String::from("end frame"),
        Draw::Begin { name, .. } => format!("begin {}", plain(name)),
        Draw::End => String::from("end"),
        Draw::Button { text, .. } => format!("button {}", plain(text)),
        Draw::Text { text } => format!("text {}", plain(text)),
        Draw::Checkbox { label, .. } => format!("checkbox {}", plain(label)),
        Draw::InputText { label, .. } => format!("input {}", plain(label)),
        Draw::ColorEdit3 { label, .. } => format!("color {}", plain(label)),
        Draw::SameLine { .. } => String::from("same line"),
        Draw::SliderInt { label, .. } => format!("slider {}", plain(label)),
        Draw::SliderFloat { label, .. } => format!("float slider {}", plain(label)),
        Draw::TreeNodeEx { label, .. } => format!("node {}", plain(label)),
        Draw::TreePop => String::from("pop"),
    }
}

/// Leaves every widget as it is and every tree node folded.
fn still(draw: &Draw) -> Seen {
    match draw {
        Draw::Button { value, .. } => Seen::Flag(*value),
        Draw::Checkbox { value, .. } => Seen::Flag(*value),
        Draw::SliderInt { value, .. } => Seen::Int(*value),
        Draw::SliderFloat { value, .. } => Seen::Single(*value),
        Draw::InputText { value, .. } => Seen::Text(value.clone()),
        Draw::ColorEdit3 { value, .. } => Seen::Color(*value),
        Draw::TreeNodeEx { .. } => Seen::Flag(false),
        _ => Seen::Nothing,
    }
}

/// Leaves every widget as it is and every tree node unfolded.
fn unfolded(draw: &Draw) -> Seen {
    match draw {
        Draw::TreeNodeEx { .. } => Seen::Flag(true),
        other => still(other),
    }
}

fn example() -> Gui {
    Gui::new("example")
        .window(
            Window::new("window label")
                .add(Button::new("button label"))
                .add(
                    TreeNode::new("node")
                        .add(Button::new("button"))
                        .add(TreeNode::new("inner").add(Text::new("deep")))
                        .add(Checkbox::new("tick")),
                )
                .same_line(SliderInt::new("slider")),
        )
        .window(Window::new("win 2").add(Text::new("just some text")))
}

#[test]
fn an_empty_gui_opens_and_closes_the_frame() {
    let mut gui = Gui::new("empty");
    assert_eq!(run(&mut gui, &still), vec!["start", "end frame"]);
    gui.show_demo_window = true;
    assert_eq!(run(&mut gui, &still), vec!["start", "demo", "end frame"]);
}

#[test]
fn the_frame_is_cleared_to_grey() {
    let mut gui = Gui::new("empty");
    let mut walk = Walk::new();
    let mut last = None;
    loop {
        match gui.update(&mut walk, Seen::Nothing) {
            Action::Draw(draw) => last = Some(draw),
            Action::Done => break,
            _ => {}
        }
    }
    match last {
        Some(Draw::EndFrame { color }) => {
            let ImGui_Vec4 { x, y, z, w } = color;
            assert_eq!(
                [x, y, z, w].map(f32::from_bits),
                [0.3, 0.3, 0.3, 1.0]
            );
        }
        other => panic!("{:?}", other),
    }
}

#[test]
fn an_empty_window_is_opened_and_closed() {
    let mut gui = Gui::new("g").window(Window::new("a")).window(Window::new("b"));
    assert_eq!(
        run(&mut gui, &still),
        vec!["start", "begin a", "end", "begin b", "end", "end frame"]
    );
}

#[test]
fn a_folded_node_hides_its_widgets() {
    let mut gui = example();
    assert_eq!(
        run(&mut gui, &still),
        vec![
            "start",
            "begin window label",
            "button button label",
            "node node",
            "same line",
            "slider slider",
            "end",
            "begin win 2",
            "text just some text",
            "end",
            "end frame",
        ]
    );
}

#[test]
fn an_unfolded_node_shows_its_widgets_and_is_closed() {
    let mut gui = example();
    assert_eq!(
        run(&mut gui, &unfolded),
        vec![
            "start",
            "begin window label",
            "button button label",
            "node node",
            "button button",
            "node inner",
            "text deep",
            "pop",
            "checkbox tick",
            "pop",
            "same line",
            "slider slider",
            "end",
            "begin win 2",
            "text just some text",
            "end",
            "end frame",
        ]
    );
}

#[test]
fn an_unfolded_node_without_widgets_is_closed() {
    let mut gui = Gui::new("g").window(Window::new("w").add(TreeNode::new("bare")));
    assert_eq!(
        run(&mut gui, &unfolded),
        vec!["start", "begin w", "node bare", "pop", "end", "end frame"]
    );
    assert_eq!(run(&mut gui, &still), vec!["start", "begin w", "node bare", "end", "end frame"]);
}

#[test]
fn a_window_in_a_window_is_opened_and_closed() {
    let mut gui = Gui::new("g").window(
        Window::new("outer").add(Window::new("inner").add(Text::new("t"))).add(Text::new("u")),
    );
    assert_eq!(
        run(&mut gui, &still),
        vec!["start", "begin outer", "begin inner", "text t", "end", "text u", "end", "end frame"]
    );
}

#[test]
fn a_widget_fires_before_the_next_one_is_drawn() {
    let mut gui = example();
    let press = |draw: &Draw| match draw {
        Draw::Button { .. } => Seen::Flag(true),
        Draw::Checkbox { .. } => Seen::Flag(true),
        Draw::SliderInt { .. } => Seen::Int(42),
        other => unfolded(other),
    };
    assert_eq!(
        run(&mut gui, &press),
        vec![
            "start",
            "begin window label",
            "button button label",
            "fire [0, 0]",
            "node node",
            "button button",
            "fire [0, 1, 0]",
            "node inner",
            "text deep",
            "pop",
            "checkbox tick",
            "fire [0, 1, 2]",
            "pop",
            "same line",
            "slider slider",
            "fire [0, 3]",
            "end",
            "begin win 2",
            "text just some text",
            "end",
            "end frame",
        ]
    );
    assert!(gui.get::<Button, bool>(0, 0));
    assert_eq!(gui.get::<SliderInt, i32>(0, 0), 42);
    let node = gui.get_widget::<TreeNode>(0, 0);
    assert!(node.get_val::<Button, bool>(0));
    assert!(node.get_val::<Checkbox, bool>(0));
    let again = run(&mut gui, &press);
    assert!(again.iter().all(|line| !line.starts_with("fire")));
    let released = |draw: &Draw| match draw {
        Draw::Button { .. } => Seen::Flag(false),
        other => unfolded(other),
    };
    let last = run(&mut gui, &released);
    let fired: Vec<&String> = last.iter().filter(|line| line.starts_with("fire")).collect();
    assert_eq!(fired, vec!["fire [0, 0]", "fire [0, 1, 0]"]);
}

#[test]
fn a_text_field_takes_in_what_was_typed() {
    let mut gui = Gui::new("g").window(Window::new("w").add(InputText::new("in")));
    let typed = |draw: &Draw| match draw {
        Draw::InputText { .. } => {
            let mut buffer = String::from("typed");
            while buffer.len() < 255 {
                buffer.push('\0');
            }
            Seen::Text(buffer)
        }
        other => still(other),
    };
    run(&mut gui, &typed);
    assert_eq!(gui.get::<InputText, String>(0, 0), "typed");
}

#[test]
fn a_walk_goes_through_its_stages() {
    let mut gui = Gui::new("g").window(Window::new("w").add(Button::new("b")));
    let mut walk = Walk::new();
    assert_eq!(walk.stage(), Stage::Start);
    assert!(walk.path().is_empty());
    assert!(matches!(gui.update(&mut walk, Seen::Nothing), Action::Draw(Draw::StartFrame)));
    assert_eq!(walk.stage(), Stage::Demo);
    assert!(matches!(gui.update(&mut walk, Seen::Nothing), Action::Idle));
    assert_eq!((walk.stage(), walk.path().clone()), (Stage::Enter, vec![0]));
    assert!(matches!(gui.update(&mut walk, Seen::Nothing), Action::Draw(Draw::Begin { .. })));
    assert_eq!((walk.stage(), walk.path().clone()), (Stage::Drawn, vec![0]));
    assert!(matches!(gui.update(&mut walk, Seen::Nothing), Action::Idle));
    assert_eq!((walk.stage(), walk.path().clone()), (Stage::Enter, vec![0, 0]));
    assert!(matches!(gui.update(&mut walk, Seen::Nothing), Action::Draw(Draw::Button { .. })));
    assert_eq!((walk.stage(), walk.path().clone()), (Stage::Drawn, vec![0, 0]));
    match gui.update(&mut walk, Seen::Flag(true)) {
        Action::Fire(path) => assert_eq!(path, vec![0, 0]),
        other => panic!("{:?}", other),
    }
    assert_eq!((walk.stage(), walk.path().clone()), (Stage::Enter, vec![0, 1]));
    assert!(matches!(gui.update(&mut walk, Seen::Nothing), Action::Idle));
    assert_eq!((walk.stage(), walk.path().clone()), (Stage::Leave, vec![0]));
    assert!(matches!(gui.update(&mut walk, Seen::Nothing), Action::Draw(Draw::End)));
    assert_eq!((walk.stage(), walk.path().clone()), (Stage::Enter, vec![1]));
    assert!(matches!(gui.update(&mut walk, Seen::Nothing), Action::Idle));
    assert_eq!(walk.stage(), Stage::Finish);
    assert!(matches!(gui.update(&mut walk, Seen::Nothing), Action::Draw(Draw::EndFrame { .. })));
    assert_eq!(walk.stage(), Stage::Done);
    assert!(matches!(gui.update(&mut walk, Seen::Nothing), Action::Done));
    assert!(matches!(gui.update(&mut walk, Seen::Flag(true)), Action::Done));
    assert_eq!(walk.stage(), Stage::Done);
}

#[test]
fn a_path_leads_to_a_widget_or_to_none() {
    let gui = example();
    let items = gui.windows()[0].get_items();
    assert!(matches!(peek(items, &vec![0], 0), Some(Widget::Button(_))));
    assert!(matches!(peek(items, &vec![1], 0), Some(Widget::TreeNode(_))));
    assert!(matches!(peek(items, &vec![1, 1, 0], 0), Some(Widget::Text(_))));
    assert!(matches!(peek(items, &vec![9, 1, 2], 1), Some(Widget::Checkbox(_))));
    assert!(peek(items, &vec![], 0).is_none());
    assert!(peek(items, &vec![4], 0).is_none());
    assert!(peek(items, &vec![0, 0], 0).is_none());
    assert!(peek(items, &vec![1, 3], 0).is_none());
    assert!(matches!(gui.node(&vec![0]), Some(rust_gui::Node::Window(_))));
    assert!(matches!(gui.node(&vec![1, 0]), Some(rust_gui::Node::Widget(Widget::Text(_)))));
    assert!(gui.node(&vec![2]).is_none());
    assert!(gui.node(&vec![]).is_none());
    assert!(gui.node(&vec![1, 1]).is_none());
}

#[test]
fn settling_reaches_the_widget_at_the_path_only() {
    let mut gui = example();
    assert_eq!(gui.settle(&vec![0, 1, 2], Seen::Flag(true)), Some((true, false)));
    assert_eq!(gui.settle(&vec![0, 1, 2], Seen::Flag(true)), Some((false, false)));
    assert_eq!(gui.settle(&vec![0, 1], Seen::Flag(true)), Some((false, true)));
    assert_eq!(gui.settle(&vec![0, 1], Seen::Flag(false)), Some((false, false)));
    assert_eq!(gui.settle(&vec![0, 1], Seen::Nothing), Some((false, false)));
    assert_eq!(gui.settle(&vec![0], Seen::Nothing), Some((false, true)));
    assert_eq!(gui.settle(&vec![5], Seen::Nothing), None);
    assert_eq!(gui.settle(&vec![0, 0, 0], Seen::Flag(true)), None);
    assert_eq!(gui.settle(&vec![], Seen::Flag(true)), None);
    let node = gui.get_widget::<TreeNode>(0, 0);
    assert!(node.get_val::<Checkbox, bool>(0));
    assert!(!node.get_val::<Button, bool>(0));
    assert!(!gui.get::<Button, bool>(0, 0));
    let mut items = vec![Widget::Checkbox(Checkbox::new("c"))];
    assert_eq!(settle(&mut items, &vec![7, 0], 1, Seen::Flag(true)), Some((true, false)));
    assert_eq!(settle(&mut items, &vec![7, 0], 2, Seen::Flag(false)), None);
}

/// The most steps that a walk spends on a widget: two to draw it and take
/// in what was left behind and, for one that holds widgets, the steps for
/// those and two to leave it.
fn cost(widget: &Widget) -> usize {
    match widget.held() {
        Some(items) => 4 + items.iter().map(cost).sum::<usize>(),
        None => 2,
    }
}

fn steps(gui: &mut Gui, answer: &dyn Fn(&Draw) -> Seen) -> usize {
    let mut walk = Walk::new();
    let mut seen = Seen::Nothing;
    let mut steps = 0;
    loop {
        steps += 1;
        seen = match gui.update(&mut walk, seen) {
            Action::Draw(draw) => answer(&draw),
            Action::Done => return steps - 1,
            _ => Seen::Nothing,
        };
    }
}

#[test]
fn a_frame_ends_within_the_steps_that_its_widgets_cost() {
    let bound = |gui: &Gui| -> usize {
        5 + gui
            .windows()
            .iter()
            .map(|window| 4 + window.get_items().iter().map(cost).sum::<usize>())
            .sum::<usize>()
    };
    let mut gui = example();
    assert_eq!(bound(&gui), 5 + (4 + 2 + (4 + 2 + (4 + 2) + 2) + 2 + 2) + (4 + 2));
    assert!(steps(&mut gui, &unfolded) <= bound(&gui));
    assert_eq!(steps(&mut gui, &unfolded), 34);
    assert!(steps(&mut gui, &still) < bound(&gui));
    let mut empty = Gui::new("empty");
    assert_eq!(bound(&empty), 5);
    assert!(steps(&mut empty, &still) <= 5);
    empty.show_demo_window = true;
    assert!(steps(&mut empty, &still) <= 5);
}

/// What is done for `items` and below, written down as `run` does.
fn script(
    items: &mut Vec<Widget>,
    prefix: &Vec<usize>,
    answer: &dyn Fn(&Draw) -> Seen,
) -> Vec<String> {
    let mut lines = Vec::new();
    for (i, widget) in items.iter_mut().enumerate() {
        let mut path = prefix.clone();
        path.push(i);
        let draw = rust_gui::ImGuiGlue::render(&*widget);
        lines.push(name(&draw));
        let seen = answer(&draw);
        let open = widget.unfolds(&seen);
        if widget.update(seen) {
            lines.push(format!("fire {:?}", path));
        }
        if open {
            lines.extend(script(widget.held_mut().unwrap(), &path, answer));
            lines.push(name(&widget.close().unwrap()));
        }
    }
    lines
}

fn example_windows() -> Vec<Window> {
    vec![
        Window::new("window label")
            .add(Button::new("button label"))
            .add(
                TreeNode::new("node")
                    .add(Button::new("button"))
                    .add(TreeNode::new("inner").add(Text::new("deep")))
                    .add(Checkbox::new("tick")),
            )
            .same_line(SliderInt::new("slider")),
        Window::new("win 2").add(Text::new("just some text")),
    ]
}

#[test]
fn a_walk_does_what_the_script_says() {
    let press = |draw: &Draw| match draw {
        Draw::Button { .. } => Seen::Flag(true),
        Draw::Checkbox { value, .. } => Seen::Flag(!*value),
        Draw::SliderInt { value, .. } => Seen::Int(*value + 1),
        other => unfolded(other),
    };
    let answers: [&dyn Fn(&Draw) -> Seen; 3] = [&still, &unfolded, &press];
    for answer in answers {
        for demo in [false, true] {
            let mut gui = example();
            gui.show_demo_window = demo;
            let mut expected = vec![String::from("start")];
            if demo {
                expected.push(String::from("demo"));
            }
            for (i, window) in example_windows().iter_mut().enumerate() {
                expected.push(name(&rust_gui::ImGuiGlue::render(&*window)));
                expected.extend(script(window.get_mut_items(), &vec![i], answer));
                expected.push(String::from("end"));
            }
            expected.push(String::from("end frame"));
            assert_eq!(run(&mut gui, answer), expected);
        }
    }
}
