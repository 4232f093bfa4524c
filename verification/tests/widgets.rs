use rust_gui::single;
use rust_gui::{
    Button, Checkbox, Container2, Draw, Get, Gui, ImGuiGlue, ImGui_Vec4, InputColor, InputText,
    SameLine, Seen, SetValue, SliderFloat, SliderInt, Text, TreeNode, Update, Widget, Window,
};

fn bits(x: f32) -> u32 {
    x.to_bits()
}

#[test]
fn a_label_gets_one_nul() {
    assert_eq!(rust_gui::label::terminate("abc"), "abc\0");
    assert_eq!(rust_gui::label::terminate("abc\0"), "abc\0");
    assert_eq!(rust_gui::label::terminate(""), "\0");
    assert_eq!(rust_gui::label::terminate("\0"), "\0");
    assert_eq!(rust_gui::label::terminate("a\0b"), "a\0b\0");
    assert_eq!(rust_gui::label::terminate("größe"), "größe\0");
}

#[test]
fn a_new_button_is_not_pressed() {
    let button = Button::new("click me");
    assert!(!button.get());
    match button.render() {
        Draw::Button { text, value } => {
            assert_eq!(text, "click me\0");
            assert!(!value);
        }
        other => panic!("{:?}", other),
    }
}

#[test]
fn a_button_fires_when_its_press_changes() {
    let mut button = Button::new("b");
    assert!(button.update(Seen::Flag(true)));
    assert!(button.get());
    assert!(!button.update(Seen::Flag(true)));
    assert!(button.get());
    assert!(button.update(Seen::Flag(false)));
    assert!(!button.get());
    assert!(!button.update(Seen::Flag(false)));
    assert!(!button.update(Seen::Nothing));
    assert!(!button.update(Seen::Int(1)));
    assert!(!button.get());
}

#[test]
fn a_pressed_button_that_is_told_nothing_stays_pressed() {
    let mut button = Button::new("b");
    assert!(button.update(Seen::Flag(true)));
    assert!(!button.update(Seen::Nothing));
    assert!(button.get());
}

/// A buffer of 255 characters: `text`, and NUL characters behind it.
fn buffer(text: &str) -> String {
    let mut buffer = String::from(text);
    while buffer.chars().count() < 255 {
        buffer.push('\0');
    }
    buffer
}

#[test]
fn a_checkbox_fires_when_its_tick_changes() {
    let mut checkbox = Checkbox::new("show");
    assert!(!checkbox.get());
    assert!(checkbox.update(Seen::Flag(true)));
    assert!(checkbox.get());
    assert!(!checkbox.update(Seen::Flag(true)));
    assert!(checkbox.update(Seen::Flag(false)));
    assert!(!checkbox.get());
    assert!(!checkbox.update(Seen::Text(String::from("x\0"))));
    checkbox.set(true);
    assert!(checkbox.get());
    assert!(!checkbox.update(Seen::Flag(true)));
    match checkbox.render() {
        Draw::Checkbox { label, value } => {
            assert_eq!(label, "show\0");
            assert!(value);
        }
        other => panic!("{:?}", other),
    }
}

#[test]
fn a_text_takes_what_it_is_set_to() {
    let mut text = Text::new("0");
    assert_eq!(text.get(), "0\0");
    text.set(String::from("new"));
    assert_eq!(text.get(), "new");
    assert_eq!(text.value, "new");
    assert!(!text.update(Seen::Text(String::from("other\0"))));
    assert_eq!(text.get(), "new");
    match text.render() {
        Draw::Text { text } => assert_eq!(text, "new"),
        other => panic!("{:?}", other),
    }
}

#[test]
fn a_new_text_field_is_empty() {
    let field = InputText::new("###1");
    assert_eq!(field.get(), "");
    match field.render() {
        Draw::InputText { label, value, buffer_size, flags } => {
            assert_eq!(label, "###1\0");
            assert_eq!(value.len(), 255);
            assert!(value.chars().all(|c| c == '\0'));
            assert_eq!(buffer_size, 255);
            assert_eq!(flags, 0);
        }
        other => panic!("{:?}", other),
    }
}

#[test]
fn a_text_field_shows_what_stands_before_the_first_nul() {
    let mut field = InputText::new("in");
    assert!(!field.update(Seen::Text(buffer("hello\0world"))));
    assert_eq!(field.get(), "hello");
    assert!(!field.update(Seen::Text(buffer("\0rest"))));
    assert_eq!(field.get(), "");
    assert!(!field.update(Seen::Text(buffer("äöü"))));
    assert_eq!(field.get(), "äöü");
    let longest = "x".repeat(254);
    assert!(!field.update(Seen::Text(buffer(&longest))));
    assert_eq!(field.get(), longest);
}

#[test]
fn a_text_field_hands_out_a_buffer_of_its_size() {
    let mut field = InputText::new("in");
    field.update(Seen::Text(buffer("abc")));
    field.update(Seen::Text(String::from("\0")));
    match field.render() {
        Draw::InputText { value, buffer_size, .. } => {
            assert_eq!(value.chars().count(), 255);
            assert_eq!(buffer_size, 255);
            assert_eq!(value, buffer("abc"));
        }
        other => panic!("{:?}", other),
    }
}

#[test]
fn a_text_field_keeps_its_buffer_when_the_new_one_does_not_fit() {
    let mut field = InputText::new("in");
    field.update(Seen::Text(buffer("kept")));
    assert!(!field.update(Seen::Text("x".repeat(255))));
    assert_eq!(field.get(), "kept");
    assert!(!field.update(Seen::Text(String::from("short\0"))));
    assert_eq!(field.get(), "kept");
    assert!(!field.update(Seen::Text(format!("{}\0", "x".repeat(255)))));
    assert_eq!(field.get(), "kept");
    assert!(!field.update(Seen::Flag(true)));
    assert_eq!(field.get(), "kept");
}

#[test]
fn a_new_colour_field_shows_grey() {
    let field = InputColor::new("choose a color");
    let colour: Vec<f32> = field.get().into_iter().map(f32::from_bits).collect();
    assert_eq!(colour, vec![0.3, 0.3, 0.3, 1.0]);
}

#[test]
fn a_colour_field_takes_the_colour_that_was_chosen() {
    let mut field = InputColor::new("c");
    let red = ImGui_Vec4 { x: bits(1.0), y: bits(0.0), z: bits(0.0), w: bits(0.5) };
    assert!(!field.update(Seen::Color(red)));
    assert_eq!(field.get(), vec![bits(1.0), bits(0.0), bits(0.0), bits(0.5)]);
    assert!(!field.update(Seen::Int(3)));
    assert_eq!(field.get(), vec![bits(1.0), bits(0.0), bits(0.0), bits(0.5)]);
    match field.render() {
        Draw::ColorEdit3 { label, value } => {
            assert_eq!(label, "c\0");
            assert_eq!(value, red);
        }
        other => panic!("{:?}", other),
    }
}

#[test]
fn a_mark_stands_in_for_what_is_not_given() {
    match SameLine::new(None, None).render() {
        Draw::SameLine { offset_from_start_x, spacing } => {
            assert_eq!(f32::from_bits(offset_from_start_x), 0.0);
            assert_eq!(f32::from_bits(spacing), -1.0);
        }
        other => panic!("{:?}", other),
    }
    match SameLine::new(Some(bits(12.5)), None).render() {
        Draw::SameLine { offset_from_start_x, spacing } => {
            assert_eq!(f32::from_bits(offset_from_start_x), 12.5);
            assert_eq!(f32::from_bits(spacing), -1.0);
        }
        other => panic!("{:?}", other),
    }
    match SameLine::new(None, Some(bits(4.0))).render() {
        Draw::SameLine { offset_from_start_x, spacing } => {
            assert_eq!(f32::from_bits(offset_from_start_x), 0.0);
            assert_eq!(f32::from_bits(spacing), 4.0);
        }
        other => panic!("{:?}", other),
    }
    let mut mark = SameLine::new(None, None);
    assert!(!mark.update(Seen::Nothing));
}

#[test]
fn a_new_slider_runs_from_0_to_100() {
    let slider = SliderInt::new("slider");
    assert_eq!(slider.get(), 0);
    match slider.render() {
        Draw::SliderInt { label, value, min_val, max_val } => {
            assert_eq!(label, "slider\0");
            assert_eq!((value, min_val, max_val), (0, 0, 100));
        }
        other => panic!("{:?}", other),
    }
    let slider = SliderFloat::new("float slider");
    assert_eq!(f32::from_bits(slider.get()), 0.0);
    match slider.render() {
        Draw::SliderFloat { label, value, min_val, max_val } => {
            assert_eq!(label, "float slider\0");
            assert_eq!(f32::from_bits(value), 0.0);
            assert_eq!(f32::from_bits(min_val), 0.0);
            assert_eq!(f32::from_bits(max_val), 100.0);
        }
        other => panic!("{:?}", other),
    }
}

#[test]
fn a_slider_fires_when_it_was_moved() {
    let mut slider = SliderInt::new("s");
    assert!(slider.update(Seen::Int(7)));
    assert_eq!(slider.get(), 7);
    assert!(!slider.update(Seen::Int(7)));
    assert!(!slider.update(Seen::Nothing));
    slider.set(-3);
    assert_eq!(slider.get(), -3);
    assert!(slider.update(Seen::Int(0)));
    slider.set(1000);
    assert_eq!(slider.get(), 1000);
}

#[test]
fn a_float_slider_compares_numbers() {
    let mut slider = SliderFloat::new("s");
    assert!(slider.update(Seen::Single(bits(2.5))));
    assert_eq!(f32::from_bits(slider.get()), 2.5);
    assert!(!slider.update(Seen::Single(bits(2.5))));
    slider.set(bits(0.0));
    assert!(!slider.update(Seen::Single(bits(-0.0))));
    assert_eq!(slider.get(), bits(-0.0));
    assert!(slider.update(Seen::Single(bits(f32::NAN))));
    assert!(slider.update(Seen::Single(bits(f32::NAN))));
    assert!(slider.update(Seen::Nothing));
    assert!(slider.update(Seen::Single(bits(1.0))));
    assert!(!slider.update(Seen::Nothing));
}

#[test]
fn unequal_patterns_are_unequal_numbers() {
    let samples = [
        0.0f32,
        -0.0,
        1.0,
        -1.0,
        0.3,
        100.0,
        f32::MIN_POSITIVE,
        f32::MAX,
        f32::MIN,
        f32::INFINITY,
        f32::NEG_INFINITY,
        f32::NAN,
        -f32::NAN,
        f32::from_bits(0x7F80_0001),
        f32::from_bits(0x0000_0001),
        f32::from_bits(0x8000_0001),
    ];
    for a in samples {
        for b in samples {
            assert_eq!(single::ne(a.to_bits(), b.to_bits()), a != b, "{} {}", a, b);
        }
    }
}

#[test]
fn the_named_numbers_are_what_they_say() {
    assert_eq!(f32::from_bits(single::ZERO), 0.0);
    assert_eq!(f32::from_bits(single::ONE), 1.0);
    assert_eq!(f32::from_bits(single::MINUS_ONE), -1.0);
    assert_eq!(f32::from_bits(single::HUNDRED), 100.0);
    assert_eq!(f32::from_bits(single::THREE_TENTHS), 0.3);
}

fn example_window() -> Window {
    Window::new("window label")
        .add(Button::new("button label"))
        .add(TreeNode::new("node").add(Button::new("button")))
        .same_line(Text::new("just some text"))
        .add(Checkbox::new("tick"))
        .add(Button::new("second button"))
        .add(Text::new("second text"))
}

#[test]
fn a_window_counts_its_own_widgets_by_kind() {
    let window = example_window();
    assert_eq!(window.get_items().len(), 7);
    assert_eq!(window.count::<Button>(), 2);
    assert_eq!(window.count::<Text>(), 2);
    assert_eq!(window.count::<TreeNode>(), 1);
    assert_eq!(window.count::<SameLine>(), 1);
    assert_eq!(window.count::<Checkbox>(), 1);
    assert_eq!(window.count::<SliderInt>(), 0);
    assert_eq!(window.count::<Window>(), 0);
    assert_eq!(Window::new("empty").count::<Button>(), 0);
}

#[test]
fn same_line_puts_a_mark_before_the_widget() {
    let window = Window::new("w").add(Button::new("a")).same_line(Text::new("b"));
    let items = window.get_items();
    assert_eq!(items.len(), 3);
    assert!(matches!(items[0], Widget::Button(_)));
    match &items[1] {
        Widget::SameLine(mark) => match mark.render() {
            Draw::SameLine { offset_from_start_x, spacing } => {
                assert_eq!(f32::from_bits(offset_from_start_x), 0.0);
                assert_eq!(f32::from_bits(spacing), -1.0);
            }
            other => panic!("{:?}", other),
        },
        _ => panic!("no mark"),
    }
    assert!(matches!(items[2], Widget::Text(_)));
}

#[test]
fn a_value_is_found_by_kind_and_index() {
    let mut window = example_window();
    assert_eq!(window.get_val::<Text, String>(0), "just some text\0");
    assert_eq!(window.get_val::<Text, String>(1), "second text\0");
    assert!(!window.get_val::<Button, bool>(1));
    window.set_val::<Text, String>(1, String::from("new"));
    assert_eq!(window.get_val::<Text, String>(0), "just some text\0");
    assert_eq!(window.get_val::<Text, String>(1), "new");
    window.set_val::<Checkbox, bool>(0, true);
    assert!(window.get_val::<Checkbox, bool>(0));
    assert_eq!(window.get_items().len(), 7);
    assert!(matches!(window.get_items()[6], Widget::Text(_)));
}

#[test]
fn a_widget_is_found_by_kind_and_index() {
    let mut window = example_window();
    let node = window.get_widget::<TreeNode>(0);
    assert_eq!(node.count::<Button>(), 1);
    assert!(!node.get_val::<Button, bool>(0));
    match node.get_widget::<Button>(0).render() {
        Draw::Button { text, .. } => assert_eq!(text, "button\0"),
        other => panic!("{:?}", other),
    }
    match window.get_widget::<Button>(1).render() {
        Draw::Button { text, .. } => assert_eq!(text, "second button\0"),
        other => panic!("{:?}", other),
    }
}

#[test]
fn a_write_through_a_found_widget_is_seen_in_the_container() {
    let mut window = Window::new("w").add(Checkbox::new("c"));
    window.get_widget::<Checkbox>(0).set(true);
    assert!(window.get_val::<Checkbox, bool>(0));
    let mut window = example_window();
    window.get_widget::<TreeNode>(0).get_widget::<Button>(0).update(Seen::Flag(true));
    window.get_widget::<Text>(1).set(String::from("changed"));
    assert!(window.get_widget::<TreeNode>(0).get_val::<Button, bool>(0));
    assert!(!window.get_val::<Button, bool>(0));
    assert_eq!(window.get_val::<Text, String>(1), "changed");
    assert_eq!(window.get_val::<Text, String>(0), "just some text\0");
    assert_eq!(window.get_items().len(), 7);
}

#[test]
fn a_container_says_how_it_is_opened() {
    match Window::new("drag me!").render() {
        Draw::Begin { name, close, flags } => {
            assert_eq!(name, "drag me!\0");
            assert!(close);
            assert_eq!(flags, 0);
        }
        other => panic!("{:?}", other),
    }
    match TreeNode::new("tree").render() {
        Draw::TreeNodeEx { label, flags } => {
            assert_eq!(label, "tree\0");
            assert_eq!(flags, 0);
        }
        other => panic!("{:?}", other),
    }
    assert!(!Window::new("w").update(Seen::Flag(true)));
    assert!(!TreeNode::new("t").update(Seen::Flag(true)));
}

fn example_gui() -> Gui {
    Gui::new("example")
        .window(example_window())
        .window(Window::new("win 2").add(Text::new("just some text")))
}

#[test]
fn a_new_gui_has_no_windows() {
    let gui = Gui::new("example");
    assert_eq!(gui.label(), "example\0");
    assert_eq!(gui.windows().len(), 0);
    assert!(!gui.show_demo_window);
    assert_eq!(Gui::new("example\0").label(), "example\0");
}

#[test]
fn a_gui_reaches_the_widgets_of_its_windows() {
    let mut gui = example_gui();
    assert_eq!(gui.windows().len(), 2);
    assert!(!gui.get::<Button, bool>(0, 0));
    assert_eq!(gui.get::<Text, String>(1, 0), "just some text\0");
    gui.set::<Text, String>(1, 0, String::from("new"));
    assert_eq!(gui.get::<Text, String>(1, 0), "new");
    assert_eq!(gui.get::<Text, String>(0, 0), "just some text\0");
    gui.set::<Checkbox, bool>(0, 0, true);
    assert!(gui.get::<Checkbox, bool>(0, 0));
    let node = gui.get_widget::<TreeNode>(0, 0);
    assert!(!node.get_val::<Button, bool>(0));
    node.get_widget::<Button>(0).update(Seen::Flag(true));
    gui.get_widget::<Checkbox>(0, 0).set(false);
    assert!(gui.get_widget::<TreeNode>(0, 0).get_val::<Button, bool>(0));
    assert!(!gui.get::<Checkbox, bool>(0, 0));
    assert_eq!(gui.windows()[0].get_items().len(), 7);
}
