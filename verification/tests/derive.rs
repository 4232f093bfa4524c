use rust_gui::derive::{imgGuiGlue_derive, role, Arg, Role};

fn fields(names: &[&str]) -> Vec<String> {
    names.iter().map(|name| name.to_string()).collect()
}

#[test]
fn a_field_has_its_role_by_its_name() {
    assert_eq!(role(&String::from("value")), Role::Value);
    assert_eq!(role(&String::from("callback")), Role::Callback);
    assert_eq!(role(&String::from("label")), Role::Label);
    assert_eq!(role(&String::from("min")), Role::Param);
    assert_eq!(role(&String::from("Value")), Role::Param);
    assert_eq!(role(&String::from("labels")), Role::Param);
    assert_eq!(role(&String::from("")), Role::Param);
}

#[test]
fn label_value_and_callback_make_a_call_that_calls_back() {
    let glue = imgGuiGlue_derive(&fields(&["label", "value", "callback"]));
    assert_eq!(glue.args, vec![Arg::Label, Arg::Value]);
    assert!(glue.calls_back);
    let glue = imgGuiGlue_derive(&fields(&["min", "callback", "value", "max", "label"]));
    assert_eq!(glue.args, vec![Arg::Label, Arg::Value, Arg::Field(0), Arg::Field(3)]);
    assert!(glue.calls_back);
}

#[test]
fn label_and_value_make_a_call_that_does_not_call_back() {
    let glue = imgGuiGlue_derive(&fields(&["label", "value"]));
    assert_eq!(glue.args, vec![Arg::Label, Arg::Value]);
    assert!(!glue.calls_back);
    let glue = imgGuiGlue_derive(&fields(&["label", "min", "max", "value"]));
    assert_eq!(glue.args, vec![Arg::Label, Arg::Value, Arg::Field(1), Arg::Field(2)]);
    assert!(!glue.calls_back);
}

#[test]
fn a_label_alone_is_the_only_argument() {
    let glue = imgGuiGlue_derive(&fields(&["label"]));
    assert_eq!(glue.args, vec![Arg::Label]);
    assert!(!glue.calls_back);
    let glue = imgGuiGlue_derive(&fields(&["offset", "label", "callback"]));
    assert_eq!(glue.args, vec![Arg::Label]);
    assert!(!glue.calls_back);
}

#[test]
fn without_a_label_the_other_fields_are_the_arguments() {
    let glue = imgGuiGlue_derive(&fields(&["offset_from_start_x", "spacing"]));
    assert_eq!(glue.args, vec![Arg::Field(0), Arg::Field(1)]);
    assert!(!glue.calls_back);
    let glue = imgGuiGlue_derive(&fields(&["value", "callback", "spacing"]));
    assert_eq!(glue.args, vec![Arg::Field(2)]);
    assert!(!glue.calls_back);
    let glue = imgGuiGlue_derive(&fields(&[]));
    assert_eq!(glue.args, vec![]);
    assert!(!glue.calls_back);
}
