use proc_macro2::TokenStream;
use rust_gui::macros::{
    add_args, first_refused, impl_Add, impl_Set, impl_Update, last_of_kind, nth_of_kind, read_add,
    read_set, read_update, set_args, update_args, what, AddArgs, Refusal, SetArgs, Token, TokenKind, UpdateArgs, UpdateTemplate,
};

fn stream(text: &str) -> TokenStream {
    text.parse().unwrap()
}

const GROUP: TokenKind = TokenKind::Group;
const IDENT: TokenKind = TokenKind::Ident;
const PUNCT: TokenKind = TokenKind::Punct;
const LITERAL: TokenKind = TokenKind::Literal;

#[test]
fn update_args_without_callback() {
    let args =
        impl_Update(stream("Text, ImGui_Text(self.value.blocking_write().as_ptr())")).unwrap();
    assert_eq!(
        args,
        UpdateArgs { ty: Some(0), fun: Some(2), param: Some(3), callback: None, callback_val: None }
    );
    assert_eq!(args.template(), UpdateTemplate::Plain);
}

#[test]
fn update_args_with_callback() {
    let args = impl_Update(stream(
        "SliderInt,
         ImGui_SliderInt(
             self.label.blocking_write().as_ptr(),
             &self.value.blocking_write(),
             *self.min.blocking_read(),
             *self.max.blocking_read()
         ),
         callback,
         value",
    ))
    .unwrap();
    assert_eq!(
        args,
        UpdateArgs {
            ty: Some(0),
            fun: Some(2),
            param: Some(3),
            callback: Some(5),
            callback_val: Some(7),
        }
    );
    assert_eq!(args.template(), UpdateTemplate::Watching);
}

#[test]
fn update_args_take_the_last_group_and_pass_over_a_fifth_identifier() {
    let args = impl_Update(stream("(first) A b c [second] d e")).unwrap();
    assert_eq!(
        args,
        UpdateArgs {
            ty: Some(1),
            fun: Some(2),
            param: Some(4),
            callback: Some(3),
            callback_val: Some(5),
        }
    );
}

#[test]
fn update_args_of_an_empty_call() {
    let args = impl_Update(stream("")).unwrap();
    assert_eq!(
        args,
        UpdateArgs { ty: None, fun: None, param: None, callback: None, callback_val: None }
    );
    assert_eq!(args.template(), UpdateTemplate::Plain);
}

#[test]
fn update_template_watches_with_a_callback_field_alone() {
    let args = impl_Update(stream("A f callback")).unwrap();
    assert_eq!(args.callback, Some(2));
    assert_eq!(args.callback_val, None);
    assert_eq!(args.template(), UpdateTemplate::Watching);
}

#[test]
fn update_args_look_at_the_outermost_tokens_only() {
    let args = impl_Update(stream("A, f(inner, names, 1, \"text\")")).unwrap();
    assert_eq!(
        args,
        UpdateArgs { ty: Some(0), fun: Some(2), param: Some(3), callback: None, callback_val: None }
    );
}

#[test]
fn a_literal_is_refused() {
    assert_eq!(impl_Update(stream("Text, 1")), Err(Refusal::Literal));
    assert_eq!(impl_Update(stream("\"Text\"")), Err(Refusal::Literal));
    assert_eq!(impl_Update(stream("A, f(x), 'c'")), Err(Refusal::Literal));
    assert_eq!(impl_Add(stream("A, 2.5")), Err(Refusal::Literal));
    assert_eq!(impl_Set(stream("A, b, 7")), Err(Refusal::Literal));
}

#[test]
fn a_group_is_refused_where_none_is_taken() {
    assert_eq!(impl_Add(stream("SliderInt, (slider_int)")), Err(Refusal::Group));
    assert_eq!(impl_Set(stream("SliderInt, i32, [value]")), Err(Refusal::Group));
    assert_eq!(impl_Add(stream("{}")), Err(Refusal::Group));
}

#[test]
fn the_first_refused_token_tells_the_refusal() {
    assert_eq!(impl_Add(stream("A (b) 1")), Err(Refusal::Group));
    assert_eq!(impl_Add(stream("A 1 (b)")), Err(Refusal::Literal));
    assert_eq!(impl_Set(stream("1 (b)")), Err(Refusal::Literal));
    assert_eq!(impl_Update(stream("A (b) 1")), Err(Refusal::Literal));
}

#[test]
fn add_args_of_a_stream() {
    assert_eq!(
        impl_Add(stream("SliderInt, slider_int")),
        Ok(AddArgs { ty: Some(0), window_widget_container: Some(2) })
    );
    assert_eq!(
        impl_Add(stream("SliderInt")),
        Ok(AddArgs { ty: Some(0), window_widget_container: None })
    );
    assert_eq!(impl_Add(stream("")), Ok(AddArgs { ty: None, window_widget_container: None }));
    assert_eq!(
        impl_Add(stream(", , a b c")),
        Ok(AddArgs { ty: Some(2), window_widget_container: Some(3) })
    );
}

#[test]
fn set_args_of_a_stream() {
    assert_eq!(
        impl_Set(stream("SliderInt, i32, value")),
        Ok(SetArgs { ty: Some(0), ty2: Some(2), val: Some(4) })
    );
    assert_eq!(
        impl_Set(stream("SliderInt i32")),
        Ok(SetArgs { ty: Some(0), ty2: Some(1), val: None })
    );
}

#[test]
fn args_are_read_from_kinds() {
    let tokens = vec![IDENT, PUNCT, IDENT, GROUP, PUNCT, IDENT, LITERAL, IDENT];
    assert_eq!(
        update_args(&tokens),
        UpdateArgs {
            ty: Some(0),
            fun: Some(2),
            param: Some(3),
            callback: Some(5),
            callback_val: Some(7),
        }
    );
    assert_eq!(add_args(&tokens), AddArgs { ty: Some(0), window_widget_container: Some(2) });
    assert_eq!(set_args(&tokens), SetArgs { ty: Some(0), ty2: Some(2), val: Some(5) });
    assert_eq!(first_refused(&tokens, false), Some(6));
    assert_eq!(first_refused(&tokens, true), Some(3));
    assert_eq!(first_refused(&vec![IDENT, GROUP], false), None);
    assert_eq!(first_refused(&vec![IDENT, PUNCT], true), None);
    assert_eq!(first_refused(&Vec::new(), true), None);
}

#[test]
fn the_refusal_is_read_from_kinds() {
    let plain = vec![IDENT, PUNCT, IDENT, GROUP, PUNCT, IDENT];
    assert_eq!(read_update(&plain), Ok(update_args(&plain)));
    assert_eq!(read_add(&plain), Err(Refusal::Group));
    assert_eq!(read_set(&plain), Err(Refusal::Group));
    let names = vec![IDENT, PUNCT, IDENT, PUNCT, IDENT];
    assert_eq!(read_add(&names), Ok(add_args(&names)));
    assert_eq!(read_set(&names), Ok(set_args(&names)));
    assert_eq!(read_update(&names), Ok(update_args(&names)));
    let both = vec![IDENT, LITERAL, GROUP];
    assert_eq!(read_update(&both), Err(Refusal::Literal));
    assert_eq!(read_add(&both), Err(Refusal::Literal));
    let group_first = vec![GROUP, LITERAL];
    assert_eq!(read_update(&group_first), Err(Refusal::Literal));
    assert_eq!(read_set(&group_first), Err(Refusal::Group));
    assert_eq!(read_add(&Vec::new()), Ok(AddArgs { ty: None, window_widget_container: None }));
}

#[test]
fn a_refusal_says_what_was_not_expected() {
    assert_eq!(Refusal::Group.message(), "unexpected group");
    assert_eq!(Refusal::Literal.message(), "unexpected literal");
}

#[test]
fn nth_of_kind_counts_from_zero() {
    let tokens = vec![PUNCT, IDENT, PUNCT, IDENT];
    assert_eq!(nth_of_kind(&tokens, IDENT, 0), Some(1));
    assert_eq!(nth_of_kind(&tokens, IDENT, 1), Some(3));
    assert_eq!(nth_of_kind(&tokens, IDENT, 2), None);
    assert_eq!(nth_of_kind(&tokens, PUNCT, 1), Some(2));
    assert_eq!(nth_of_kind(&tokens, LITERAL, 0), None);
}

#[test]
fn last_of_kind_finds_the_last() {
    let tokens = vec![PUNCT, IDENT, PUNCT, IDENT];
    assert_eq!(last_of_kind(&tokens, PUNCT), Some(2));
    assert_eq!(last_of_kind(&tokens, IDENT), Some(3));
    assert_eq!(last_of_kind(&tokens, GROUP), None);
    assert_eq!(last_of_kind(&Vec::new(), PUNCT), None);
}

#[test]
fn what_tells_kind_and_text() {
    let token = |kind: TokenKind, text: &str| Token { kind, text: text.to_string() };
    let tokens =
        vec![token(GROUP, "(a, b)"), token(IDENT, "name"), token(PUNCT, ","), token(LITERAL, "12")];
    let lines = what(&tokens);
    assert_eq!(lines, vec!["Group (a, b)", "Ident name", "Punct ,", "Literal 12"]);
    assert_eq!(what(&Vec::new()).len(), 0);
}
