//! What the glue derive reads from the fields of a widget type.
//!
//! The derive writes, for a struct with named fields, the native call that
//! draws it. A field named `label`, `value` or `callback` has a part of its
//! own in that call; every other field is handed on as a further argument.

use vstd::prelude::*;

verus! {

/// The part that a field plays in the native call.
#[derive(Clone, Copy, Debug, PartialEq, Eq, Structural)]
pub enum Role {
    /// The field `value`: what the widget shows, handed on by reference.
    Value,
    /// The field `callback`: what is called after the native call.
    Callback,
    /// The field `label`: the widget's label, handed on with a NUL at its
    /// end.
    Label,
    /// Any other field: a further argument of the native call.
    Param,
}

/// One argument of the native call.
#[derive(Clone, Copy, Debug, PartialEq, Eq, Structural)]
pub enum Arg {
    /// The label.
    Label,
    /// The value.
    Value,
    /// The field with this index.
    Field(usize),
}

/// The native call that the derive writes.
pub struct Glue {
    /// The arguments of the call, in order.
    pub args: Vec<Arg>,
    /// Whether the callback is called behind the native call, where the
    /// value is greater than zero.
    pub calls_back: bool,
}

/// The role of the field `name`.
pub open spec fn role_of(name: Seq<char>) -> Role {
    if name == "value"@ {
        Role::Value
    } else if name == "callback"@ {
        Role::Callback
    } else if name == "label"@ {
        Role::Label
    } else {
        Role::Param
    }
}

/// The names of `fields` as sequences of characters.
pub open spec fn names(fields: Seq<String>) -> Seq<Seq<char>> {
    Seq::new(fields.len(), |i: int| fields[i]@)
}

/// A field of `fields` plays `role`.
pub open spec fn has(fields: Seq<Seq<char>>, role: Role) -> bool {
    exists|i: int| 0 <= i < fields.len() && role_of(#[trigger] fields[i]) == role
}

/// The fields of `fields` that are further arguments, in their order.
pub open spec fn params(fields: Seq<Seq<char>>) -> Seq<Arg>
    decreases fields.len(),
{
    if fields.len() == 0 {
        Seq::empty()
    } else {
        let before = params(fields.drop_last());
        if role_of(fields.last()) == Role::Param {
            before.push(Arg::Field((fields.len() - 1) as usize))
        } else {
            before
        }
    }
}

/// The arguments of the native call for a struct with `fields`.
///
/// With a label and a value, the call takes both and then the further
/// arguments. With a label and no value, it takes the label alone. Without
/// a label, it takes the further arguments alone.
pub open spec fn args_of(fields: Seq<Seq<char>>) -> Seq<Arg> {
    if has(fields, Role::Value) && has(fields, Role::Label) {
        seq![Arg::Label, Arg::Value] + params(fields)
    } else if has(fields, Role::Label) {
        seq![Arg::Label]
    } else {
        params(fields)
    }
}

/// Whether the callback is called behind the native call: where the
/// struct has a callback, a value and a label.
pub open spec fn calls_back(fields: Seq<Seq<char>>) -> bool {
    has(fields, Role::Callback) && has(fields, Role::Value) && has(fields, Role::Label)
}

/// The role of the field `name`.
pub fn role(name: &String) -> (role: Role)
    ensures
        role == role_of(name@),
{
    if *name == "value".to_owned() {
        Role::Value
    } else if *name == "callback".to_owned() {
        Role::Callback
    } else if *name == "label".to_owned() {
        Role::Label
    } else {
        Role::Param
    }
}

/// Reads the fields of a struct, given by their names in the order in which
/// the struct declares them, and plans the native call that draws it.
#[allow(non_snake_case)]
pub fn imgGuiGlue_derive(fields: &Vec<String>) -> (glue: Glue)
    ensures
        glue.args@ == args_of(names(fields@)),
        glue.calls_back == calls_back(names(fields@)),
{
    let ghost all = names(fields@);
    let mut contains_value = false;
    let mut contains_callback = false;
    let mut contains_label = false;
    let mut fun_param: Vec<Arg> = Vec::new();
    let mut i: usize = 0;
    while i < fields.len()
        invariant
            i <= fields.len(),
            all == names(fields@),
            contains_value == has(all.take(i as int), Role::Value),
            contains_callback == has(all.take(i as int), Role::Callback),
            contains_label == has(all.take(i as int), Role::Label),
            fun_param@ == params(all.take(i as int)),
        decreases fields.len() - i,
    {
        let ghost before = all.take(i as int);
        let ghost after = all.take(i as int + 1);
        let part = role(&fields[i]);
        proof {
            assert(after.drop_last() =~= before);
            assert(after.last() == fields@[i as int]@);
            assert forall|r: Role| has(after, r) == (has(before, r) || part == r) by {
                if has(before, r) {
                    let j = choose|j: int| 0 <= j < before.len() && role_of(#[trigger] before[j]) == r;
                    assert(after[j] == before[j]);
                }
                if part == r {
                    assert(role_of(after[i as int]) == r);
                }
                if has(after, r) {
                    let j = choose|j: int| 0 <= j < after.len() && role_of(#[trigger] after[j]) == r;
                    if j < i {
                        assert(before[j] == after[j]);
                    }
                }
            }
        }
        match part {
            Role::Value => {
                contains_value = true;
            },
            Role::Callback => {
                contains_callback = true;
            },
            Role::Label => {
                contains_label = true;
            },
            Role::Param => {
                fun_param.push(Arg::Field(i));
            },
        }
        i = i + 1;
    }
    assert(all.take(i as int) =~= all);
    let calls_back = contains_callback && contains_value && contains_label;
    if contains_value && contains_label {
        let mut args: Vec<Arg> = Vec::new();
        args.push(Arg::Label);
        args.push(Arg::Value);
        let mut k: usize = 0;
        while k < fun_param.len()
            invariant
                k <= fun_param.len(),
                args@ == seq![Arg::Label, Arg::Value] + fun_param@.take(k as int),
            decreases fun_param.len() - k,
        {
            args.push(fun_param[k]);
            assert(fun_param@.take(k as int + 1) =~= fun_param@.take(k as int).push(
                fun_param@[k as int],
            ));
            k = k + 1;
        }
        assert(fun_param@.take(k as int) =~= fun_param@);
        Glue { args, calls_back }
    } else if contains_label {
        let mut args: Vec<Arg> = Vec::new();
        args.push(Arg::Label);
        assert(args@ =~= seq![Arg::Label]);
        Glue { args, calls_back }
    } else {
        Glue { args: fun_param, calls_back }
    }
}

} // verus!
