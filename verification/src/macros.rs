//! What the widget macros read from their arguments.
//!
//! A macro call such as `impl_Update!(Checkbox, ImGui_Checkbox(..), callback, value)`
//! reaches its macro as a stream of token trees. The functions here pick
//! out of that stream the trees that each macro works with, by their
//! indices; turning the picked trees into code is left to the caller.

use crate::place::{find, finds};
use vstd::prelude::*;

verus! {

/// The four kinds of token tree that a macro can be handed.
#[derive(Clone, Copy, Debug, PartialEq, Eq, Structural)]
pub enum TokenKind {
    /// A delimited run of tokens, such as `(a, b)`.
    Group,
    /// A name.
    Ident,
    /// A punctuation character.
    Punct,
    /// A literal, such as `1` or `"text"`.
    Literal,
}

/// `proc_macro2::TokenStream`, taken as it is: the library looks at
/// nothing inside it but through `kinds_of`.
#[verifier::external_type_specification]
#[verifier::external_body]
pub struct ExTokenStream(proc_macro2::TokenStream);

/// The kinds of the token trees that a stream holds, in their order.
pub uninterp spec fn kinds(input: proc_macro2::TokenStream) -> Seq<TokenKind>;

/// `proc_macro2::TokenStream::into_iter`, which hands out the token trees
/// of a stream in their order. Each tree is turned into its kind. Nothing
/// of this is proved: that the kinds come out in the order of the stream is
/// taken from the crate.
#[verifier::external_body]
fn kinds_of(input: proc_macro2::TokenStream) -> (found: Vec<TokenKind>)
    ensures
        found@ == kinds(input),
{
    input.into_iter().map(
        |tree|
            match tree {
                proc_macro2::TokenTree::Group(_) => TokenKind::Group,
                proc_macro2::TokenTree::Ident(_) => TokenKind::Ident,
                proc_macro2::TokenTree::Punct(_) => TokenKind::Punct,
                proc_macro2::TokenTree::Literal(_) => TokenKind::Literal,
            },
    ).collect()
}

/// Keeps the tokens of `kind`.
pub open spec fn only(kind: TokenKind) -> spec_fn(TokenKind) -> Option<TokenKind> {
    |token: TokenKind|
        if token == kind {
            Some(token)
        } else {
            None
        }
}

/// No token of `tokens` is of `kind`.
pub open spec fn lacks(tokens: Seq<TokenKind>, kind: TokenKind) -> bool {
    forall|j: int| 0 <= j < tokens.len() ==> #[trigger] tokens[j] != kind
}

/// `found` is the index of the last token of `kind`, or `None` where there
/// is no such token.
pub open spec fn is_last(tokens: Seq<TokenKind>, kind: TokenKind, found: Option<usize>) -> bool {
    match found {
        Some(i) => {
            &&& i < tokens.len()
            &&& tokens[i as int] == kind
            &&& forall|j: int| i < j < tokens.len() ==> #[trigger] tokens[j] != kind
        },
        None => lacks(tokens, kind),
    }
}

/// A macro refuses a token of `kind`: a literal always, a group where the
/// macro takes none.
pub open spec fn refused(kind: TokenKind, groups: bool) -> bool {
    kind == TokenKind::Literal || (groups && kind == TokenKind::Group)
}

/// Why a macro refuses its arguments.
#[derive(Clone, Copy, Debug, PartialEq, Eq, Structural)]
pub enum Refusal {
    /// There is a group among the arguments of a macro that takes none.
    Group,
    /// There is a literal among the arguments.
    Literal,
}

/// The refusal that a refused token of `kind` brings.
pub open spec fn refusal_of(kind: TokenKind) -> Refusal {
    if kind == TokenKind::Group {
        Refusal::Group
    } else {
        Refusal::Literal
    }
}

/// The refusal in words.
pub open spec fn message_of(refusal: Refusal) -> Seq<char> {
    match refusal {
        Refusal::Group => "unexpected group"@,
        Refusal::Literal => "unexpected literal"@,
    }
}

impl Refusal {
    /// The refusal in words.
    pub fn message(&self) -> (message: &'static str)
        ensures
            message@ == message_of(*self),
    {
        match self {
            Refusal::Group => "unexpected group",
            Refusal::Literal => "unexpected literal",
        }
    }
}

/// The macro refuses `tokens` for `refusal`: the first token that it
/// refuses brings it.
pub open spec fn refuses(tokens: Seq<TokenKind>, groups: bool, refusal: Refusal) -> bool {
    exists|i: usize| #[trigger]
        is_first_refused(tokens, groups, Some(i)) && refusal_of(tokens[i as int]) == refusal
}

/// `found` is the index of the first token that is refused, or `None`
/// where none is.
pub open spec fn is_first_refused(
    tokens: Seq<TokenKind>,
    groups: bool,
    found: Option<usize>,
) -> bool {
    match found {
        Some(i) => {
            &&& i < tokens.len()
            &&& refused(tokens[i as int], groups)
            &&& forall|j: int| 0 <= j < i ==> !refused(#[trigger] tokens[j], groups)
        },
        None => forall|j: int| 0 <= j < tokens.len() ==> !refused(#[trigger] tokens[j], groups),
    }
}

/// The index of the `n`-th token of `kind`, counted from 0.
pub fn nth_of_kind(tokens: &Vec<TokenKind>, kind: TokenKind, n: usize) -> (found: Option<usize>)
    ensures
        finds(tokens@, only(kind), n as int, found),
{
    let hit = |token: &TokenKind| -> (b: bool)
        ensures
            b == (*token == kind),
        { *token == kind };
    find::<TokenKind, TokenKind, _>(tokens, hit, n, Ghost(only(kind)))
}

/// The index of the last token of `kind`.
pub fn last_of_kind(tokens: &Vec<TokenKind>, kind: TokenKind) -> (found: Option<usize>)
    ensures
        is_last(tokens@, kind, found),
{
    let mut i: usize = tokens.len();
    while i > 0
        invariant
            i <= tokens.len(),
            forall|j: int| i <= j < tokens.len() ==> #[trigger] tokens[j] != kind,
        decreases i,
    {
        i = i - 1;
        if tokens[i] == kind {
            return Some(i);
        }
    }
    None
}

/// The index of the first token that a macro refuses: the first literal,
/// or the first literal or group where `groups` says that the macro takes
/// no group.
pub fn first_refused(tokens: &Vec<TokenKind>, groups: bool) -> (found: Option<usize>)
    ensures
        is_first_refused(tokens@, groups, found),
{
    let mut i: usize = 0;
    while i < tokens.len()
        invariant
            i <= tokens.len(),
            forall|j: int| 0 <= j < i ==> !refused(#[trigger] tokens[j], groups),
        decreases tokens.len() - i,
    {
        if tokens[i] == TokenKind::Literal || (groups && tokens[i] == TokenKind::Group) {
            return Some(i);
        }
        i = i + 1;
    }
    None
}

/// What `impl_Update!` reads from its arguments, each as an index into them.
#[derive(Clone, Copy, Debug, PartialEq, Eq, Structural)]
pub struct UpdateArgs {
    /// The first identifier: the widget type to implement `Update` for.
    pub ty: Option<usize>,
    /// The second identifier: the native function that draws the widget.
    pub fun: Option<usize>,
    /// The last group: the arguments of the native call.
    pub param: Option<usize>,
    /// The third identifier: the field that holds the callback.
    pub callback: Option<usize>,
    /// The fourth identifier: the field whose change fires the callback.
    pub callback_val: Option<usize>,
}

/// The two implementations of `Update` that `impl_Update!` writes.
#[derive(Clone, Copy, Debug, PartialEq, Eq, Structural)]
pub enum UpdateTemplate {
    /// Draws the widget and never fires.
    Plain,
    /// Draws the widget and fires the callback when the watched field has
    /// changed.
    Watching,
}

impl UpdateArgs {
    /// The implementation that these arguments ask for: the watching one
    /// where a callback field is named.
    pub open spec fn spec_template(&self) -> UpdateTemplate {
        if self.callback is Some {
            UpdateTemplate::Watching
        } else {
            UpdateTemplate::Plain
        }
    }

    #[verifier::when_used_as_spec(spec_template)]
    pub fn template(&self) -> (t: UpdateTemplate)
        ensures
            t == self.spec_template(),
    {
        if self.callback.is_some() {
            UpdateTemplate::Watching
        } else {
            UpdateTemplate::Plain
        }
    }
}

/// `args` is what `impl_Update!` reads from `tokens`: the first four
/// identifiers, in the order type, native function, callback field and
/// watched field, and the last group.
pub open spec fn reads_update(tokens: Seq<TokenKind>, args: UpdateArgs) -> bool {
    &&& finds(tokens, only(TokenKind::Ident), 0, args.ty)
    &&& finds(tokens, only(TokenKind::Ident), 1, args.fun)
    &&& finds(tokens, only(TokenKind::Ident), 2, args.callback)
    &&& finds(tokens, only(TokenKind::Ident), 3, args.callback_val)
    &&& is_last(tokens, TokenKind::Group, args.param)
}

/// Picks the arguments of `impl_Update!` out of the kinds of its tokens.
/// Punctuation is passed over, and so is every identifier behind the
/// fourth.
pub fn update_args(tokens: &Vec<TokenKind>) -> (args: UpdateArgs)
    ensures
        reads_update(tokens@, args),
{
    UpdateArgs {
        ty: nth_of_kind(tokens, TokenKind::Ident, 0),
        fun: nth_of_kind(tokens, TokenKind::Ident, 1),
        param: last_of_kind(tokens, TokenKind::Group),
        callback: nth_of_kind(tokens, TokenKind::Ident, 2),
        callback_val: nth_of_kind(tokens, TokenKind::Ident, 3),
    }
}

/// Reads the arguments of `impl_Update!` from the kinds of its tokens. A literal among them is refused:
/// the answer is then `Err` with the refusal that the first refused token
/// brings.
pub fn read_update(tokens: &Vec<TokenKind>) -> (read: Result<UpdateArgs, Refusal>)
    ensures
        match read {
            Ok(args) => is_first_refused(tokens@, false, None) && reads_update(tokens@, args),
            Err(refusal) => refuses(tokens@, false, refusal),
        },
{
    match first_refused(tokens, false) {
        Some(i) => {
            assert(is_first_refused(tokens@, false, Some(i)));
            if tokens[i] == TokenKind::Group {
                Err(Refusal::Group)
            } else {
                Err(Refusal::Literal)
            }
        },
        None => Ok(update_args(tokens)),
    }
}

/// Reads the arguments of `impl_Update!` from the stream that the macro is handed,
/// as `read_update` reads them from the kinds of its token trees.
#[allow(non_snake_case)]
pub fn impl_Update(input: proc_macro2::TokenStream) -> (read: Result<UpdateArgs, Refusal>)
    ensures
        match read {
            Ok(args) => is_first_refused(kinds(input), false, None) && reads_update(kinds(input), args),
            Err(refusal) => refuses(kinds(input), false, refusal),
        },
{
    let tokens = kinds_of(input);
    read_update(&tokens)
}

/// What `impl_Add!` reads from its arguments, each as an index into them.
#[derive(Clone, Copy, Debug, PartialEq, Eq, Structural)]
pub struct AddArgs {
    /// The first identifier: the widget type that can be added.
    pub ty: Option<usize>,
    /// The second identifier: the field of the container that collects the
    /// widgets of that type.
    pub window_widget_container: Option<usize>,
}

/// `args` is what `impl_Add!` reads from `tokens`: the first two
/// identifiers.
pub open spec fn reads_add(tokens: Seq<TokenKind>, args: AddArgs) -> bool {
    &&& finds(tokens, only(TokenKind::Ident), 0, args.ty)
    &&& finds(tokens, only(TokenKind::Ident), 1, args.window_widget_container)
}

/// Picks the arguments of `impl_Add!` out of the kinds of its tokens.
/// Punctuation is passed over, and so is every identifier behind the
/// second.
pub fn add_args(tokens: &Vec<TokenKind>) -> (args: AddArgs)
    ensures
        reads_add(tokens@, args),
{
    AddArgs {
        ty: nth_of_kind(tokens, TokenKind::Ident, 0),
        window_widget_container: nth_of_kind(tokens, TokenKind::Ident, 1),
    }
}

/// Reads the arguments of `impl_Add!` from the kinds of its tokens. A group or a literal among them is refused:
/// the answer is then `Err` with the refusal that the first refused token
/// brings.
pub fn read_add(tokens: &Vec<TokenKind>) -> (read: Result<AddArgs, Refusal>)
    ensures
        match read {
            Ok(args) => is_first_refused(tokens@, true, None) && reads_add(tokens@, args),
            Err(refusal) => refuses(tokens@, true, refusal),
        },
{
    match first_refused(tokens, true) {
        Some(i) => {
            assert(is_first_refused(tokens@, true, Some(i)));
            if tokens[i] == TokenKind::Group {
                Err(Refusal::Group)
            } else {
                Err(Refusal::Literal)
            }
        },
        None => Ok(add_args(tokens)),
    }
}

/// Reads the arguments of `impl_Add!` from the stream that the macro is handed,
/// as `read_add` reads them from the kinds of its token trees.
#[allow(non_snake_case)]
pub fn impl_Add(input: proc_macro2::TokenStream) -> (read: Result<AddArgs, Refusal>)
    ensures
        match read {
            Ok(args) => is_first_refused(kinds(input), true, None) && reads_add(kinds(input), args),
            Err(refusal) => refuses(kinds(input), true, refusal),
        },
{
    let tokens = kinds_of(input);
    read_add(&tokens)
}

/// What `impl_Set!` reads from its arguments, each as an index into them.
#[derive(Clone, Copy, Debug, PartialEq, Eq, Structural)]
pub struct SetArgs {
    /// The first identifier: the widget type to implement `Set` for.
    pub ty: Option<usize>,
    /// The second identifier: the type of the value that is set.
    pub ty2: Option<usize>,
    /// The third identifier: the field that takes the value.
    pub val: Option<usize>,
}

/// `args` is what `impl_Set!` reads from `tokens`: the first three
/// identifiers.
pub open spec fn reads_set(tokens: Seq<TokenKind>, args: SetArgs) -> bool {
    &&& finds(tokens, only(TokenKind::Ident), 0, args.ty)
    &&& finds(tokens, only(TokenKind::Ident), 1, args.ty2)
    &&& finds(tokens, only(TokenKind::Ident), 2, args.val)
}

/// Picks the arguments of `impl_Set!` out of the kinds of its tokens.
/// Punctuation is passed over, and so is every identifier behind the
/// third.
pub fn set_args(tokens: &Vec<TokenKind>) -> (args: SetArgs)
    ensures
        reads_set(tokens@, args),
{
    SetArgs {
        ty: nth_of_kind(tokens, TokenKind::Ident, 0),
        ty2: nth_of_kind(tokens, TokenKind::Ident, 1),
        val: nth_of_kind(tokens, TokenKind::Ident, 2),
    }
}

/// Reads the arguments of `impl_Set!` from the kinds of its tokens. A group or a literal among them is refused:
/// the answer is then `Err` with the refusal that the first refused token
/// brings.
pub fn read_set(tokens: &Vec<TokenKind>) -> (read: Result<SetArgs, Refusal>)
    ensures
        match read {
            Ok(args) => is_first_refused(tokens@, true, None) && reads_set(tokens@, args),
            Err(refusal) => refuses(tokens@, true, refusal),
        },
{
    match first_refused(tokens, true) {
        Some(i) => {
            assert(is_first_refused(tokens@, true, Some(i)));
            if tokens[i] == TokenKind::Group {
                Err(Refusal::Group)
            } else {
                Err(Refusal::Literal)
            }
        },
        None => Ok(set_args(tokens)),
    }
}

/// Reads the arguments of `impl_Set!` from the stream that the macro is handed,
/// as `read_set` reads them from the kinds of its token trees.
#[allow(non_snake_case)]
pub fn impl_Set(input: proc_macro2::TokenStream) -> (read: Result<SetArgs, Refusal>)
    ensures
        match read {
            Ok(args) => is_first_refused(kinds(input), true, None) && reads_set(kinds(input), args),
            Err(refusal) => refuses(kinds(input), true, refusal),
        },
{
    let tokens = kinds_of(input);
    read_set(&tokens)
}

/// One token of a macro's arguments, with its text.
pub struct Token {
    pub kind: TokenKind,
    pub text: String,
}

/// A kind's name, as `what` prints it.
pub open spec fn kind_name(kind: TokenKind) -> Seq<char> {
    match kind {
        TokenKind::Group => "Group"@,
        TokenKind::Ident => "Ident"@,
        TokenKind::Punct => "Punct"@,
        TokenKind::Literal => "Literal"@,
    }
}

/// The line that `what` prints for a token: the kind's name, a space, and
/// the token's text.
pub open spec fn line(token: Token) -> Seq<char> {
    kind_name(token.kind) + " "@ + token.text@
}

/// The name of a kind.
fn name_of(kind: TokenKind) -> (name: &'static str)
    ensures
        name@ == kind_name(kind),
{
    match kind {
        TokenKind::Group => "Group",
        TokenKind::Ident => "Ident",
        TokenKind::Punct => "Punct",
        TokenKind::Literal => "Literal",
    }
}

/// One line for each token, in order, that tells its kind and its text.
pub fn what(tokens: &Vec<Token>) -> (lines: Vec<String>)
    ensures
        lines@.len() == tokens@.len(),
        forall|i: int| 0 <= i < tokens@.len() ==> (#[trigger] lines@[i])@ == line(tokens@[i]),
{
    let mut lines: Vec<String> = Vec::new();
    let mut i: usize = 0;
    while i < tokens.len()
        invariant
            i <= tokens.len(),
            lines@.len() == i,
            forall|j: int| 0 <= j < i ==> (#[trigger] lines@[j])@ == line(tokens@[j]),
        decreases tokens.len() - i,
    {
        let mut text = name_of(tokens[i].kind).to_owned();
        text.append(" ");
        text.append(tokens[i].text.as_str());
        lines.push(text);
        i = i + 1;
    }
    lines
}

} // verus!
