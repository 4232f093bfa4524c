//! A field that edits a text.

use crate::label::{is_terminated, terminate, terminated};
use crate::native::{Draw, DrawView, ImGuiGlue, Seen, SeenView};
use crate::widget::{Get, Update, Widget, WidgetView};
use vstd::prelude::*;

verus! {

/// The number of characters in the buffer of a new text field.
pub const BUFFER_SIZE: i32 = 255;

/// A text field with its label and the buffer that the native toolkit
/// edits. The buffer is always 255 characters long and holds a NUL; the
/// text of the field is what stands in the buffer before the first NUL.
pub struct InputText {
    label: String,
    value: String,
    buffer_size: i32,
}

/// What an [`InputText`] holds.
pub struct InputTextView {
    pub label: Seq<char>,
    pub value: Seq<char>,
    pub buffer_size: i32,
}

/// The characters of `buffer` that stand before its first NUL; all of them
/// where it holds none.
pub open spec fn before_nul(buffer: Seq<char>) -> Seq<char>
    decreases buffer.len(),
{
    if buffer.len() == 0 || buffer[0] == '\0' {
        Seq::empty()
    } else {
        seq![buffer[0]] + before_nul(buffer.drop_first())
    }
}

/// `buffer` is one that a text field can hold: it is 255 characters long
/// and holds a NUL.
pub open spec fn fits(buffer: Seq<char>) -> bool {
    buffer.len() == 255 && buffer.contains('\0')
}

/// A buffer of `n` NUL characters.
pub open spec fn blank(n: nat) -> Seq<char> {
    Seq::new(n, |i: int| '\0')
}

/// The text before the first NUL is the prefix that ends there.
pub proof fn lemma_before_nul(buffer: Seq<char>, end: int)
    requires
        0 <= end <= buffer.len(),
        forall|j: int| 0 <= j < end ==> buffer[j] != '\0',
        end < buffer.len() ==> buffer[end] == '\0',
    ensures
        before_nul(buffer) == buffer.take(end),
    decreases end,
{
    if end == 0 {
        assert(buffer.take(0) =~= Seq::empty());
    } else {
        let rest = buffer.drop_first();
        assert forall|j: int| 0 <= j < end - 1 implies rest[j] != '\0' by {
            assert(rest[j] == buffer[j + 1]);
        }
        lemma_before_nul(rest, end - 1);
        assert(buffer.take(end) =~= seq![buffer[0]] + rest.take(end - 1));
    }
}

/// Whether `text` holds a NUL.
fn has_nul(text: &str) -> (found: bool)
    ensures
        found == text@.contains('\0'),
{
    let n: usize = text.unicode_len();
    let mut i: usize = 0;
    while i < n
        invariant
            i <= n,
            n == text@.len(),
            forall|j: int| 0 <= j < i ==> text@[j] != '\0',
        decreases n - i,
    {
        if text.get_char(i) == '\0' {
            return true;
        }
        i = i + 1;
    }
    false
}

impl View for InputText {
    type V = InputTextView;

    closed spec fn view(&self) -> InputTextView {
        InputTextView { label: self.label@, value: self.value@, buffer_size: self.buffer_size }
    }
}

impl InputText {
    #[verifier::type_invariant]
    spec fn sound(self) -> bool {
        fits(self.value@) && self.buffer_size == BUFFER_SIZE
    }

    /// An empty text field, under `label` with a NUL at its end. Its buffer
    /// holds 255 NUL characters.
    pub fn new(label: &str) -> (field: Self)
        ensures
            field@ == (InputTextView {
                label: terminated(label@),
                value: blank(255),
                buffer_size: BUFFER_SIZE,
            }),
            is_terminated(field@.label),
            fits(field@.value),
    {
        let label = terminate(label);
        let mut string = String::new();
        let mut i: usize = 0;
        while i < 255
            invariant
                i <= 255,
                string@ == blank(i as nat),
            decreases 255 - i,
        {
            proof {
                reveal_strlit("\0");
            }
            string.append("\0");
            i = i + 1;
            assert(string@ =~= blank(i as nat));
        }
        assert(string@[0] == '\0');
        InputText { label, value: string, buffer_size: BUFFER_SIZE }
    }
}

/// A field whose buffer fits holds one that fits after every native call,
/// and keeps the size of its buffer.
pub proof fn lemma_settled_fits(model: InputTextView, seen: SeenView)
    requires
        fits(model.value),
    ensures
        fits(InputText::settled(model, seen).value),
        InputText::settled(model, seen).buffer_size == model.buffer_size,
{
}

/// The text before the first NUL of a buffer that fits is at most 254
/// characters long and holds no NUL.
pub proof fn lemma_text_short(buffer: Seq<char>)
    requires
        fits(buffer),
    ensures
        before_nul(buffer).len() <= 254,
        !before_nul(buffer).contains('\0'),
{
    let end = choose|end: int| 0 <= end < buffer.len() && buffer[end] == '\0';
    lemma_first_nul(buffer, end);
}

/// Where a buffer holds a NUL, the text before the first one ends there.
proof fn lemma_first_nul(buffer: Seq<char>, at: int)
    requires
        0 <= at < buffer.len(),
        buffer[at] == '\0',
    ensures
        before_nul(buffer).len() <= at,
        !before_nul(buffer).contains('\0'),
    decreases buffer.len(),
{
    if buffer[0] != '\0' {
        let rest = buffer.drop_first();
        lemma_first_nul(rest, at - 1);
        let text = before_nul(rest);
        assert forall|i: int| 0 <= i < before_nul(buffer).len() implies before_nul(buffer)[i]
            != '\0' by {
            if i > 0 {
                assert(before_nul(buffer)[i] == text[i - 1]);
                assert(text.contains(text[i - 1]));
            }
        }
    }
}

impl ImGuiGlue for InputText {
    open spec fn call(model: InputTextView) -> DrawView {
        DrawView::InputText {
            label: model.label,
            value: model.value,
            buffer_size: model.buffer_size,
            flags: 0,
        }
    }

    fn render(&self) -> (draw: Draw)
        ensures
            fits(self@.value),
            self@.buffer_size == BUFFER_SIZE,
    {
        proof {
            use_type_invariant(self);
        }
        Draw::InputText {
            label: self.label.clone(),
            value: self.value.clone(),
            buffer_size: self.buffer_size,
            flags: 0,
        }
    }
}

impl Update for InputText {
    open spec fn pick(widget: WidgetView) -> Option<InputTextView> {
        match widget {
            WidgetView::InputText(model) => Some(model),
            _ => None,
        }
    }

    open spec fn wrap(model: InputTextView) -> WidgetView {
        WidgetView::InputText(model)
    }

    /// The native call leaves behind the buffer as it was edited. A buffer
    /// that does not fit is none that the call leaves behind.
    open spec fn settled(model: InputTextView, seen: SeenView) -> InputTextView {
        match seen {
            SeenView::Text(buffer) => if fits(buffer) {
                InputTextView { value: buffer, ..model }
            } else {
                model
            },
            _ => model,
        }
    }

    /// A text field never fires.
    open spec fn fires(before: InputTextView, after: InputTextView) -> bool {
        false
    }

    proof fn pick_wrap(model: InputTextView) {
    }

    proof fn wrap_pick(widget: WidgetView) {
    }

    fn update(&mut self, seen: Seen) -> (fire: bool) {
        if let Seen::Text(buffer) = seen {
            if buffer.as_str().unicode_len() == 255 && has_nul(buffer.as_str()) {
                proof {
                    use_type_invariant(&*self);
                }
                self.value = buffer;
            }
        }
        false
    }

    fn into_widget(self) -> (widget: Widget) {
        Widget::InputText(self)
    }

    fn downcast_ref(widget: &Widget) -> (found: Option<&Self>) {
        match widget {
            Widget::InputText(field) => Some(field),
            _ => None,
        }
    }

    fn downcast_mut(widget: &mut Widget) -> (found: Option<&mut Self>) {
        match widget {
            Widget::InputText(field) => Some(field),
            _ => None,
        }
    }
}

impl Get<String> for InputText {
    /// The text of the field: what stands in the buffer before the first
    /// NUL.
    open spec fn read(model: InputTextView) -> Seq<char> {
        before_nul(model.value)
    }

    fn get(&self) -> (value: String)
        ensures
            fits(self@.value),
            value@.len() <= 254,
            !value@.contains('\0'),
    {
        proof {
            use_type_invariant(self);
            lemma_text_short(self.value@);
        }
        let buffer = self.value.as_str();
        let n: usize = buffer.unicode_len();
        let mut end: usize = 0;
        while end < n && buffer.get_char(end) != '\0'
            invariant
                end <= n,
                n == buffer@.len(),
                forall|j: int| 0 <= j < end ==> buffer@[j] != '\0',
            decreases n - end,
        {
            end = end + 1;
        }
        proof {
            lemma_before_nul(buffer@, end as int);
        }
        buffer.substring_char(0, end).to_owned()
    }
}

} // verus!
