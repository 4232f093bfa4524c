//! Labels as the native toolkit wants them: text that ends in a NUL character.

use vstd::prelude::*;
use vstd::string::*;

verus! {

/// `label` with one NUL character behind it, unless it already ends in one.
pub open spec fn terminated(label: Seq<char>) -> Seq<char> {
    if label.len() > 0 && label.last() == '\0' {
        label
    } else {
        label.push('\0')
    }
}

/// Whether `label` is fit to be handed to the native toolkit: its last
/// character is NUL.
pub open spec fn is_terminated(label: Seq<char>) -> bool {
    label.len() > 0 && label.last() == '\0'
}

/// A label that was given its NUL is fit for the native toolkit, and is
/// given no second one.
pub proof fn lemma_terminated_once(label: Seq<char>)
    ensures
        is_terminated(terminated(label)),
        terminated(terminated(label)) == terminated(label),
        is_terminated(label) ==> terminated(label) == label,
{
}

/// An owned copy of `label` that ends in a NUL character. A label that ends
/// in one already is copied as it is.
pub fn terminate(label: &str) -> (owned: String)
    ensures
        owned@ == terminated(label@),
        is_terminated(owned@),
{
    let n: usize = label.unicode_len();
    let mut owned = label.to_owned();
    if n == 0 || label.get_char(n - 1) != '\0' {
        proof {
            reveal_strlit("\0");
        }
        owned.append("\0");
        assert(owned@ =~= label@.push('\0'));
    }
    owned
}

} // verus!
