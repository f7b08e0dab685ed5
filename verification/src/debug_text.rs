//! Debug-style texts: a string as `{:?}` shows it, and lists of such items.

use vstd::prelude::*;

verus! {

/// The text that `{:?}` gives for the string `s`: std's `Debug` for `str`,
/// a quoted and escaped form that depends on `s` alone.
pub uninterp spec fn str_debug(s: Seq<char>) -> Seq<char>;

/// `format!("{:?}", s)` for a `str`: its text is [`str_debug`] of `s`, which
/// depends on `s` alone. The escaping itself (quotes, backslashes, control
/// and non-printable characters) is std's and is not stated here.
#[verifier::external_body]
pub(crate) fn debug_str(s: &str) -> (r: String)
    ensures
        r@ == str_debug(s@),
{
    format!("{:?}", s)
}

/// The items separated by `", "`, as `Debug` writes list and map entries.
pub open spec fn joined(items: Seq<Seq<char>>) -> Seq<char>
    decreases items.len(),
{
    if items.len() == 0 {
        Seq::empty()
    } else if items.len() == 1 {
        items[0]
    } else {
        joined(items.drop_last()) + ", "@ + items.last()
    }
}

/// One step of writing a joined list: after the first `i` items, write the
/// next one.
pub proof fn lemma_joined_step(items: Seq<Seq<char>>, i: int)
    requires
        0 <= i < items.len(),
    ensures
        joined(items.subrange(0, i + 1)) == if i == 0 {
            items[0]
        } else {
            joined(items.subrange(0, i)) + ", "@ + items[i]
        },
{
    let sub = items.subrange(0, i + 1);
    assert(sub.drop_last() =~= items.subrange(0, i));
    assert(sub.last() == items[i]);
    if i == 0 {
        assert(sub.len() == 1);
        assert(sub[0] == items[0]);
    }
}

} // verus!
