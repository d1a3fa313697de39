//! Strings as sequences of characters.

use vstd::prelude::*;

verus! {

/// The texts of `parts`, one after the other.
pub open spec fn joined(parts: Seq<Seq<char>>) -> Seq<char>
    decreases parts.len(),
{
    if parts.len() == 0 {
        Seq::empty()
    } else {
        joined(parts.drop_last()) + parts.last()
    }
}

/// Writes the texts of `parts` one after the other.
pub fn join(parts: &Vec<String>) -> (text: String)
    ensures
        text@ == joined(parts.deep_view()),
{
    let mut text = String::new();
    let mut i: usize = 0;
    let ghost all = parts.deep_view();
    while i < parts.len()
        invariant
            i <= parts.len(),
            all == parts.deep_view(),
            text@ == joined(all.take(i as int)),
        decreases parts.len() - i,
    {
        proof {
            assert(all.take(i + 1).drop_last() =~= all.take(i as int));
            assert(all.take(i + 1).last() == parts[i as int]@);
        }
        text.append(parts[i].as_str());
        i = i + 1;
    }
    assert(all.take(i as int) =~= all);
    text
}

/// The characters of `text`, in order.
pub fn chars_of(text: &str) -> (chars: Vec<char>)
    ensures
        chars@ == text@,
{
    let mut chars: Vec<char> = Vec::new();
    for c in it: text.chars()
        invariant
            it.seq() == text@,
            chars@.len() == it.index(),
            forall|i: int| 0 <= i < chars@.len() ==> chars@[i] == it.seq()[i],
    {
        chars.push(c);
    }
    chars
}

} // verus!
