//! Decisions of the editor window: which tab shows a file, and the cursor's place.
use vstd::prelude::*;

use crate::text::{i32_text, int_text, string_views};

verus! {

/// The first tab whose label is `name`, if any.
pub fn find_tab(labels: &Vec<String>, name: &str) -> (r: Option<usize>)
    ensures
        match r {
            Some(i) => i < labels.len() && labels@[i as int]@ == name@ && forall|j: int|
                0 <= j < i ==> #[trigger] labels@[j]@ != name@,
            None => !string_views(labels@).contains(name@),
        },
{
    let wanted = String::from_str(name);
    let mut i: usize = 0;
    while i < labels.len()
        invariant
            wanted@ == name@,
            i <= labels.len(),
            forall|j: int| 0 <= j < i ==> #[trigger] labels@[j]@ != name@,
        decreases labels.len() - i,
    {
        if labels[i] == wanted {
            return Some(i);
        }
        i = i + 1;
    }
    assert forall|j: int| 0 <= j < string_views(labels@).len() implies string_views(labels@)[j]
        != name@ by {
        assert(string_views(labels@)[j] == labels@[j]@);
    }
    None
}

/// The cursor's place as the status line shows it: the line counted from 1, a
/// colon, and the offset within the line counted from 0.
pub fn cursor_label(line: i32, offset: i32) -> (s: String)
    requires
        line < i32::MAX,
    ensures
        s@ == int_text(line + 1) + ":"@ + int_text(offset as int),
{
    let mut s = i32_text(line + 1);
    s.append(":");
    let rest = i32_text(offset);
    s.append(rest.as_str());
    s
}

} // verus!
