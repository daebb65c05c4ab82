//! Choosing the description file of a song folder.

use vstd::prelude::*;
use crate::text::chars_of;

verus! {

/// A file name that ends in `.txt`.
pub open spec fn is_description_name(s: Seq<char>) -> bool {
    s.len() >= 4 && s.skip(s.len() - 4) == seq!['.', 't', 'x', 't']
}

/// Whether a file name ends in `.txt`.
pub fn is_description(name: &str) -> (r: bool)
    ensures
        r == is_description_name(name@),
{
    let v = chars_of(name);
    let n = v.len();
    if n < 4 {
        return false;
    }
    let r = v[n - 4] == '.' && v[n - 3] == 't' && v[n - 2] == 'x' && v[n - 1] == 't';
    assert(r ==> v@.skip(n - 4) =~= seq!['.', 't', 'x', 't']);
    assert(v@.skip(n - 4) == seq!['.', 't', 'x', 't'] ==> v@.skip(n - 4)[0] == '.' && v@.skip(n
        - 4)[1] == 't' && v@.skip(n - 4)[2] == 'x' && v@.skip(n - 4)[3] == 't');
    r
}

/// The position of the first `.txt` file among the names of a folder's
/// files, which is the one read; `None` where there is none and the
/// folder is skipped.
pub fn pick_description(names: &Vec<String>) -> (r: Option<usize>)
    ensures
        match r {
            Some(i) => i < names.len() && is_description_name(names@[i as int]@) && forall|k: int|
                0 <= k < i ==> !is_description_name(#[trigger] names@[k]@),
            None => forall|k: int|
                0 <= k < names.len() ==> !is_description_name(#[trigger] names@[k]@),
        },
{
    let mut i: usize = 0;
    while i < names.len()
        invariant
            i <= names.len(),
            forall|k: int| 0 <= k < i ==> !is_description_name(#[trigger] names@[k]@),
        decreases names.len() - i,
    {
        if is_description(names[i].as_str()) {
            return Some(i);
        }
        i += 1;
    }
    None
}

} // verus!
