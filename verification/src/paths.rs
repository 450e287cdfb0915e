//! Joining a directory and a file name, as `Path::join` does for a relative,
//! single-component name.

use vstd::prelude::*;

use crate::text::{owned, push_char};

verus! {

/// `dir` joined with the relative name `name`: a separator is added unless
/// `dir` is empty or already ends with one.
pub open spec fn joined(dir: Seq<char>, name: Seq<char>) -> Seq<char> {
    if dir.len() == 0 {
        name
    } else if dir.last() == '/' {
        dir + name
    } else {
        dir.push('/') + name
    }
}

/// Joins `dir` and the relative name `name`.
pub fn join_path(dir: &str, name: &str) -> (r: String)
    ensures
        r@ == joined(dir@, name@),
{
    let chars = crate::text::chars_of(dir);
    if chars.len() == 0 {
        return owned(name);
    }
    let mut r = owned(dir);
    if chars[chars.len() - 1] != '/' {
        push_char(&mut r, '/');
    }
    r.append(name);
    r
}

} // verus!
