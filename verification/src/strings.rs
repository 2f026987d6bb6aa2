//! Small functions that build a string from borrowed ones.

use vstd::prelude::*;

verus! {

/// A new string that holds `s1` followed by `s2`.
pub fn concat_strings(s1: &String, s2: &String) -> (joined: String)
    ensures
        joined@ == s1@ + s2@,
{
    let mut result = String::new();
    result.append(s1.as_str());
    result.append(s2.as_str());
    result
}

/// A copy of `s` with `"World!"` behind it; `s` itself stays as it is.
pub fn clone_and_modify(s: &String) -> (modified: String)
    ensures
        modified@ == s@ + "World!"@,
{
    let mut modified_string = s.clone();
    modified_string.append("World!");
    modified_string
}

} // verus!
