//! Which entries of a Qt framework tree are copied into the bundle.

use vstd::prelude::*;

verus! {

broadcast use vstd::string::group_string_axioms;

/// Qt `Headers` trees are compile-time only and are not needed at runtime.
pub fn skip_entry(name: &str) -> (r: bool)
    ensures
        r == (name@ == "Headers"@),
{
    crate::text::str_is(name, "Headers")
}

} // verus!
