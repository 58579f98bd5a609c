//! The flags implied by the name under which the program was started.

use vstd::prelude::*;
use crate::text::str_eq;

verus! {

/// The flags that a program name (its file stem) stands for: `ll` is `-l`,
/// `la` is `-la`, `l` is `-F`.
pub fn get_alias_flags(stem: &str) -> (r: Option<&'static str>)
    ensures
        stem@ == "ll"@ ==> (r matches Some(f) && f@ == "-l"@),
        stem@ == "la"@ ==> (r matches Some(f) && f@ == "-la"@),
        stem@ == "l"@ ==> (r matches Some(f) && f@ == "-F"@),
        stem@ != "ll"@ && stem@ != "la"@ && stem@ != "l"@ ==> r is None,
{
    proof {
        reveal_strlit("ll");
        reveal_strlit("la");
        reveal_strlit("l");
        assert("la"@[1] != "ll"@[1]);
        assert("l"@.len() != "ll"@.len());
        assert("l"@.len() != "la"@.len());
    }
    if str_eq(stem, "ll") {
        Some("-l")
    } else if str_eq(stem, "la") {
        Some("-la")
    } else if str_eq(stem, "l") {
        Some("-F")
    } else {
        None
    }
}

} // verus!
