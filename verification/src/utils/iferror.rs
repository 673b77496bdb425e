use vstd::prelude::*;
use crate::text::push_all;

verus! {

/// The line to log for the outcome of a table change: none where it worked, else `error: `
/// and the error.
pub fn iferror(x: Result<(), String>) -> (line: Option<String>)
    ensures
        match x {
            Ok(()) => line is None,
            Err(e) => line matches Some(l) && l@ == "error: "@ + e@,
        },
{
    match x {
        Ok(()) => None,
        Err(e) => {
            let mut l = "error: ".to_string();
            push_all(&mut l, e.as_str());
            Some(l)
        },
    }
}

} // verus!
