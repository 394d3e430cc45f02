//! Reading the user's answers to questions.

use vstd::prelude::*;

use crate::text::{spec_trim, str_eq, trim};

verus! {

/// The question asked for a yes/no answer: a critical question wants a
/// capital `Y`.
pub open spec fn bool_prompt(message: Seq<char>, critical: bool) -> Seq<char> {
    message + if critical { " (Y, n)"@ } else { " (y, n)"@ }
}

/// Builds the question asked for a yes/no answer (see `bool_prompt`).
pub fn ask_bool_prompt(message: &str, critical: bool) -> (r: String)
    ensures
        r@ == bool_prompt(message@, critical),
{
    let mut r = message.to_string();
    if critical {
        r.append(" (Y, n)");
    } else {
        r.append(" (y, n)");
    }
    r
}

/// What a yes/no answer means, once trimmed: `Y` is yes, and `y` too unless
/// the question is critical; `n`, `N` and nothing are no; anything else
/// means the question is asked again.
pub open spec fn bool_answer(answer: Seq<char>, critical: bool) -> Option<bool> {
    let a = spec_trim(answer);
    if a == "Y"@ {
        Some(true)
    } else if a == "y"@ {
        if critical { None } else { Some(true) }
    } else if a == "n"@ || a == "N"@ || a.len() == 0 {
        Some(false)
    } else {
        None
    }
}

/// Reads one answer to a yes/no question (see `bool_answer`); `None` means
/// that the question is to be asked again.
pub fn ask_bool(answer: &str, critical: bool) -> (r: Option<bool>)
    ensures
        r == bool_answer(answer@, critical),
{
    let a = trim(answer);
    proof {
        reveal_strlit("Y");
        reveal_strlit("y");
        reveal_strlit("n");
        reveal_strlit("N");
    }
    if str_eq(a.as_str(), "Y") {
        Some(true)
    } else if str_eq(a.as_str(), "y") {
        if critical { None } else { Some(true) }
    } else if str_eq(a.as_str(), "n") || str_eq(a.as_str(), "N") || a.as_str().is_empty() {
        Some(false)
    } else {
        None
    }
}

/// The text the user typed, trimmed where asked.
pub fn ask_string(answer: String, trim_answer: bool) -> (r: String)
    ensures
        trim_answer ==> r@ == spec_trim(answer@),
        !trim_answer ==> r@ == answer@,
{
    if trim_answer {
        trim(answer.as_str())
    } else {
        answer
    }
}

} // verus!
