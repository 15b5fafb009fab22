use crate::text::{contains_text, text_contains};
use vstd::prelude::*;

verus! {

/// Whether one of the hook commands calls for the state: whether one of
/// them holds the text `legend get_state`. A settings file in which one
/// does has its hooks set up already.
pub fn mentions_get_state(commands: &Vec<String>) -> (found: bool)
    ensures
        found == exists|i: int|
            0 <= i < commands@.len() && text_contains(
                #[trigger] commands@[i]@,
                "legend get_state"@,
            ),
{
    let mut i: usize = 0;
    while i < commands.len()
        invariant
            i <= commands.len(),
            forall|j: int|
                0 <= j < i ==> !text_contains(#[trigger] commands@[j]@, "legend get_state"@),
        decreases commands.len() - i,
    {
        if contains_text(commands[i].as_str(), "legend get_state") {
            return true;
        }
        i += 1;
    }
    false
}

} // verus!
