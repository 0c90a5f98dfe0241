//! What holds of the commands over all inputs: the same input gives the same
//! outcome, whichever call makes it and however often.

use crate::commands::{get_filename, get_folder, greet, outcome_of, CommandError};
use vstd::prelude::*;

verus! {

/// Two calls of `greet` on names of the same text return the same text.
pub proof fn lemma_greet_repeatable(
    first_name: &str,
    second_name: &str,
    first: String,
    second: String,
)
    requires
        first_name@ == second_name@,
        call_ensures(greet, (first_name,), first),
        call_ensures(greet, (second_name,), second),
    ensures
        first@ == second@,
{
}

/// Two calls of `get_filename` on paths of the same text end alike: both
/// return the same name, or both fail with the same error.
pub proof fn lemma_get_filename_repeatable(
    first_path: &str,
    second_path: &str,
    first: Result<String, CommandError>,
    second: Result<String, CommandError>,
)
    requires
        first_path@ == second_path@,
        call_ensures(get_filename, (first_path,), first),
        call_ensures(get_filename, (second_path,), second),
    ensures
        outcome_of(first) == outcome_of(second),
{
}

/// Two calls of `get_folder` on paths of the same text end alike: both
/// return the same folder, or both fail with the same error.
pub proof fn lemma_get_folder_repeatable(
    first_path: &str,
    second_path: &str,
    first: Result<String, CommandError>,
    second: Result<String, CommandError>,
)
    requires
        first_path@ == second_path@,
        call_ensures(get_folder, (first_path,), first),
        call_ensures(get_folder, (second_path,), second),
    ensures
        outcome_of(first) == outcome_of(second),
{
}

} // verus!
