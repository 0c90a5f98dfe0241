//! The command surface: three operations from strings to a string or a
//! named failure. Each call stands alone; none keeps or changes any state.

use crate::greeting::{contains_run, greeting, lemma_greeting_contains_name};
use crate::path::{
    file_name_of, find_last_component, lemma_component_is_name, parent_of, SEPARATOR,
};
use crate::text::chars_of;
use vstd::prelude::*;
use vstd::string::{StrSliceExecFns, StringExecFns};

verus! {

/// Why an operation is undefined for its input.
#[derive(Clone, Copy, Debug, PartialEq, Eq, Structural)]
pub enum CommandError {
    /// The path has no final component that is a name.
    NoFileName,
    /// The path has no component before its final one.
    NoParent,
}

impl CommandError {
    /// What `message` returns, as a sequence of characters.
    pub open spec fn message_text(self) -> Seq<char> {
        match self {
            CommandError::NoFileName => "operation undefined for input: the path has no file name"@,
            CommandError::NoParent => "operation undefined for input: the path has no parent"@,
        }
    }

    /// A sentence for the caller that says what failed.
    pub fn message(&self) -> (text: String)
        ensures
            text@ == self.message_text(),
    {
        match self {
            CommandError::NoFileName => String::from_str(
                "operation undefined for input: the path has no file name",
            ),
            CommandError::NoParent => String::from_str(
                "operation undefined for input: the path has no parent",
            ),
        }
    }
}

/// What a command handed back, with the text of a success taken as a
/// sequence of characters.
pub open spec fn outcome_of(result: Result<String, CommandError>) -> Result<
    Seq<char>,
    CommandError,
> {
    match result {
        Ok(text) => Ok(text@),
        Err(error) => Err(error),
    }
}

/// Formats the greeting for `name`. Every string is accepted, the empty one
/// too, and the call never fails.
pub fn greet(name: &str) -> (out: String)
    ensures
        out@ == greeting(name@),
        contains_run(out@, name@),
{
    proof {
        lemma_greeting_contains_name(name@);
    }
    String::from_str("Hello, ").concat(name).concat("! You've been greeted from Rust!")
}

/// Returns the final component of `path` when it is a name, and fails with
/// `NoFileName` otherwise: for the empty path, for a path made of separators
/// and `.` segments alone, and for one whose final component is `..`.
pub fn get_filename(path: &str) -> (result: Result<String, CommandError>)
    ensures
        match result {
            Ok(name) => file_name_of(path@) == Some(name@),
            Err(error) => file_name_of(path@) is None && error == CommandError::NoFileName,
        },
{
    let chars = chars_of(path);
    match find_last_component(chars.as_slice(), chars.len()) {
        Some((first, behind)) => {
            proof {
                lemma_component_is_name(path@, path@.len() as int);
            }
            let is_root = chars[first] == SEPARATOR;
            let is_dot = behind - first == 1 && chars[first] == '.';
            let is_dot_dot = behind - first == 2 && chars[first] == '.' && chars[first + 1] == '.';
            if is_root || is_dot || is_dot_dot {
                Err(CommandError::NoFileName)
            } else {
                Ok(String::from_str(path.substring_char(first, behind)))
            }
        },
        None => Err(CommandError::NoFileName),
    }
}

/// Returns `path` up to the end of the component before its final one, and
/// fails with `NoParent` when `path` has fewer than two components: for the
/// empty path, for the root alone, and for a single relative component.
pub fn get_folder(path: &str) -> (result: Result<String, CommandError>)
    ensures
        match result {
            Ok(folder) => parent_of(path@) == Some(folder@),
            Err(error) => parent_of(path@) is None && error == CommandError::NoParent,
        },
{
    let chars = chars_of(path);
    match find_last_component(chars.as_slice(), chars.len()) {
        Some((first, _)) => match find_last_component(chars.as_slice(), first) {
            Some((_, parent_end)) => Ok(String::from_str(path.substring_char(0, parent_end))),
            None => Err(CommandError::NoParent),
        },
        None => Err(CommandError::NoParent),
    }
}

} // verus!
