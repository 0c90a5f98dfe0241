//! The greeting: a fixed template around the caller's name.

use vstd::prelude::*;

verus! {

/// The text that stands before the name in every greeting.
pub open spec fn greeting_prefix() -> Seq<char> {
    "Hello, "@
}

/// The text that stands after the name in every greeting.
pub open spec fn greeting_suffix() -> Seq<char> {
    "! You've been greeted from Rust!"@
}

/// The greeting for `name`: the prefix, the name as given, the suffix.
pub open spec fn greeting(name: Seq<char>) -> Seq<char> {
    greeting_prefix() + name + greeting_suffix()
}

/// `needle` occurs in `hay` as a contiguous run starting at `at`.
pub open spec fn occurs_at(hay: Seq<char>, needle: Seq<char>, at: int) -> bool {
    &&& 0 <= at
    &&& at + needle.len() <= hay.len()
    &&& hay.subrange(at, at + needle.len()) == needle
}

/// `needle` occurs somewhere in `hay` as a contiguous run.
pub open spec fn contains_run(hay: Seq<char>, needle: Seq<char>) -> bool {
    exists|at: int| occurs_at(hay, needle, at)
}

/// Every greeting holds the name it was made for, right behind the prefix.
pub proof fn lemma_greeting_contains_name(name: Seq<char>)
    ensures
        occurs_at(greeting(name), name, greeting_prefix().len() as int),
        contains_run(greeting(name), name),
{
    let at = greeting_prefix().len() as int;
    assert(greeting(name).subrange(at, at + name.len()) =~= name);
    assert(occurs_at(greeting(name), name, at));
}

} // verus!
