//! Lexical decomposition of a path into components.
//!
//! A path is a sequence of characters in which `/` separates segments, on
//! every platform: a `\` is a character like any other. Nothing is looked up
//! on disk and nothing is resolved: the text alone decides.
//!
//! The components of a path are, from the left:
//! - the root, which is a `/` in first position;
//! - a `.` in first position, when it is a whole segment;
//! - every later segment that is neither empty nor `.`.
//!
//! Empty segments (repeated or trailing separators) and later `.` segments
//! are filler between components.

use vstd::prelude::*;

verus! {

/// The character that separates the segments of a path.
pub const SEPARATOR: char = '/';

/// The segment `.`.
pub open spec fn dot() -> Seq<char> {
    seq!['.']
}

/// The segment `..`.
pub open spec fn dot_dot() -> Seq<char> {
    seq!['.', '.']
}

/// Where the separator-free run that ends at `end` begins: the position
/// behind the last separator before `end`, or 0 when there is none.
pub open spec fn run_start(path: Seq<char>, end: int) -> int
    recommends
        0 <= end <= path.len(),
    decreases end,
{
    if end <= 0 {
        0
    } else if path[end - 1] == SEPARATOR {
        end
    } else {
        run_start(path, end - 1)
    }
}

/// The last component of `path` that lies wholly before position `end`, as
/// the pair of its first position and the position behind its last, or
/// `None` when no component lies there.
pub open spec fn last_component(path: Seq<char>, end: int) -> Option<(int, int)>
    recommends
        0 <= end <= path.len(),
    decreases end,
{
    if end <= 0 {
        None
    } else if path[end - 1] == SEPARATOR {
        if end == 1 {
            Some((0, 1))
        } else {
            last_component(path, end - 1)
        }
    } else {
        let start = run_start(path, end);
        if start > 0 && start == end - 1 && path[start] == '.' {
            last_component(path, end - 1)
        } else {
            Some((start, end))
        }
    }
}

/// `text` can be the name of a file or directory: it is not empty, holds no
/// separator, and is neither `.` nor `..`.
pub open spec fn is_name(text: Seq<char>) -> bool {
    &&& text.len() > 0
    &&& !text.contains(SEPARATOR)
    &&& text != dot()
    &&& text != dot_dot()
}

/// The final component of `path`, when it is a name.
pub open spec fn file_name_of(path: Seq<char>) -> Option<Seq<char>> {
    match last_component(path, path.len() as int) {
        Some((start, end)) => {
            let text = path.subrange(start, end);
            if is_name(text) {
                Some(text)
            } else {
                None
            }
        },
        None => None,
    }
}

/// `path` up to the end of the component before its final one, when it has
/// two components or more.
pub open spec fn parent_of(path: Seq<char>) -> Option<Seq<char>> {
    match last_component(path, path.len() as int) {
        Some((start, _)) => match last_component(path, start) {
            Some((_, parent_end)) => Some(path.subrange(0, parent_end)),
            None => None,
        },
        None => None,
    }
}

/// A run starts at or before its end, and never before the path does.
pub proof fn lemma_run_start_bounds(path: Seq<char>, end: int)
    requires
        0 <= end <= path.len(),
    ensures
        0 <= run_start(path, end) <= end,
        run_start(path, end) == end <==> (end == 0 || path[end - 1] == SEPARATOR),
        run_start(path, end) > 0 ==> path[run_start(path, end) - 1] == SEPARATOR,
        forall|k: int| run_start(path, end) <= k < end ==> path[k] != SEPARATOR,
    decreases end,
{
    if end > 0 && path[end - 1] != SEPARATOR {
        lemma_run_start_bounds(path, end - 1);
    }
}

/// A component found before `end` is a non-empty range that ends at or
/// before `end`; it is the root, or it is a whole segment without separator.
pub proof fn lemma_last_component_bounds(path: Seq<char>, end: int)
    requires
        0 <= end <= path.len(),
    ensures
        match last_component(path, end) {
            Some((first, behind)) => {
                &&& 0 <= first < behind <= end
                &&& path[first] == SEPARATOR ==> first == 0 && behind == 1
                &&& path[first] != SEPARATOR ==> first == run_start(path, behind)
            },
            None => true,
        },
    decreases end,
{
    if end > 0 {
        if path[end - 1] == SEPARATOR {
            if end > 1 {
                lemma_last_component_bounds(path, end - 1);
            }
        } else {
            let start = run_start(path, end);
            lemma_run_start_bounds(path, end);
            if start > 0 && start == end - 1 && path[start] == '.' {
                lemma_last_component_bounds(path, end - 1);
            }
        }
    }
}

/// Whether a component is a name shows in its first two characters and its
/// length: it is one unless it is the root, `.` or `..`.
pub proof fn lemma_component_is_name(path: Seq<char>, end: int)
    requires
        0 <= end <= path.len(),
        last_component(path, end) is Some,
    ensures
        ({
            let (first, behind) = last_component(path, end)->Some_0;
            let text = path.subrange(first, behind);
            &&& text == dot() <==> behind - first == 1 && path[first] == '.'
            &&& text == dot_dot() <==> behind - first == 2 && path[first] == '.' && path[first + 1]
                == '.'
            &&& text.contains(SEPARATOR) <==> path[first] == SEPARATOR
            &&& is_name(text) <==> {
                &&& path[first] != SEPARATOR
                &&& !(behind - first == 1 && path[first] == '.')
                &&& !(behind - first == 2 && path[first] == '.' && path[first + 1] == '.')
            }
        }),
{
    let (first, behind) = last_component(path, end)->Some_0;
    let text = path.subrange(first, behind);
    lemma_last_component_bounds(path, end);
    lemma_run_start_bounds(path, behind);
    assert(text[0] == path[first]);
    if behind - first == 1 && path[first] == '.' {
        assert(text =~= dot());
    }
    if behind - first == 2 && path[first] == '.' && path[first + 1] == '.' {
        assert(text[1] == path[first + 1]);
        assert(text =~= dot_dot());
    }
    if text == dot_dot() {
        assert(text[1] == '.');
    }
    if text.contains(SEPARATOR) {
        let k = choose|k: int| 0 <= k < text.len() && text[k] == SEPARATOR;
        assert(path[first + k] == SEPARATOR);
    }
}

/// Finds where the separator-free run that ends at `end` begins.
pub fn find_run_start(path: &[char], end: usize) -> (start: usize)
    requires
        end <= path.len(),
    ensures
        start == run_start(path@, end as int),
        start <= end,
{
    let mut start: usize = end;
    while start > 0 && path[start - 1] != SEPARATOR
        invariant
            start <= end <= path.len(),
            run_start(path@, end as int) == run_start(path@, start as int),
        decreases start,
    {
        start -= 1;
    }
    start
}

/// Finds the last component of `path` that lies wholly before `end`.
pub fn find_last_component(path: &[char], end: usize) -> (found: Option<(usize, usize)>)
    requires
        end <= path.len(),
    ensures
        match found {
            Some((first, behind)) => {
                &&& last_component(path@, end as int) == Some((first as int, behind as int))
                &&& first < behind <= end
            },
            None => last_component(path@, end as int) is None,
        },
{
    let mut stop: usize = end;
    while stop > 0
        invariant
            stop <= end <= path.len(),
            last_component(path@, end as int) == last_component(path@, stop as int),
        decreases stop,
    {
        if path[stop - 1] == SEPARATOR {
            if stop == 1 {
                return Some((0, 1));
            }
            stop -= 1;
        } else {
            let start = find_run_start(path, stop);
            proof {
                lemma_run_start_bounds(path@, stop as int);
            }
            if start > 0 && start == stop - 1 && path[start] == '.' {
                stop -= 1;
            } else {
                return Some((start, stop));
            }
        }
    }
    None
}

} // verus!
