//! What the decomposition finds, said without reference to how it is found:
//! which ranges of a path are components, what may stand between them, and
//! which of them the file name and the folder are.

use crate::path::{
    dot, file_name_of, is_name, last_component, lemma_run_start_bounds, parent_of, run_start,
    SEPARATOR,
};
use vstd::prelude::*;

verus! {

/// The positions from `first` up to `behind` hold a component of `path`:
/// the root, which is a separator in first position, or a whole segment that
/// is not empty and is not `.`, unless that `.` stands in first position.
pub open spec fn is_component(path: Seq<char>, first: int, behind: int) -> bool {
    &&& 0 <= first < behind <= path.len()
    &&& if path[first] == SEPARATOR {
        first == 0 && behind == 1
    } else {
        &&& first == 0 || path[first - 1] == SEPARATOR
        &&& behind == path.len() || path[behind] == SEPARATOR
        &&& forall|k: int| first <= k < behind ==> path[k] != SEPARATOR
        &&& first == 0 || path.subrange(first, behind) != dot()
    }
}

/// From `from` up to `to` stands only filler: every character there is a
/// separator, or a `.` directly behind a separator. Where `to` is the end of
/// the path or the start of a component, each such `.` is a whole segment.
pub open spec fn is_filler(path: Seq<char>, from: int, to: int) -> bool {
    forall|k: int|
        #![trigger path[k]]
        from <= k < to ==> path[k] == SEPARATOR || (path[k] == '.' && k > 0 && path[k - 1]
            == SEPARATOR)
}

/// The component from `first` up to `behind` is the final one of `path`:
/// only filler follows it.
pub open spec fn is_final_component(path: Seq<char>, first: int, behind: int) -> bool {
    &&& is_component(path, first, behind)
    &&& is_filler(path, behind, path.len() as int)
}

/// The component from `first` up to `behind` is the one before position
/// `next`: only filler stands between its end and `next`.
pub open spec fn is_component_before(path: Seq<char>, first: int, behind: int, next: int) -> bool {
    &&& is_component(path, first, behind)
    &&& behind <= next <= path.len()
    &&& is_filler(path, behind, next)
}

/// A run that begins behind a separator, or where the path begins, and holds
/// no separator up to `end`, is the run that `run_start` finds from `end`.
pub proof fn lemma_run_start_found(path: Seq<char>, start: int, end: int)
    requires
        0 <= start <= end <= path.len(),
        start == 0 || path[start - 1] == SEPARATOR,
        forall|k: int| start <= k < end ==> path[k] != SEPARATOR,
    ensures
        run_start(path, end) == start,
    decreases end - start,
{
    if end > start {
        lemma_run_start_found(path, start, end - 1);
    }
}

/// A component with only filler between its end and `end` is the one that
/// `last_component` finds from `end`.
pub proof fn lemma_last_component_found(path: Seq<char>, first: int, behind: int, end: int)
    requires
        is_component_before(path, first, behind, end),
    ensures
        last_component(path, end) == Some((first, behind)),
    decreases end - behind,
{
    if end == behind {
        if path[first] != SEPARATOR {
            lemma_run_start_found(path, first, behind);
            if first > 0 && first == behind - 1 && path[first] == '.' {
                assert(path.subrange(first, behind) =~= dot());
            }
        }
    } else {
        lemma_last_component_found(path, first, behind, end - 1);
        if path[end - 1] != SEPARATOR {
            assert(path[end - 2] == SEPARATOR);
            assert(run_start(path, end - 1) == end - 1);
        }
    }
}

/// From any position that does not cut a segment in two, `last_component`
/// finds a component, and only filler stands between it and that position.
pub proof fn lemma_last_component_is_component(path: Seq<char>, end: int)
    requires
        0 < end <= path.len(),
        end == path.len() || path[end] == SEPARATOR || path[end - 1] == SEPARATOR,
    ensures
        last_component(path, end) is Some,
        ({
            let (first, behind) = last_component(path, end)->Some_0;
            is_component_before(path, first, behind, end)
        }),
    decreases end,
{
    if path[end - 1] == SEPARATOR {
        if end > 1 {
            lemma_last_component_is_component(path, end - 1);
        }
    } else {
        let start = run_start(path, end);
        lemma_run_start_bounds(path, end);
        if start > 0 && start == end - 1 && path[start] == '.' {
            lemma_last_component_is_component(path, end - 1);
        } else {
            if start > 0 && path.subrange(start, end) == dot() {
                assert(path.subrange(start, end).len() == 1);
                assert(path.subrange(start, end)[0] == '.');
            }
        }
    }
}

/// A path has a file name exactly when its final component is a name, and
/// the file name is then that component.
pub proof fn lemma_file_name_of_characterised(path: Seq<char>, name: Seq<char>)
    ensures
        file_name_of(path) == Some(name) <==> is_name(name) && exists|first: int, behind: int|
            #![trigger is_final_component(path, first, behind)]
            is_final_component(path, first, behind) && path.subrange(first, behind) == name,
{
    let len = path.len() as int;
    if file_name_of(path) == Some(name) {
        lemma_last_component_is_component(path, len);
        let (first, behind) = last_component(path, len)->Some_0;
        assert(is_final_component(path, first, behind));
    }
    if is_name(name) && exists|first: int, behind: int|
        #![trigger is_final_component(path, first, behind)]
        is_final_component(path, first, behind) && path.subrange(first, behind) == name {
        let (first, behind) = choose|first: int, behind: int|
            #![trigger is_final_component(path, first, behind)]
            is_final_component(path, first, behind) && path.subrange(first, behind) == name;
        lemma_last_component_found(path, first, behind, len);
    }
}

/// A path has a folder exactly when a component stands before its final one,
/// and the folder is then the path up to the end of that component.
pub proof fn lemma_parent_of_characterised(path: Seq<char>, folder: Seq<char>)
    ensures
        parent_of(path) == Some(folder) <==> exists|
            before: int,
            parent_end: int,
            first: int,
            behind: int,
        |
            #![trigger is_final_component(path, first, behind), is_component_before(path, before, parent_end, first)]
            is_final_component(path, first, behind) && is_component_before(
                path,
                before,
                parent_end,
                first,
            ) && path.subrange(0, parent_end) == folder,
{
    let len = path.len() as int;
    if parent_of(path) == Some(folder) {
        lemma_last_component_is_component(path, len);
        let (first, behind) = last_component(path, len)->Some_0;
        lemma_last_component_is_component(path, first);
        let (before, parent_end) = last_component(path, first)->Some_0;
        assert(is_final_component(path, first, behind));
        assert(is_component_before(path, before, parent_end, first));
    }
    if exists|before: int, parent_end: int, first: int, behind: int|
        #![trigger is_final_component(path, first, behind), is_component_before(path, before, parent_end, first)]
        is_final_component(path, first, behind) && is_component_before(
            path,
            before,
            parent_end,
            first,
        ) && path.subrange(0, parent_end) == folder {
        let (before, parent_end, first, behind) = choose|
            before: int,
            parent_end: int,
            first: int,
            behind: int,
        |
            #![trigger is_final_component(path, first, behind), is_component_before(path, before, parent_end, first)]
            is_final_component(path, first, behind) && is_component_before(
                path,
                before,
                parent_end,
                first,
            ) && path.subrange(0, parent_end) == folder;
        lemma_last_component_found(path, first, behind, len);
        lemma_last_component_found(path, before, parent_end, first);
    }
}

/// `name` placed in `folder`: the folder, one separator, the name.
pub open spec fn joined(folder: Seq<char>, name: Seq<char>) -> Seq<char> {
    folder + seq![SEPARATOR] + name
}

/// `folder` ends with a component: no filler trails it, and it is not empty.
pub open spec fn ends_in_component(folder: Seq<char>) -> bool {
    exists|first: int| is_component(folder, first, folder.len() as int)
}

/// A name placed in a folder is the file name of the result, whatever the
/// folder; and a folder that ends with a component is the folder of the
/// result.
pub proof fn lemma_join_then_split(folder: Seq<char>, name: Seq<char>)
    requires
        is_name(name),
    ensures
        file_name_of(joined(folder, name)) == Some(name),
        ends_in_component(folder) ==> parent_of(joined(folder, name)) == Some(folder),
{
    let path = joined(folder, name);
    let end = folder.len() as int;
    let first = end + 1;
    let len = path.len() as int;
    assert forall|k: int| first <= k < len implies path[k] != SEPARATOR by {
        assert(path[k] == name[k - first]);
        if name[k - first] == SEPARATOR {
            assert(name.contains(SEPARATOR));
        }
    }
    assert(path.subrange(first, len) =~= name);
    assert(path[first] == name[0]);
    assert(is_final_component(path, first, len));
    lemma_file_name_of_characterised(path, name);
    if ends_in_component(folder) {
        let before = choose|before: int| is_component(folder, before, end);
        assert(path.subrange(before, end) =~= folder.subrange(before, end));
        assert(path[before] == folder[before]);
        assert(path[end] == SEPARATOR);
        if folder[before] != SEPARATOR {
            assert forall|k: int| before <= k < end implies path[k] != SEPARATOR by {
                assert(path[k] == folder[k]);
            }
            if before > 0 {
                assert(path[before - 1] == folder[before - 1]);
            }
        }
        assert(is_component_before(path, before, end, first));
        assert(path.subrange(0, end) =~= folder);
        lemma_parent_of_characterised(path, folder);
    }
}

/// The folder and the file name of a path, joined again, have the same
/// folder and the same file name: only filler is lost.
pub proof fn lemma_split_then_join(path: Seq<char>, folder: Seq<char>, name: Seq<char>)
    requires
        parent_of(path) == Some(folder),
        file_name_of(path) == Some(name),
    ensures
        parent_of(joined(folder, name)) == Some(folder),
        file_name_of(joined(folder, name)) == Some(name),
{
    let len = path.len() as int;
    lemma_last_component_is_component(path, len);
    let (first, _) = last_component(path, len)->Some_0;
    lemma_last_component_is_component(path, first);
    let (before, end) = last_component(path, first)->Some_0;
    assert(folder.subrange(before, end) =~= path.subrange(before, end));
    assert(is_component(folder, before, end));
    lemma_join_then_split(folder, name);
}

} // verus!
