//! The line map of a bundle: for each emitted module the line count of the
//! bundle up to its end, and the lookup that leads a line of the bundle back
//! to the module it came from.

use vstd::prelude::*;
use crate::text::views;

verus! {

/// The map written beside a bundle. `files[i]` names the module whose block
/// ends where the bundle has `sources[i]` lines; the first entry stands for
/// the runtime header.
#[derive(Debug)]
pub struct SourceMap {
    pub files: Vec<String>,
    pub sources: Vec<usize>,
}

/// The index of the first entry that is greater than `line`, or the length of
/// `sources` when there is none.
pub open spec fn first_beyond(sources: Seq<usize>, line: usize) -> int
    decreases sources.len(),
{
    if sources.len() == 0 {
        0
    } else if sources[0] > line {
        0
    } else {
        1 + first_beyond(sources.drop_first(), line)
    }
}

/// No entry is smaller than the one before it.
pub open spec fn non_decreasing(sources: Seq<usize>) -> bool {
    forall|i: int, j: int| 0 <= i <= j < sources.len() ==> sources[i] <= sources[j]
}

/// The module that a line of the bundle belongs to, with the line counted
/// back from the end of that module's block. None when no entry exceeds the
/// line, when the map names no module for the entry, or when the count does
/// not fit the machine's word.
pub open spec fn locate_line(files: Seq<Seq<char>>, sources: Seq<usize>, line: usize) -> Option<
    (Seq<char>, int),
> {
    let i = first_beyond(sources, line);
    if i < sources.len() && i < files.len() && sources[i] - line + 1 <= usize::MAX {
        Some((files[i], sources[i] - line + 1))
    } else {
        None
    }
}

/// `first_beyond` is the smallest index whose entry exceeds the line: every
/// entry before it is at most the line, and its own entry, if it has one, is
/// greater.
pub proof fn lemma_first_beyond(sources: Seq<usize>, line: usize)
    ensures
        0 <= first_beyond(sources, line) <= sources.len(),
        forall|j: int| 0 <= j < first_beyond(sources, line) ==> sources[j] <= line,
        first_beyond(sources, line) < sources.len() ==> sources[first_beyond(sources, line)]
            > line,
    decreases sources.len(),
{
    if sources.len() > 0 && sources[0] <= line {
        let rest = sources.drop_first();
        lemma_first_beyond(rest, line);
        assert forall|j: int| 0 <= j < first_beyond(sources, line) implies sources[j] <= line by {
            if j > 0 {
                assert(sources[j] == rest[j - 1]);
            }
        }
    }
}

/// An index whose entry exceeds the line, after entries that do not, is the
/// one `first_beyond` gives.
pub proof fn lemma_first_beyond_is(sources: Seq<usize>, line: usize, i: int)
    requires
        0 <= i <= sources.len(),
        forall|j: int| 0 <= j < i ==> sources[j] <= line,
        i < sources.len() ==> sources[i] > line,
    ensures
        first_beyond(sources, line) == i,
{
    lemma_first_beyond(sources, line);
}

/// In a map whose entries never decrease, every entry from the one found
/// onwards exceeds the line, so the module found is the only one whose block
/// can hold it.
pub proof fn lemma_lookup_splits(sources: Seq<usize>, line: usize, j: int)
    requires
        non_decreasing(sources),
        0 <= j < sources.len(),
    ensures
        sources[j] > line <==> first_beyond(sources, line) <= j,
{
    lemma_first_beyond(sources, line);
}

/// Leads a line of the bundle back to its module: the first entry of the map
/// that is greater than `line` names the module, and the line within it is
/// that entry less `line`, plus one. None when no entry is greater, when the
/// map names no module for that entry, or when the result would overflow.
pub fn map_to_source(line: usize, map: &SourceMap) -> (found: Option<(String, usize)>)
    ensures
        match found {
            Some((file, real_line)) => locate_line(views(map.files@), map.sources@, line) == Some(
                (file@, real_line as int),
            ),
            None => locate_line(views(map.files@), map.sources@, line) is None,
        },
{
    let mut i: usize = 0;
    while i < map.sources.len()
        invariant
            i <= map.sources.len(),
            forall|j: int| 0 <= j < i ==> map.sources@[j] <= line,
        decreases map.sources.len() - i,
    {
        let cur_line = map.sources[i];
        if cur_line > line {
            proof {
                lemma_first_beyond_is(map.sources@, line, i as int);
            }
            if i < map.files.len() && cur_line - line < usize::MAX {
                let real_line = cur_line - line + 1;
                return Some((map.files[i].clone(), real_line));
            }
            return None;
        }
        i = i + 1;
    }
    proof {
        lemma_first_beyond_is(map.sources@, line, i as int);
    }
    None
}

} // verus!
