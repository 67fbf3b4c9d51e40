//! The table of allowed files: how it is made when the server starts, and
//! how a requested path is looked up in it.

use crate::text::{chars_of, ends_with, views};
use vstd::prelude::*;

verus! {

/// The files that the server offers, where they exist: an index document and
/// a style sheet, as paths relative to the directory the server runs in.
pub open spec fn candidates() -> Seq<Seq<char>> {
    seq!["./public/index.html"@, "./public/style.css"@]
}

/// Those of `candidates` that are marked in `present`, in their order. The
/// mark of a candidate stands at its index; one without a mark is left out.
pub open spec fn existing(candidates: Seq<Seq<char>>, present: Seq<bool>) -> Seq<Seq<char>>
    decreases candidates.len(),
{
    if candidates.len() == 0 {
        Seq::empty()
    } else {
        let last = candidates.len() - 1;
        let before = existing(candidates.drop_last(), present);
        if last < present.len() && present[last] {
            before.push(candidates.last())
        } else {
            before
        }
    }
}

/// The entry that answers a request for `path`: the first entry of `table`
/// that ends with `path`, if there is one.
pub open spec fn allowed(table: Seq<Seq<char>>, path: Seq<char>) -> Option<Seq<char>>
    decreases table.len(),
{
    if table.len() == 0 {
        None
    } else if path.is_suffix_of(table[0]) {
        Some(table[0])
    } else {
        allowed(table.skip(1), path)
    }
}

/// Whether the entry at `i` is the first of `table` that ends with `path`.
pub open spec fn is_first_match(table: Seq<Seq<char>>, path: Seq<char>, i: int) -> bool {
    &&& 0 <= i < table.len()
    &&& path.is_suffix_of(table[i])
    &&& forall|j: int| 0 <= j < i ==> !path.is_suffix_of(#[trigger] table[j])
}

/// The entry that answers a request is the first one that ends with the
/// path.
pub proof fn lemma_allowed_is_first_match(table: Seq<Seq<char>>, path: Seq<char>, i: int)
    requires
        is_first_match(table, path, i),
    ensures
        allowed(table, path) == Some(table[i]),
    decreases i,
{
    if i > 0 {
        lemma_allowed_is_first_match(table.skip(1), path, i - 1);
    }
}

/// A request is answered with an entry exactly where some entry ends with
/// the path; the entry is then the first such.
pub proof fn lemma_allowed_first_or_none(table: Seq<Seq<char>>, path: Seq<char>)
    ensures
        match allowed(table, path) {
            Some(entry) => exists|i: int| #[trigger]
                is_first_match(table, path, i) && table[i] == entry,
            None => forall|i: int|
                0 <= i < table.len() ==> !path.is_suffix_of(#[trigger] table[i]),
        },
    decreases table.len(),
{
    if table.len() == 0 {
    } else if path.is_suffix_of(table[0]) {
        assert(is_first_match(table, path, 0));
    } else {
        let rest = table.skip(1);
        lemma_allowed_first_or_none(rest, path);
        match allowed(rest, path) {
            Some(entry) => {
                let i = choose|i: int| #[trigger] is_first_match(rest, path, i) && rest[i] == entry;
                assert forall|j: int| 0 <= j < i + 1 implies !path.is_suffix_of(
                    #[trigger] table[j],
                ) by {
                    if j > 0 {
                        assert(table[j] == rest[j - 1]);
                    }
                }
                assert(is_first_match(table, path, i + 1));
            },
            None => {
                assert forall|i: int| 0 <= i < table.len() implies !path.is_suffix_of(
                    #[trigger] table[i],
                ) by {
                    if i > 0 {
                        assert(table[i] == rest[i - 1]);
                    }
                }
            },
        }
    }
}

/// Whether `entry` is the candidate at `i` and is marked as present.
pub open spec fn is_marked(
    candidates: Seq<Seq<char>>,
    present: Seq<bool>,
    i: int,
    entry: Seq<char>,
) -> bool {
    0 <= i < candidates.len() && i < present.len() && present[i] && candidates[i] == entry
}

/// Whether `entry` is a candidate that is marked as present.
pub open spec fn is_kept(candidates: Seq<Seq<char>>, present: Seq<bool>, entry: Seq<char>) -> bool {
    exists|i: int| #[trigger] is_marked(candidates, present, i, entry)
}

/// Whether `first` and `second` are candidates that are marked as present,
/// `first` at a place before that of `second`.
pub open spec fn are_kept_in_order(
    candidates: Seq<Seq<char>>,
    present: Seq<bool>,
    first: Seq<char>,
    second: Seq<char>,
) -> bool {
    exists|i: int, j: int|
        i < j && #[trigger] is_marked(candidates, present, i, first) && #[trigger] is_marked(
            candidates,
            present,
            j,
            second,
        )
}

/// The table holds no more entries than there are candidates. Each of its
/// entries is a candidate that is marked as present, and two entries stand in
/// the order of their candidates.
pub proof fn lemma_existing_keeps_order(candidates: Seq<Seq<char>>, present: Seq<bool>)
    ensures
        existing(candidates, present).len() <= candidates.len(),
        forall|k: int|
            0 <= k < existing(candidates, present).len() ==> is_kept(
                candidates,
                present,
                #[trigger] existing(candidates, present)[k],
            ),
        forall|k: int, l: int|
            0 <= k < l < existing(candidates, present).len() ==> are_kept_in_order(
                candidates,
                present,
                #[trigger] existing(candidates, present)[k],
                #[trigger] existing(candidates, present)[l],
            ),
    decreases candidates.len(),
{
    if candidates.len() > 0 {
        let table = existing(candidates, present);
        let fewer = candidates.drop_last();
        let before = existing(fewer, present);
        let last = candidates.len() - 1;
        lemma_existing_keeps_order(fewer, present);
        assert forall|k: int| 0 <= k < table.len() implies is_kept(
            candidates,
            present,
            #[trigger] table[k],
        ) by {
            if k < before.len() {
                let i = choose|i: int| #[trigger] is_marked(fewer, present, i, before[k]);
                assert(is_marked(candidates, present, i, table[k]));
            } else {
                assert(is_marked(candidates, present, last, table[k]));
            }
        }
        assert forall|k: int, l: int| 0 <= k < l < table.len() implies are_kept_in_order(
            candidates,
            present,
            #[trigger] table[k],
            #[trigger] table[l],
        ) by {
            if l < before.len() {
                let (i, j) = choose|i: int, j: int|
                    i < j && #[trigger] is_marked(fewer, present, i, before[k])
                        && #[trigger] is_marked(fewer, present, j, before[l]);
                assert(is_marked(candidates, present, i, table[k]));
                assert(is_marked(candidates, present, j, table[l]));
            } else {
                let i = choose|i: int| #[trigger] is_marked(fewer, present, i, before[k]);
                assert(is_marked(candidates, present, i, table[k]));
                assert(is_marked(candidates, present, last, table[l]));
            }
        }
    }
}

/// Asks the file system whether something exists at `path`, through
/// `std::path::Path::exists`. The answer depends on the disk at the moment of
/// the call, so nothing is promised of it.
#[verifier::external_body]
fn path_exists(path: &str) -> bool {
    std::path::Path::new(path).exists()
}

/// The candidate paths, in the order in which they enter the table.
pub fn candidate_paths() -> (paths: Vec<&'static str>)
    ensures
        views(paths@) == candidates(),
{
    vec!["./public/index.html", "./public/style.css"]
}

/// Makes a table of those of `candidates` that `present` marks as existing.
pub fn select_existing(candidates: &[&str], present: &[bool]) -> (table: Vec<String>)
    ensures
        views(table@) == existing(views(candidates@), present@),
{
    let mut table: Vec<String> = Vec::new();
    let mut i: usize = 0;
    while i < candidates.len()
        invariant
            i <= candidates.len(),
            views(table@) == existing(views(candidates@).take(i as int), present@),
        decreases candidates.len() - i,
    {
        assert(views(candidates@).take(i + 1).drop_last() == views(candidates@).take(i as int));
        if i < present.len() && present[i] {
            table.push(candidates[i].to_owned());
        }
        i += 1;
    }
    assert(views(candidates@).take(i as int) == views(candidates@));
    table
}

/// Makes the table of allowed files: the candidates that exist on disk at
/// the time of the call, in their order. Which of them exist is for the disk
/// to say; whatever it says, the table is `existing` of its answers.
pub fn create_allowed_file_table() -> (table: Vec<String>)
    ensures
        exists|present: Seq<bool>|
            present.len() == candidates().len() && views(table@) == #[trigger] existing(
                candidates(),
                present,
            ),
        table@.len() <= candidates().len(),
        forall|k: int| 0 <= k < table@.len() ==> candidates().contains(#[trigger] table@[k]@),
{
    let paths = candidate_paths();
    let mut present: Vec<bool> = Vec::new();
    let mut i: usize = 0;
    while i < paths.len()
        invariant
            i <= paths.len(),
            present@.len() == i,
        decreases paths.len() - i,
    {
        present.push(path_exists(paths[i]));
        i += 1;
    }
    let table = select_existing(paths.as_slice(), present.as_slice());
    proof {
        lemma_existing_keeps_order(candidates(), present@);
        assert forall|k: int| 0 <= k < table@.len() implies candidates().contains(
            #[trigger] table@[k]@,
        ) by {
            assert(is_kept(candidates(), present@, views(table@)[k]));
        }
    }
    table
}

/// Looks `path` up in `table` and gives the entry that answers it.
pub fn find_allowed(table: &[String], path: &[char]) -> (entry: Option<String>)
    ensures
        match entry {
            Some(e) => allowed(views(table@), path@) == Some(e@),
            None => allowed(views(table@), path@) is None,
        },
{
    let mut i: usize = 0;
    assert(views(table@).skip(0) == views(table@));
    while i < table.len()
        invariant
            i <= table.len(),
            allowed(views(table@), path@) == allowed(views(table@).skip(i as int), path@),
        decreases table.len() - i,
    {
        let ghost rest = views(table@).skip(i as int);
        let entry = chars_of(table[i].as_str());
        if ends_with(entry.as_slice(), path) {
            return Some(table[i].clone());
        }
        assert(rest.skip(1) == views(table@).skip(i + 1));
        i += 1;
    }
    None
}

} // verus!
