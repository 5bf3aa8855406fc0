//! Which paths are renamed, and to what.

use vstd::prelude::*;
use crate::compiled::{regex_finds_match, regex_replaced, regex_is_match, regex_replace_all};
use crate::pattern::{anchored, Pattern, PatternView};
use crate::paths::{stripped_path, joined_path, strip_path_prefix, join_path};

verus! {

/// A path found under a search directory, with what the file system said of
/// it.
pub struct PathEntry {
    pub path: String,
    pub is_dir: bool,
    pub is_file: bool,
}

/// A path found while searching, with the search directory it was found
/// under.
pub struct FoundPath {
    pub base: String,
    pub entry: PathEntry,
}

/// A planned move: the index of a found path and the path it moves to.
pub struct PlannedRename {
    pub entry: usize,
    pub new_path: String,
}

/// The text that the pattern is matched against: the path relative to the
/// search directory, or the whole path where the directory is not a leading
/// part of it.
pub open spec fn relative_path(base: Seq<char>, path: Seq<char>) -> Seq<char> {
    match stripped_path(base, path) {
        Some(rest) => rest,
        None => path,
    }
}

/// Whether the kind of the entry is left out by `--files-only` or
/// `--dirs-only`.
pub open spec fn excluded_by_kind(is_dir: bool, is_file: bool, files_only: bool, dirs_only: bool) -> bool {
    (is_dir && files_only) || (is_file && dirs_only)
}

/// The path an entry moves to, if any: the entry is of a kind that is not
/// left out, its relative path matches the pattern as a whole, and the
/// replacement changes it; the new path is the replaced text joined to the
/// search directory.
pub open spec fn new_path_for(
    base: Seq<char>,
    path: Seq<char>,
    is_dir: bool,
    is_file: bool,
    pattern: PatternView,
    dest: Seq<char>,
    files_only: bool,
    dirs_only: bool,
) -> Option<Seq<char>> {
    let rel = relative_path(base, path);
    if excluded_by_kind(is_dir, is_file, files_only, dirs_only) {
        None
    } else if !regex_finds_match(pattern.source, pattern.case_insensitive, rel) {
        None
    } else {
        let renamed = regex_replaced(pattern.source, pattern.case_insensitive, rel, dest);
        if renamed == rel {
            None
        } else {
            Some(joined_path(base, renamed))
        }
    }
}

/// Computes the path that `entry`, found under `base_dir`, moves to, or
/// `None` when it stays where it is.
pub fn compute_new_path(
    base_dir: &str,
    entry: &PathEntry,
    src_re: &Pattern,
    dest_re_str: &str,
    files_only: bool,
    dirs_only: bool,
) -> (r: Option<String>)
    ensures
        r matches Some(p) ==> new_path_for(
            base_dir@, entry.path@, entry.is_dir, entry.is_file, src_re@, dest_re_str@,
            files_only, dirs_only,
        ) == Some(p@),
        r is None ==> new_path_for(
            base_dir@, entry.path@, entry.is_dir, entry.is_file, src_re@, dest_re_str@,
            files_only, dirs_only,
        ) is None,
{
    let rel = match strip_path_prefix(base_dir, entry.path.as_str()) {
        Some(rest) => rest,
        None => entry.path.clone(),
    };
    if (entry.is_dir && files_only) || (entry.is_file && dirs_only) {
        return None;
    }
    if !regex_is_match(src_re.compiled(), rel.as_str()) {
        return None;
    }
    let renamed = regex_replace_all(src_re.compiled(), rel.as_str(), dest_re_str);
    if renamed == rel {
        return None;
    }
    Some(join_path(base_dir, renamed.as_str()))
}

/// The moves planned for a sequence of found paths, in their order: the
/// index of each path that moves and where it moves to.
pub open spec fn planned_renames(
    entries: Seq<FoundPath>,
    pattern: PatternView,
    dest: Seq<char>,
    files_only: bool,
    dirs_only: bool,
) -> Seq<(int, Seq<char>)>
    decreases entries.len(),
{
    if entries.len() == 0 {
        seq![]
    } else {
        let prev = planned_renames(entries.drop_last(), pattern, dest, files_only, dirs_only);
        let last = entries.last();
        match new_path_for(
            last.base@, last.entry.path@, last.entry.is_dir, last.entry.is_file, pattern, dest,
            files_only, dirs_only,
        ) {
            Some(n) => prev.push(((entries.len() - 1) as int, n)),
            None => prev,
        }
    }
}

/// A plan as a sequence of (index, new path) pairs.
pub open spec fn plan_view(plan: Seq<PlannedRename>) -> Seq<(int, Seq<char>)> {
    plan.map_values(|r: PlannedRename| (r.entry as int, r.new_path@))
}

/// Plans the moves of all found paths, in the order in which they were found.
pub fn plan_renames(
    entries: &Vec<FoundPath>,
    src_re: &Pattern,
    dest_re_str: &str,
    files_only: bool,
    dirs_only: bool,
) -> (r: Vec<PlannedRename>)
    ensures
        plan_view(r@) == planned_renames(entries@, src_re@, dest_re_str@, files_only, dirs_only),
{
    let mut plan: Vec<PlannedRename> = Vec::new();
    for i in 0..entries.len()
        invariant
            plan_view(plan@) == planned_renames(
                entries@.take(i as int), src_re@, dest_re_str@, files_only, dirs_only,
            ),
    {
        let found = &entries[i];
        let next = compute_new_path(
            found.base.as_str(), &found.entry, src_re, dest_re_str, files_only, dirs_only,
        );
        proof {
            assert(entries@.take(i + 1).drop_last() =~= entries@.take(i as int));
            assert(entries@.take(i + 1).last() == entries@[i as int]);
        }
        match next {
            Some(new_path) => {
                let ghost before = plan@;
                plan.push(PlannedRename { entry: i, new_path });
                proof {
                    assert(plan_view(plan@) =~= plan_view(before).push((i as int, plan@.last().new_path@)));
                }
            },
            None => {},
        }
    }
    proof {
        assert(entries@.take(entries@.len() as int) =~= entries@);
    }
    plan
}

/// The new path of an entry, as `new_path_for` gives it, for an entry of a
/// sequence of found paths.
pub open spec fn entry_new_path(
    entries: Seq<FoundPath>,
    i: int,
    pattern: PatternView,
    dest: Seq<char>,
    files_only: bool,
    dirs_only: bool,
) -> Option<Seq<char>> {
    new_path_for(
        entries[i].base@, entries[i].entry.path@, entries[i].entry.is_dir,
        entries[i].entry.is_file, pattern, dest, files_only, dirs_only,
    )
}

/// A plan lists each path that moves exactly once, in the order in which the
/// paths were found, with the path `new_path_for` gives it; a path that stays
/// is not listed.
pub proof fn plan_lists_each_move_once_in_order(
    entries: Seq<FoundPath>,
    pattern: PatternView,
    dest: Seq<char>,
    files_only: bool,
    dirs_only: bool,
)
    ensures
        ({
            let plan = planned_renames(entries, pattern, dest, files_only, dirs_only);
            &&& forall|k: int| 0 <= k < plan.len() ==> {
                &&& 0 <= #[trigger] plan[k].0 < entries.len()
                &&& entry_new_path(entries, plan[k].0, pattern, dest, files_only, dirs_only)
                    == Some(plan[k].1)
            }
            &&& forall|j: int, k: int| 0 <= j < k < plan.len() ==> #[trigger] plan[j].0 < #[trigger] plan[k].0
            &&& forall|i: int| 0 <= i < entries.len()
                && (#[trigger] entry_new_path(entries, i, pattern, dest, files_only, dirs_only)) is Some
                ==> exists|k: int| 0 <= k < plan.len() && plan[k].0 == i
        }),
    decreases entries.len(),
{
    let plan = planned_renames(entries, pattern, dest, files_only, dirs_only);
    if entries.len() > 0 {
        let prefix = entries.drop_last();
        plan_lists_each_move_once_in_order(prefix, pattern, dest, files_only, dirs_only);
        let prev = planned_renames(prefix, pattern, dest, files_only, dirs_only);
        let n = entries.len() - 1;
        assert forall|i: int| 0 <= i < prefix.len() implies
            entry_new_path(prefix, i, pattern, dest, files_only, dirs_only)
                == entry_new_path(entries, i, pattern, dest, files_only, dirs_only) by {
            assert(prefix[i] == entries[i]);
        }
        assert(entries.last() == entries[n]);
        assert forall|i: int| 0 <= i < entries.len()
            && (#[trigger] entry_new_path(entries, i, pattern, dest, files_only, dirs_only)) is Some
            implies exists|k: int| 0 <= k < plan.len() && plan[k].0 == i by {
            if i < n {
                let k = choose|k: int| 0 <= k < prev.len() && prev[k].0 == i;
                assert(plan[k] == prev[k]);
            } else {
                assert(plan[plan.len() - 1].0 == n);
            }
        }
    }
}

/// Only a path whose relative form the anchored pattern matches as a whole
/// is moved; it is not of a kind that `--files-only` or `--dirs-only` leaves
/// out; and it moves to the search directory joined with a replaced text that
/// differs from the relative path.
pub proof fn only_whole_matches_move(
    base: Seq<char>,
    path: Seq<char>,
    is_dir: bool,
    is_file: bool,
    source: Seq<char>,
    case_insensitive: bool,
    dest: Seq<char>,
    files_only: bool,
    dirs_only: bool,
)
    requires
        new_path_for(
            base, path, is_dir, is_file,
            PatternView { source: anchored(source), case_insensitive }, dest, files_only, dirs_only,
        ) is Some,
    ensures
        ({
            let rel = relative_path(base, path);
            let renamed = regex_replaced(anchored(source), case_insensitive, rel, dest);
            &&& regex_finds_match(anchored(source), case_insensitive, rel)
            &&& !(files_only && is_dir)
            &&& !(dirs_only && is_file)
            &&& renamed != rel
            &&& new_path_for(
                base, path, is_dir, is_file,
                PatternView { source: anchored(source), case_insensitive }, dest, files_only,
                dirs_only,
            ) == Some(joined_path(base, renamed))
        }),
{
}

/// An entry moves whenever nothing keeps it where it is: it is not a
/// directory under `--files-only` nor a file under `--dirs-only`, the pattern
/// matches its path relative to the search directory (the whole path when
/// it does not lie under it), and the replacement changes that text. It then
/// moves to the search directory joined with the replaced text. A directory
/// moves without `--dirs-only`; a file moves without `--files-only`.
pub proof fn unhindered_matches_move(
    base: Seq<char>,
    path: Seq<char>,
    is_dir: bool,
    is_file: bool,
    pattern: PatternView,
    dest: Seq<char>,
    files_only: bool,
    dirs_only: bool,
)
    ensures
        ({
            let rel = match stripped_path(base, path) {
                Some(rest) => rest,
                None => path,
            };
            let renamed = regex_replaced(pattern.source, pattern.case_insensitive, rel, dest);
            &&& relative_path(base, path) == rel
            &&& (!(is_dir && files_only) && !(is_file && dirs_only)
                && regex_finds_match(pattern.source, pattern.case_insensitive, rel) && renamed != rel)
                ==> new_path_for(
                base, path, is_dir, is_file, pattern, dest, files_only, dirs_only,
            ) == Some(joined_path(base, renamed))
            &&& (is_dir && files_only) ==> new_path_for(
                base, path, is_dir, is_file, pattern, dest, files_only, dirs_only,
            ) is None
            &&& (is_file && dirs_only) ==> new_path_for(
                base, path, is_dir, is_file, pattern, dest, files_only, dirs_only,
            ) is None
            &&& !regex_finds_match(pattern.source, pattern.case_insensitive, rel) ==> new_path_for(
                base, path, is_dir, is_file, pattern, dest, files_only, dirs_only,
            ) is None
            &&& renamed == rel ==> new_path_for(
                base, path, is_dir, is_file, pattern, dest, files_only, dirs_only,
            ) is None
        }),
{
}

} // verus!
