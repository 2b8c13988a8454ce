//! The file paths that a run works on: which are taken, in what order, and which file
//! goes with which.

use vstd::prelude::*;
use vstd::string::*;
use crate::text::{
    chars_end_with, chars_find, chars_start_with, ends_with, first_index_of, replace_all, replaced,
    starts_with, str_eq, strings_view, to_chars,
};

verus! {

/// The first `n` paths without repetitions: each path where it stands first.
pub open spec fn merged_first(paths: Seq<Seq<char>>, n: nat) -> Seq<Seq<char>>
    decreases n,
{
    if n == 0 {
        Seq::empty()
    } else {
        let before = merged_first(paths, (n - 1) as nat);
        if before.contains(paths[n - 1]) {
            before
        } else {
            before.push(paths[n - 1])
        }
    }
}

/// The paths without repetitions, each where it stands first.
pub open spec fn merged(paths: Seq<Seq<char>>) -> Seq<Seq<char>> {
    merged_first(paths, paths.len())
}

/// Merging loses no path, adds none, and leaves none twice.
pub proof fn lemma_merged_first(paths: Seq<Seq<char>>, n: nat)
    requires
        n <= paths.len(),
    ensures
        merged_first(paths, n).no_duplicates(),
        forall|i: int| 0 <= i < n ==> merged_first(paths, n).contains(#[trigger] paths[i]),
        forall|k: int|
            0 <= k < merged_first(paths, n).len() ==> exists|i: int|
                0 <= i < n && paths[i] == #[trigger] merged_first(paths, n)[k],
    decreases n,
{
    if n > 0 {
        let before = merged_first(paths, (n - 1) as nat);
        let after = merged_first(paths, n);
        lemma_merged_first(paths, (n - 1) as nat);
        assert forall|i: int| 0 <= i < n implies after.contains(#[trigger] paths[i]) by {
            if i < n - 1 {
                let k = choose|k: int| 0 <= k < before.len() && before[k] == paths[i];
                assert(after[k] == paths[i]);
            } else if before.contains(paths[n - 1]) {
            } else {
                assert(after[before.len() as int] == paths[i]);
            }
        }
        assert forall|k: int| 0 <= k < after.len() implies exists|i: int|
            0 <= i < n && paths[i] == #[trigger] after[k] by {
            if k < before.len() {
                assert(before[k] == after[k]);
                let i = choose|i: int| 0 <= i < n - 1 && paths[i] == before[k];
                assert(0 <= i < n && paths[i] == after[k]);
            } else {
                assert(paths[n - 1] == after[k]);
            }
        }
    }
}

/// Whether `path` is among the strings.
fn holds_path(paths: &Vec<String>, path: &str) -> (found: bool)
    ensures
        found == strings_view(paths@).contains(path@),
{
    let ghost texts = strings_view(paths@);
    let mut i: usize = 0;
    while i < paths.len()
        invariant
            i <= paths.len(),
            texts == strings_view(paths@),
            forall|k: int| 0 <= k < i ==> texts[k] != path@,
        decreases paths.len() - i,
    {
        assert(texts[i as int] == paths@[i as int]@);
        if str_eq(paths[i].as_str(), path) {
            return true;
        }
        i += 1;
    }
    false
}

/// The paths without repetitions, each where it stands first.
pub fn merge_all_filepaths(input_filepaths: &[String]) -> (result: Vec<String>)
    ensures
        strings_view(result@) == merged(strings_view(input_filepaths@)),
{
    let ghost texts = strings_view(input_filepaths@);
    let mut result: Vec<String> = Vec::new();
    assert(strings_view(result@) =~= Seq::<Seq<char>>::empty());
    let mut i: usize = 0;
    while i < input_filepaths.len()
        invariant
            i <= input_filepaths.len(),
            texts == strings_view(input_filepaths@),
            strings_view(result@) == merged_first(texts, i as nat),
        decreases input_filepaths.len() - i,
    {
        let path = &input_filepaths[i];
        assert(texts[i as int] == path@);
        if !holds_path(&result, path.as_str()) {
            proof {
                assert(strings_view(result@.push(*path)) =~= strings_view(result@).push(path@));
            }
            result.push(path.clone());
        }
        i += 1;
    }
    result
}

/// The paths of all lists, one list after another.
pub open spec fn flattened_first(lists: Seq<Vec<String>>, n: nat) -> Seq<Seq<char>>
    decreases n,
{
    if n == 0 {
        Seq::empty()
    } else {
        flattened_first(lists, (n - 1) as nat) + strings_view(lists[n - 1]@)
    }
}

/// Puts the paths found for each input pattern one after another, in the order of the
/// patterns, and merges them.
pub fn merge_path_lists(lists: &Vec<Vec<String>>) -> (result: Vec<String>)
    ensures
        strings_view(result@) == merged(flattened_first(lists@, lists@.len())),
{
    let mut all: Vec<String> = Vec::new();
    assert(strings_view(all@) =~= Seq::<Seq<char>>::empty());
    let mut i: usize = 0;
    while i < lists.len()
        invariant
            i <= lists.len(),
            strings_view(all@) == flattened_first(lists@, i as nat),
        decreases lists.len() - i,
    {
        let list = &lists[i];
        let ghost before = strings_view(all@);
        let mut k: usize = 0;
        while k < list.len()
            invariant
                k <= list.len(),
                strings_view(all@) == before + strings_view(list@).take(k as int),
            decreases list.len() - k,
        {
            proof {
                let path = list@[k as int];
                assert(strings_view(all@.push(path)) =~= strings_view(all@).push(path@));
                assert(strings_view(list@).take(k + 1) =~= strings_view(list@).take(
                    k as int,
                ).push(path@));
                assert(strings_view(all@.push(path)) =~= before + strings_view(list@).take(k + 1));
            }
            all.push(list[k].clone());
            k += 1;
        }
        assert(strings_view(list@).take(list@.len() as int) =~= strings_view(list@));
        i += 1;
    }
    merge_all_filepaths(all.as_slice())
}

/// Whether a path names the metadata of a contract.
pub open spec fn is_meta_path(path: Seq<char>) -> bool {
    ends_with(path, "_meta.json"@)
}

/// Whether a path names the metadata of a contract.
pub fn names_metadata(path: &str) -> (r: bool)
    ensures
        r == is_meta_path(path@),
{
    let chars = to_chars(path);
    chars_end_with(&chars, "_meta.json")
}

/// `is_meta_path`, as a value.
pub open spec fn meta_path_test() -> spec_fn(Seq<char>) -> bool {
    |path: Seq<char>| is_meta_path(path)
}

/// The paths that name metadata, in the order in which they stand.
pub open spec fn meta_paths(paths: Seq<Seq<char>>) -> Seq<Seq<char>> {
    paths.filter(meta_path_test())
}

/// Picks the paths that name metadata.
pub fn metadata_paths(paths: &[String]) -> (result: Vec<String>)
    ensures
        strings_view(result@) == meta_paths(strings_view(paths@)),
{
    let ghost texts = strings_view(paths@);
    let mut result: Vec<String> = Vec::new();
    proof {
        reveal(Seq::filter);
        assert(strings_view(result@) =~= texts.take(0).filter(meta_path_test()));
    }
    let mut i: usize = 0;
    while i < paths.len()
        invariant
            i <= paths.len(),
            texts == strings_view(paths@),
            strings_view(result@) == texts.take(i as int).filter(meta_path_test()),
        decreases paths.len() - i,
    {
        let path = &paths[i];
        proof {
            reveal(Seq::filter);
            assert(texts.take(i + 1).drop_last() =~= texts.take(i as int));
            assert(texts.take(i + 1).last() == path@);
            assert(strings_view(result@.push(*path)) =~= strings_view(result@).push(path@));
        }
        if names_metadata(path.as_str()) {
            result.push(path.clone());
        }
        i += 1;
    }
    assert(texts.take(paths@.len() as int) =~= texts);
    result
}

/// The path of the storage layout that goes with a metadata file: `_storage.json` stands
/// wherever `_meta.json` stood.
pub open spec fn storage_path(meta_path: Seq<char>) -> Seq<char> {
    replaced(meta_path, "_meta.json"@, "_storage.json"@)
}

/// The path of the storage layout that goes with a metadata file.
pub fn storage_path_for(meta_path: &str) -> (r: String)
    ensures
        r@ == storage_path(meta_path@),
{
    replace_all(meta_path, "_meta.json", "_storage.json")
}

/// Whether a file's content can be JSON at all: it is not empty and holds a `{`.
pub open spec fn may_be_json(content: Seq<char>) -> bool {
    content.len() > 0 && first_index_of(content, '{') < content.len()
}

/// Whether a file's content can be JSON at all.
pub fn looks_like_json(content: &str) -> (r: bool)
    ensures
        r == may_be_json(content@),
{
    let chars = to_chars(content);
    chars.len() > 0 && chars_find(&chars, '{') < chars.len()
}

/// The directory without a leading `./`, where more than that stands there.
pub open spec fn without_dot_slash(dir: Seq<char>) -> Seq<char> {
    if starts_with(dir, "./"@) && dir.len() > 2 {
        dir.subrange(2, dir.len() as int)
    } else {
        dir
    }
}

/// Takes a leading `./` off a directory, so that patterns made of it match what a walk
/// of the current directory reports.
pub fn strip_dot_slash(dir: &str) -> (r: String)
    ensures
        r@ == without_dot_slash(dir@),
{
    let chars = to_chars(dir);
    if chars_start_with(&chars, "./") && chars.len() > 2 {
        String::from_str(dir.substring_char(2, chars.len()))
    } else {
        String::from_str(dir)
    }
}

} // verus!
