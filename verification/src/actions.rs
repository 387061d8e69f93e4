//! Where the bundled actions are looked for: the candidate directories, the
//! order in which they are tried, and the names of an action's bundle files.

use vstd::prelude::*;
use vstd::string::StringExecFns;
use crate::text::{chars_of, joined, text_of_range};

verus! {

/// `base` extended by the relative path `part`: one slash stands between
/// them unless `base` is empty or ends with one.
pub open spec fn spec_join_path(base: Seq<char>, part: Seq<char>) -> Seq<char> {
    if base.len() == 0 {
        part
    } else if base.last() == '/' {
        base + part
    } else {
        base + "/"@ + part
    }
}

/// `base` extended by the relative path `part`: see [`spec_join_path`].
pub fn join_path(base: &str, part: &str) -> (r: String)
    ensures
        r@ == spec_join_path(base@, part@),
{
    let chars = chars_of(base);
    if chars.len() == 0 {
        let r = String::from_str(part);
        r
    } else if chars[chars.len() - 1] == '/' {
        joined(base, part)
    } else {
        let with_slash = joined(base, "/");
        let r = joined(with_slash.as_str(), part);
        assert(r@ =~= base@ + "/"@ + part@);
        r
    }
}

/// The directories in which the bundled actions may lie, in the order in
/// which they are tried: `server/actions` and `actions` under the project
/// root, `server/actions` beside the project root, `/app/actions`, and
/// `actions` under the working directory.
pub open spec fn spec_candidates(root: Seq<char>) -> Seq<Seq<char>> {
    seq![
        spec_join_path(spec_join_path(root, "server"@), "actions"@),
        spec_join_path(root, "actions"@),
        spec_join_path(spec_join_path(spec_join_path(root, ".."@), "server"@), "actions"@),
        spec_join_path("/app"@, "actions"@),
        "actions"@,
    ]
}

/// The texts of a list of strings.
pub open spec fn texts_view(texts: Seq<String>) -> Seq<Seq<char>> {
    Seq::new(texts.len(), |i: int| texts[i]@)
}

/// The candidate directories for a project root: see [`spec_candidates`].
pub fn actions_dir_candidates(project_root: &str) -> (r: Vec<String>)
    ensures
        texts_view(r@) == spec_candidates(project_root@),
{
    let server = join_path(project_root, "server");
    let parent = join_path(project_root, "..");
    let parent_server = join_path(parent.as_str(), "server");
    let mut out: Vec<String> = Vec::new();
    out.push(join_path(server.as_str(), "actions"));
    out.push(join_path(project_root, "actions"));
    out.push(join_path(parent_server.as_str(), "actions"));
    out.push(join_path("/app", "actions"));
    out.push(String::from_str("actions"));
    assert(texts_view(out@) =~= spec_candidates(project_root@));
    out
}

/// The position of the first flag at or after `from` that is set; the
/// number of flags where none is.
pub open spec fn first_present(present: Seq<bool>, from: int) -> int
    decreases present.len() - from,
{
    if from < 0 || from >= present.len() {
        present.len() as int
    } else if present[from] {
        from
    } else {
        first_present(present, from + 1)
    }
}

/// The first candidate directory that is present, `present[i]` telling
/// whether the `i`-th candidate exists and is a directory.
pub open spec fn spec_find_actions_dir(root: Seq<char>, present: Seq<bool>) -> Option<Seq<char>> {
    let at = first_present(present, 0);
    if at < present.len() && at < spec_candidates(root).len() {
        Some(spec_candidates(root)[at])
    } else {
        None
    }
}

/// The directory that holds the bundled actions: the first of the
/// candidates of `project_root` that is present. See
/// [`spec_find_actions_dir`].
pub fn find_actions_dir(project_root: &str, present: &Vec<bool>) -> (r: Option<String>)
    ensures
        match r {
            Some(dir) => spec_find_actions_dir(project_root@, present@) == Some(dir@),
            None => spec_find_actions_dir(project_root@, present@) is None,
        },
{
    let candidates = actions_dir_candidates(project_root);
    let mut i: usize = 0;
    while i < present.len()
        invariant
            i <= present.len(),
            texts_view(candidates@) == spec_candidates(project_root@),
            first_present(present@, 0) == first_present(present@, i as int),
        decreases present.len() - i,
    {
        if present[i] {
            if i < candidates.len() {
                assert(texts_view(candidates@)[i as int] == candidates@[i as int]@);
                return Some(candidates[i].clone());
            } else {
                return None;
            }
        }
        i = i + 1;
    }
    None
}

/// The directory in which the actions are looked for first: the explicit
/// override where there is one, else the container's directory where it is
/// present, else the directory beside the executable where that was found,
/// else `./actions`.
pub open spec fn spec_resolve_actions_dir(
    explicit: Option<Seq<char>>,
    container_present: bool,
    beside_executable: Option<Seq<char>>,
) -> Seq<char> {
    match explicit {
        Some(dir) => dir,
        None => if container_present {
            "/app/actions"@
        } else {
            match beside_executable {
                Some(dir) => dir,
                None => "./actions"@,
            }
        },
    }
}

/// The directory in which the actions are looked for first: see
/// [`spec_resolve_actions_dir`].
pub fn resolve_actions_dir(
    explicit: Option<String>,
    container_present: bool,
    beside_executable: Option<String>,
) -> (r: String)
    ensures
        r@ == spec_resolve_actions_dir(
            match explicit {
                Some(dir) => Some(dir@),
                None => None,
            },
            container_present,
            match beside_executable {
                Some(dir) => Some(dir@),
                None => None,
            },
        ),
{
    match explicit {
        Some(dir) => dir,
        None => {
            if container_present {
                String::from_str("/app/actions")
            } else {
                match beside_executable {
                    Some(dir) => dir,
                    None => String::from_str("./actions"),
                }
            }
        },
    }
}

/// The names of the files that may hold an action: the bundle, which is
/// preferred, and the plain script.
pub fn bundle_file_names(action: &str) -> (r: (String, String))
    ensures
        r.0@ == action@ + ".jsbundle"@,
        r.1@ == action@ + ".js"@,
{
    (joined(action, ".jsbundle"), joined(action, ".js"))
}

/// The position of the last dot of a file name that is not its first
/// character, searching down from `from`; -1 where there is none.
pub open spec fn last_dot(name: Seq<char>, from: int) -> int
    decreases from,
{
    if from <= 0 || from > name.len() {
        -1
    } else if name[from - 1] == '.' && from - 1 > 0 {
        from - 1
    } else {
        last_dot(name, from - 1)
    }
}

/// The stem of a file name: the part before its last dot, or the whole
/// name where it has no dot after its first character.
pub open spec fn file_stem(name: Seq<char>) -> Seq<char> {
    let at = last_dot(name, name.len() as int);
    if at < 0 {
        name
    } else {
        name.subrange(0, at)
    }
}

/// The extension of a file name: the part after its last dot, where it has
/// a dot after its first character.
pub open spec fn file_extension(name: Seq<char>) -> Option<Seq<char>> {
    let at = last_dot(name, name.len() as int);
    if at < 0 {
        None
    } else {
        Some(name.subrange(at + 1, name.len() as int))
    }
}

/// The stem and the extension of a file name: see [`file_stem`] and
/// [`file_extension`].
pub fn split_file_name(name: &str) -> (r: (String, Option<String>))
    ensures
        r.0@ == file_stem(name@),
        match r.1 {
            Some(extension) => file_extension(name@) == Some(extension@),
            None => file_extension(name@) is None,
        },
{
    let chars = chars_of(name);
    let mut i: usize = chars.len();
    while i > 0 && !(chars[i - 1] == '.' && i - 1 > 0)
        invariant
            i <= chars.len(),
            last_dot(chars@, chars@.len() as int) == last_dot(chars@, i as int),
        decreases i,
    {
        i = i - 1;
    }
    if i == 0 {
        let stem = String::from_str(name);
        (stem, None)
    } else {
        (text_of_range(&chars, 0, i - 1), Some(text_of_range(&chars, i, chars.len())))
    }
}

} // verus!
