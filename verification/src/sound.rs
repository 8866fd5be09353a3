//! Finding the ambient track a config value names.

use vstd::prelude::*;

use crate::text::{chars_of, push_str, string_of, text_view, trim, trimmed};

verus! {

/// The path std's `Path::join` makes of a directory and a name on Unix: an
/// absolute name (starting with `/`) replaces the directory; otherwise the
/// name is appended, after a `/` unless the directory is empty or already
/// ends in one.
pub open spec fn joined(dir: Seq<char>, name: Seq<char>) -> Seq<char> {
    if name.len() > 0 && name[0] == '/' {
        name
    } else if dir.len() == 0 || dir.last() == '/' {
        dir + name
    } else {
        dir + seq!['/'] + name
    }
}

/// Join a name onto a directory path.
///
/// Trusted: calls std's `Path::new(dir).join(name)` and converts the result
/// back to text (lossless, as both parts are text). The contract is the
/// joining rule std documents for `PathBuf::push` on Unix (see `joined`).
#[verifier::external_body]
fn join_path(dir: &str, name: &str) -> (p: String)
    ensures
        p@ == joined(dir@, name@),
{
    std::path::Path::new(dir).join(name).to_string_lossy().into_owned()
}

/// Whether a regular file exists at `path`.
///
/// Trusted: calls std's `Path::is_file`. Nothing is stated of the answer: it
/// depends on what is on disk at the moment of the call.
#[verifier::external_body]
fn path_is_file(path: &str) -> (b: bool) {
    std::path::Path::new(path).is_file()
}

/// Extensions tried, in order, when a sound is named without one.
pub open spec fn extension(i: int) -> Seq<char> {
    if i == 0 {
        "mp3"@
    } else if i == 1 {
        "ogg"@
    } else if i == 2 {
        "wav"@
    } else {
        "flac"@
    }
}

/// The paths tried for a sound name, in order: the trimmed name itself as
/// a path; then, when there is a sounds directory, the name inside it, and
/// the name with each known extension inside it. A blank name tries nothing.
pub open spec fn candidates(name: Seq<char>, dir: Option<Seq<char>>) -> Seq<Seq<char>> {
    let n = trim(name);
    if n.len() == 0 {
        Seq::empty()
    } else {
        match dir {
            None => seq![n],
            Some(d) => seq![
                n,
                joined(d, n),
                joined(d, n + "."@ + extension(0)),
                joined(d, n + "."@ + extension(1)),
                joined(d, n + "."@ + extension(2)),
                joined(d, n + "."@ + extension(3)),
            ],
        }
    }
}

/// The view of an optional directory.
pub open spec fn dir_view(dir: Option<&str>) -> Option<Seq<char>> {
    match dir {
        Some(d) => Some(d@),
        None => None,
    }
}

/// The candidate paths for a sound name (see `candidates`).
pub fn candidate_paths(name: &str, sounds_dir: Option<&str>) -> (paths: Vec<String>)
    ensures
        paths@.len() == candidates(name@, dir_view(sounds_dir)).len(),
        forall|i: int| 0 <= i < paths@.len() ==> #[trigger] paths@[i]@ == candidates(name@, dir_view(sounds_dir))[i],
{
    let n = trimmed(name);
    let mut paths: Vec<String> = Vec::new();
    if n.len() == 0 {
        return paths;
    }
    let name_str = string_of(&n);
    paths.push(string_of(&n));
    match sounds_dir {
        None => {},
        Some(dir) => {
            paths.push(join_path(dir, name_str.as_str()));
            let exts = ["mp3", "ogg", "wav", "flac"];
            let mut i: usize = 0;
            while i < 4
                invariant
                    i <= 4,
                    n@ == trim(name@),
                    name_str@ == n@,
                    sounds_dir == Some(dir),
                    exts[0]@ == extension(0),
                    exts[1]@ == extension(1),
                    exts[2]@ == extension(2),
                    exts[3]@ == extension(3),
                    paths@.len() == 2 + i,
                    paths@[0]@ == n@,
                    paths@[1]@ == joined(dir@, n@),
                    forall|k: int| 0 <= k < i ==> #[trigger] paths@[2 + k]@ == joined(dir@, n@ + "."@ + extension(k)),
                decreases 4 - i,
            {
                let mut with_ext: Vec<char> = Vec::new();
                push_str(&mut with_ext, name_str.as_str());
                push_str(&mut with_ext, ".");
                push_str(&mut with_ext, exts[i]);
                let file = string_of(&with_ext);
                proof {
                    assert(file@ == n@ + "."@ + extension(i as int));
                }
                paths.push(join_path(dir, file.as_str()));
                i = i + 1;
            }
        },
    }
    proof {
        let c = candidates(name@, dir_view(sounds_dir));
        assert forall|i: int| 0 <= i < paths@.len() implies #[trigger] paths@[i]@ == c[i] by {
            if i >= 2 {
                assert(paths@[2 + (i - 2)]@ == joined(dir_view(sounds_dir)->0, n@ + "."@ + extension(i - 2)));
            }
        }
    }
    paths
}

/// The first path whose answer is yes, given one answer per path to "is
/// this a file?".
pub open spec fn first_file(paths: Seq<Seq<char>>, answers: Seq<bool>) -> Option<Seq<char>>
    decreases paths.len(),
{
    if paths.len() == 0 || answers.len() == 0 {
        None
    } else if answers[0] {
        Some(paths[0])
    } else {
        first_file(paths.drop_first(), answers.drop_first())
    }
}

/// The answers end the search: it went through every path, or it stopped
/// at the first yes (the last answer given).
pub open spec fn search_ended(paths: Seq<Seq<char>>, answers: Seq<bool>) -> bool {
    ||| answers.len() == paths.len()
    ||| answers.len() > 0 && answers.len() <= paths.len() && answers.last()
}

/// The views of a list of paths.
pub open spec fn path_views(paths: Seq<String>) -> Seq<Seq<char>> {
    paths.map_values(|p: String| p@)
}

/// The first of `paths` whose answer is yes, given the answers to "is this
/// a file?" for the first `answers.len()` paths, in order.
pub fn first_found(paths: &Vec<String>, answers: &Vec<bool>) -> (r: Option<String>)
    requires
        answers@.len() <= paths@.len(),
    ensures
        text_view(r) == first_file(path_views(paths@), answers@),
{
    let mut i: usize = 0;
    proof {
        assert(path_views(paths@).skip(0) =~= path_views(paths@));
        assert(answers@.skip(0) =~= answers@);
    }
    while i < answers.len()
        invariant
            i <= answers@.len(),
            answers@.len() <= paths@.len(),
            first_file(path_views(paths@), answers@) == first_file(
                path_views(paths@).skip(i as int),
                answers@.skip(i as int),
            ),
        decreases answers@.len() - i,
    {
        let ghost ps = path_views(paths@).skip(i as int);
        let ghost asw = answers@.skip(i as int);
        proof {
            assert(ps.drop_first() =~= path_views(paths@).skip(i + 1));
            assert(asw.drop_first() =~= answers@.skip(i + 1));
            assert(ps[0] == paths@[i as int]@);
        }
        if answers[i] {
            return Some(paths[i].clone());
        }
        i = i + 1;
    }
    proof {
        assert(answers@.skip(i as int).len() == 0);
    }
    None
}

/// Ask `ask` about positions 0, 1, 2, ... in order, stopping after the
/// first yes or after position `count - 1`, and return the answers given.
pub fn ask_in_order<F: Fn(usize) -> bool>(count: usize, ask: F) -> (answers: Vec<bool>)
    requires
        forall|k: usize| k < count ==> call_requires(ask, (k,)),
    ensures
        answers@.len() <= count,
        answers@.len() == count || (answers@.len() > 0 && answers@.last()),
        forall|k: int| 0 <= k < answers@.len() - 1 ==> !(#[trigger] answers@[k]),
        forall|k: int| 0 <= k < answers@.len() ==> call_ensures(ask, (k as usize,), #[trigger] answers@[k]),
{
    let mut answers: Vec<bool> = Vec::new();
    let mut found = false;
    let mut i: usize = 0;
    while i < count && !found
        invariant
            i <= count,
            answers@.len() == i,
            forall|k: usize| k < count ==> call_requires(ask, (k,)),
            found ==> i > 0 && answers@[i - 1],
            !found ==> forall|k: int| 0 <= k < i ==> !(#[trigger] answers@[k]),
            found ==> forall|k: int| 0 <= k < i - 1 ==> !(#[trigger] answers@[k]),
            forall|k: int| 0 <= k < i ==> call_ensures(ask, (k as usize,), #[trigger] answers@[k]),
        decreases count - i,
    {
        found = ask(i);
        answers.push(found);
        i = i + 1;
    }
    answers
}

/// Turn a config value into a playable file path.
///
/// Accepts an absolute or relative path as-is, or a bare name like `rain`,
/// which is looked up in the sounds directory with each known extension.
/// The candidates (see `candidates`) are put to the disk in order until one
/// is a file; that one wins (see `first_found`). What the disk answers is
/// not stated, so the result is stated for the answers it may have given.
pub fn resolve(name: &str, sounds_dir: Option<&str>) -> (r: Option<String>)
    ensures
        trim(name@).len() == 0 ==> r is None,
        r matches Some(p) ==> candidates(name@, dir_view(sounds_dir)).contains(p@),
        exists|answers: Seq<bool>|
            #[trigger] search_ended(candidates(name@, dir_view(sounds_dir)), answers) && first_file(
                candidates(name@, dir_view(sounds_dir)),
                answers,
            ) == text_view(r),
{
    let ghost cands = candidates(name@, dir_view(sounds_dir));
    let paths = candidate_paths(name, sounds_dir);
    proof {
        assert(path_views(paths@) =~= cands);
    }
    let is_file_at = |k: usize| -> (b: bool)
        requires
            k < paths@.len(),
        {
            path_is_file(paths[k].as_str())
        };
    let answers = ask_in_order(paths.len(), is_file_at);
    let r = first_found(&paths, &answers);
    proof {
        assert(search_ended(cands, answers@));
        lemma_first_file_member(cands, answers@);
    }
    r
}

/// A first file is always one of the paths.
proof fn lemma_first_file_member(paths: Seq<Seq<char>>, answers: Seq<bool>)
    ensures
        first_file(paths, answers) matches Some(p) ==> paths.contains(p),
    decreases paths.len(),
{
    if paths.len() > 0 && answers.len() > 0 && !answers[0] {
        lemma_first_file_member(paths.drop_first(), answers.drop_first());
        if first_file(paths, answers) is Some {
            let p = first_file(paths, answers)->0;
            let k = choose|k: int| 0 <= k < paths.drop_first().len() && paths.drop_first()[k] == p;
            assert(paths[k + 1] == p);
        }
    } else if paths.len() > 0 && answers.len() > 0 {
        assert(paths[0] == paths[0]);
    }
}

} // verus!
