//! Paths with forward slashes, as texts.
use crate::text::{begins_with, chars_of, same, split, split_on, starts_with, texts};
use vstd::prelude::*;

verus! {

/// A path below its directory: relative, neither starting at `.` nor stepping
/// up through `..`.
pub open spec fn normal_path(path: Seq<char>) -> bool {
    let parts = split_on(path, '/');
    &&& path.len() == 0 || path[0] != '/'
    &&& parts[0] != "."@
    &&& forall|i: int| 0 <= i < parts.len() ==> #[trigger] parts[i] != ".."@
}

/// Tell whether a path stays below its directory.
pub fn is_normal_path(path: &str) -> (answer: bool)
    ensures
        answer == normal_path(path@),
{
    let chars = chars_of(path);
    if chars.len() > 0 && chars[0] == '/' {
        return false;
    }
    let parts = split(path, '/');
    let ghost models = split_on(path@, '/');
    assert(models[0] == parts@[0]@);
    if same(&parts[0], ".") {
        return false;
    }
    let mut i: usize = 0;
    while i < parts.len()
        invariant
            i <= parts.len(),
            models == texts(parts@),
            models == split_on(path@, '/'),
            forall|k: int| 0 <= k < i ==> #[trigger] models[k] != ".."@,
        decreases parts.len() - i,
    {
        assert(models[i as int] == parts@[i as int]@);
        if same(&parts[i], "..") {
            return false;
        }
        i = i + 1;
    }
    true
}

/// A path from a directory: behind it with one slash between them, where the
/// directory is not empty. An absolute path is taken as it is.
pub open spec fn below(directory: Seq<char>, name: Seq<char>) -> Seq<char> {
    if name.len() > 0 && name[0] == '/' {
        name
    } else if directory.len() == 0 || directory.last() == '/' {
        directory + name
    } else {
        directory + "/"@ + name
    }
}

/// Join a path to a directory.
pub fn join_path(directory: &str, name: &str) -> (path: String)
    ensures
        path@ == below(directory@, name@),
{
    let start = chars_of(name);
    if start.len() > 0 && start[0] == '/' {
        return name.to_owned();
    }
    let chars = chars_of(directory);
    let mut path = directory.to_owned();
    if chars.len() == 0 || chars[chars.len() - 1] == '/' {
        path.append(name);
    } else {
        path.append("/");
        path.append(name);
    }
    path
}

/// A path is a directory or lies in it.
pub open spec fn lies_in(path: Seq<char>, directory: Seq<char>) -> bool {
    path == directory || begins_with(path, below(directory, Seq::<char>::empty()))
}

/// Tell whether a path is a directory or lies in it. Both are absolute and
/// resolved.
pub fn is_in(path: &str, directory: &str) -> (answer: bool)
    ensures
        answer == lies_in(path@, directory@),
{
    if same(path, directory) {
        return true;
    }
    let empty = String::new();
    assert(empty@ =~= Seq::<char>::empty());
    let prefix = join_path(directory, empty.as_str());
    starts_with(path, prefix.as_str())
}

/// A path that stays below its directory is not absolute, and no part of it
/// between slashes steps up; one that begins with a slash, or has such a part,
/// does not.
pub proof fn paths_below_their_directory(path: &str, answer: bool, parts: Seq<Seq<char>>)
    requires
        call_ensures(is_normal_path, (path,), answer),
        parts == split_on(path@, '/'),
    ensures
        answer ==> path@.len() == 0 || path@[0] != '/',
        answer ==> forall|i: int| 0 <= i < parts.len() ==> #[trigger] parts[i] != ".."@,
        !answer ==> (path@.len() > 0 && path@[0] == '/') || parts[0] == "."@ || exists|i: int|
            0 <= i < parts.len() && #[trigger] parts[i] == ".."@,
        parts[0] == "."@ ==> !answer,
{
}

/// A relative path joined to a directory lies in it, with one slash between
/// them.
pub proof fn joined_paths_lie_in_the_directory(
    directory: &str,
    name: &str,
    path: String,
    text: &str,
    answer: bool,
)
    requires
        call_ensures(join_path, (directory, name), path),
        text@ == path@,
        call_ensures(is_in, (text, directory), answer),
        name@.len() == 0 || name@[0] != '/',
    ensures
        answer,
        directory@.len() > 0 && directory@.last() != '/' ==> path@ == directory@ + "/"@ + name@,
        directory@.len() == 0 || directory@.last() == '/' ==> path@ == directory@ + name@,
{
    let start = below(directory@, Seq::<char>::empty());
    assert(path@ =~= start + name@);
    assert(path@.take(start.len() as int) =~= start);
}

/// A path that shares no more than the beginning of its name with a directory
/// does not lie in it.
pub proof fn siblings_do_not_lie_in_the_directory(path: &str, directory: &str, answer: bool)
    requires
        call_ensures(is_in, (path, directory), answer),
        directory@.len() > 0,
        directory@.last() != '/',
        path@ != directory@,
        path@.len() <= directory@.len() || path@[directory@.len() as int] != '/',
    ensures
        !answer,
{
    reveal_strlit("/");
    let start = directory@ + "/"@;
    assert(below(directory@, Seq::<char>::empty()) =~= start);
    if answer {
        assert(path@.take(start.len() as int)[directory@.len() as int] == start[directory@.len() as int]);
    }
}

} // verus!
