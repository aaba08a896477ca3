//! Paths of files.

use vstd::prelude::*;
use vstd::string::*;
use crate::text;

verus! {

/// A path under a directory.
pub open spec fn path_under(dir: Seq<char>, path: Seq<char>) -> Seq<char> {
    if text::begins(path, "/"@) {
        path
    } else if dir.len() == 0 || text::ends(dir, "/"@) {
        dir + path
    } else {
        dir + "/"@ + path
    }
}

pub fn join_path(dir: &str, path: &str) -> (r: String)
    ensures
        r@ == path_under(dir@, path@),
{
    if text::starts_with(path, "/") {
        path.to_string()
    } else if text::byte_len(dir) == 0 || text::ends_with(dir, "/") {
        text::concat(dir, path)
    } else {
        let mut r = dir.to_string();
        r.append("/");
        r.append(path);
        r
    }
}

/// A path is put under a directory with one slash between them, and a path from the root stays as
/// it is.
pub proof fn paths_are_put_under(dir: Seq<char>, path: Seq<char>)
    requires
        path.len() > 0,
    ensures
        path[0] == '/' ==> path_under(dir, path) == path,
        path[0] != '/' && dir.len() > 0 && dir.last() != '/' ==> path_under(dir, path) == dir
            + seq!['/'] + path,
        path[0] != '/' && dir.len() > 0 && dir.last() == '/' ==> path_under(dir, path) == dir + path,
        path[0] != '/' && dir.len() == 0 ==> path_under(dir, path) == path,
{
    reveal_strlit("/");
    assert("/"@ =~= seq!['/']);
    assert(path.subrange(0, 1)[0] == path[0]);
    assert(path[0] == '/' ==> path.subrange(0, 1) =~= "/"@);
    if dir.len() > 0 {
        let end = dir.subrange(dir.len() - 1, dir.len() as int);
        assert(end[0] == dir.last());
        assert(dir.last() == '/' ==> end =~= "/"@);
    } else {
        assert(dir + path =~= path);
    }
}

} // verus!
