//! The commands that are given to git, and what their outcomes mean.

use vstd::prelude::*;
use vstd::string::*;
use crate::decode;
use crate::text;

verus! {

/// What a finished program left behind. It has no exit code where a signal ended it.
#[derive(Debug)]
pub struct Output {
    pub code: Option<i32>,
    pub stdout: Vec<u8>,
    pub stderr: Vec<u8>,
}

impl Output {
    pub open spec fn succeeded(&self) -> bool {
        self.code == Some(0i32)
    }

    /// The two streams as text, without the white space at their ends.
    pub open spec fn printed(&self) -> Seq<char> {
        text::trimmed(decode::lossy(self.stdout@))
    }

    pub open spec fn complained(&self) -> Seq<char> {
        text::trimmed(decode::lossy(self.stderr@))
    }

    pub fn success(&self) -> (r: bool)
        ensures
            r == self.succeeded(),
    {
        match self.code {
            Some(c) => c == 0,
            None => false,
        }
    }
}

/// What a program that failed says of the failure, by its two streams.
pub open spec fn failure(stdout: Seq<char>, stderr: Seq<char>) -> Seq<char> {
    if stderr.len() > 0 {
        stderr
    } else if stdout.len() > 0 {
        stdout
    } else {
        "git command failed"@
    }
}

/// Says what went wrong: what stands on the error stream, else what was printed, else that git
/// failed.
pub fn failure_message(stdout: String, stderr: String) -> (r: String)
    ensures
        r@ == failure(stdout@, stderr@),
{
    if text::byte_len(stderr.as_str()) > 0 {
        stderr
    } else if text::byte_len(stdout.as_str()) > 0 {
        stdout
    } else {
        "git command failed".to_string()
    }
}

/// What a result says.
pub open spec fn text_outcome(r: Result<String, String>) -> Result<Seq<char>, Seq<char>> {
    match r {
        Ok(s) => Ok(s@),
        Err(e) => Err(e@),
    }
}

/// What a result says.
pub open spec fn unit_outcome(r: Result<(), String>) -> Result<(), Seq<char>> {
    match r {
        Ok(u) => Ok(u),
        Err(e) => Err(e@),
    }
}

/// The text that a program printed, where it succeeded and printed one.
pub open spec fn answer(succeeded: bool, printed: Seq<char>) -> Option<Seq<char>> {
    if succeeded && printed.len() > 0 {
        Some(printed)
    } else {
        None
    }
}

/// The answer of a query: nothing where it failed or printed nothing.
pub fn git_stdout(output: &Output) -> (r: Option<String>)
    ensures
        text::opt_text(r) == answer(output.succeeded(), output.printed()),
{
    if !output.success() {
        return None;
    }
    let printed = decode::trimmed_output(&output.stdout);
    if text::byte_len(printed.as_str()) == 0 {
        None
    } else {
        Some(printed)
    }
}

/// The lines of an answer, none where there is no answer.
pub open spec fn answer_lines(answer: Option<Seq<char>>) -> Seq<Seq<char>> {
    match answer {
        Some(s) => decode::line_list(s),
        None => Seq::empty(),
    }
}

/// The lines of a query's answer.
pub fn git_lines(output: &Output) -> (r: Vec<String>)
    ensures
        text::texts(r@) == answer_lines(answer(output.succeeded(), output.printed())),
{
    match git_stdout(output) {
        Some(s) => decode::lines(s.as_str()),
        None => {
            let r: Vec<String> = Vec::new();
            assert(text::texts(r@) =~= Seq::<Seq<char>>::empty());
            r
        },
    }
}

/// Whether a command did its work, else why not.
pub fn run_git(output: &Output) -> (r: Result<(), String>)
    ensures
        unit_outcome(r) == if output.succeeded() {
            Ok(())
        } else {
            Err(failure(output.printed(), output.complained()))
        },
{
    if output.success() {
        return Ok(());
    }
    let stderr = decode::trimmed_output(&output.stderr);
    let stdout = decode::trimmed_output(&output.stdout);
    Err(failure_message(stdout, stderr))
}

/// The text of a diff. `git diff --no-index` ends with exit code one where there is a difference.
pub fn git_diff_output(output: &Output, allow_exit_code_one: bool) -> (r: Result<String, String>)
    ensures
        text_outcome(r) == if output.succeeded() || (allow_exit_code_one && output.code == Some(
            1i32,
        )) {
            Ok(decode::lossy(output.stdout@))
        } else {
            Err(failure(output.printed(), output.complained()))
        },
{
    let one = match output.code {
        Some(c) => c == 1,
        None => false,
    };
    if output.success() || (allow_exit_code_one && one) {
        return Ok(decode::decode_lossy(&output.stdout));
    }
    let stderr = decode::trimmed_output(&output.stderr);
    let stdout = decode::trimmed_output(&output.stdout);
    Err(failure_message(stdout, stderr))
}

/// Whether the program answered with the line `true`.
pub open spec fn says_true(output: &Output) -> bool {
    output.succeeded() && output.stdout@ == seq![116u8, 114, 117, 101, 10]
}

fn answered_true(output: &Output) -> (r: bool)
    ensures
        r == says_true(output),
{
    let s = &output.stdout;
    let r = output.success() && s.len() == 5 && s[0] == 116 && s[1] == 114 && s[2] == 117 && s[3]
        == 101 && s[4] == 10;
    assert(r ==> s@ =~= seq![116u8, 114, 117, 101, 10]);
    r
}

pub fn is_inside_work_tree_arguments() -> (r: Vec<String>)
    ensures
        text::texts(r@) == seq!["rev-parse"@, "--is-inside-work-tree"@],
{
    let r = text::words(&["rev-parse", "--is-inside-work-tree"]);
    assert(text::texts(r@) =~= seq!["rev-parse"@, "--is-inside-work-tree"@]);
    r
}

pub fn is_inside_work_tree(output: &Output) -> (r: bool)
    ensures
        r == says_true(output),
{
    answered_true(output)
}

pub fn is_bare_repository_arguments() -> (r: Vec<String>)
    ensures
        text::texts(r@) == seq!["rev-parse"@, "--is-bare-repository"@],
{
    let r = text::words(&["rev-parse", "--is-bare-repository"]);
    assert(text::texts(r@) =~= seq!["rev-parse"@, "--is-bare-repository"@]);
    r
}

pub fn is_bare_repository(output: &Output) -> (r: bool)
    ensures
        r == says_true(output),
{
    answered_true(output)
}

/// A directory belongs to a repository where it lies inside a work tree or in a bare repository.
pub fn check_git_repository(inside_work_tree: bool, bare: bool) -> (r: Result<(), String>)
    ensures
        unit_outcome(r) == if inside_work_tree || bare {
            Ok(())
        } else {
            Err("not a git repository (or any of the parent directories)"@)
        },
{
    if !inside_work_tree && !bare {
        return Err("not a git repository (or any of the parent directories)".to_string());
    }
    Ok(())
}

pub fn get_current_branch_arguments() -> (r: Vec<String>)
    ensures
        text::texts(r@) == seq!["branch"@, "--show-current"@],
{
    let r = text::words(&["branch", "--show-current"]);
    assert(text::texts(r@) =~= seq!["branch"@, "--show-current"@]);
    r
}

pub fn get_current_branch(output: &Output) -> (r: Option<String>)
    ensures
        text::opt_text(r) == answer(output.succeeded(), output.printed()),
{
    git_stdout(output)
}

pub fn is_dirty_arguments() -> (r: Vec<String>)
    ensures
        text::texts(r@) == seq!["status"@, "--short"@],
{
    let r = text::words(&["status", "--short"]);
    assert(text::texts(r@) =~= seq!["status"@, "--short"@]);
    r
}

/// Whether the work tree differs from what is checked out.
pub fn is_dirty(output: &Output) -> (r: bool)
    ensures
        r == (output.succeeded() && output.printed().len() > 0),
{
    git_stdout(output).is_some()
}

pub fn has_staged_changes_arguments() -> (r: Vec<String>)
    ensures
        text::texts(r@) == seq!["diff"@, "--cached"@, "--quiet"@, "--exit-code"@],
{
    let r = text::words(&["diff", "--cached", "--quiet", "--exit-code"]);
    assert(text::texts(r@) =~= seq!["diff"@, "--cached"@, "--quiet"@, "--exit-code"@]);
    r
}

/// `git diff --quiet` succeeds where there is no difference.
pub fn has_staged_changes(output: &Output) -> (r: bool)
    ensures
        r == !output.succeeded(),
{
    !output.success()
}

pub fn get_upstream_branch_arguments() -> (r: Vec<String>)
    ensures
        text::texts(r@) == seq![
            "rev-parse"@,
            "--abbrev-ref"@,
            "--symbolic-full-name"@,
            "@{upstream}"@,
        ],
{
    let r = text::words(&["rev-parse", "--abbrev-ref", "--symbolic-full-name", "@{upstream}"]);
    assert(text::texts(r@) =~= seq![
        "rev-parse"@,
        "--abbrev-ref"@,
        "--symbolic-full-name"@,
        "@{upstream}"@,
    ]);
    r
}

pub fn get_upstream_branch(output: &Output) -> (r: Option<String>)
    ensures
        text::opt_text(r) == answer(output.succeeded(), output.printed()),
{
    git_stdout(output)
}

pub fn get_repo_root_arguments() -> (r: Vec<String>)
    ensures
        text::texts(r@) == seq!["rev-parse"@, "--show-toplevel"@],
{
    let r = text::words(&["rev-parse", "--show-toplevel"]);
    assert(text::texts(r@) =~= seq!["rev-parse"@, "--show-toplevel"@]);
    r
}

pub fn get_repo_root(output: &Output) -> (r: Option<String>)
    ensures
        text::opt_text(r) == answer(output.succeeded(), output.printed()),
{
    git_stdout(output)
}

pub fn get_git_dir_arguments() -> (r: Vec<String>)
    ensures
        text::texts(r@) == seq!["rev-parse"@, "--absolute-git-dir"@],
{
    let r = text::words(&["rev-parse", "--absolute-git-dir"]);
    assert(text::texts(r@) =~= seq!["rev-parse"@, "--absolute-git-dir"@]);
    r
}

pub fn get_git_dir(output: &Output) -> (r: Option<String>)
    ensures
        text::opt_text(r) == answer(output.succeeded(), output.printed()),
{
    git_stdout(output)
}

pub fn get_local_branches_arguments() -> (r: Vec<String>)
    ensures
        text::texts(r@) == seq!["for-each-ref"@, "--format=%(refname:short)"@, "refs/heads"@],
{
    let r = text::words(&["for-each-ref", "--format=%(refname:short)", "refs/heads"]);
    assert(text::texts(r@) =~= seq![
        "for-each-ref"@,
        "--format=%(refname:short)"@,
        "refs/heads"@,
    ]);
    r
}

pub fn get_local_branches(output: &Output) -> (r: Vec<String>)
    ensures
        text::texts(r@) == answer_lines(answer(output.succeeded(), output.printed())),
{
    git_lines(output)
}

/// Adds a work tree in which the base branch is checked out.
pub fn add_hidden_base_worktree(worktree_path: &str, base: &str) -> (r: Vec<String>)
    ensures
        text::texts(r@) == seq!["worktree"@, "add"@, "-B"@, base@, worktree_path@, base@],
{
    let r = text::words(&["worktree", "add", "-B", base, worktree_path, base]);
    assert(text::texts(r@) =~= seq!["worktree"@, "add"@, "-B"@, base@, worktree_path@, base@]);
    r
}

pub fn remove_hidden_base_worktree(worktree_path: &str) -> (r: Vec<String>)
    ensures
        text::texts(r@) == seq!["worktree"@, "remove"@, "--force"@, worktree_path@],
{
    let r = text::words(&["worktree", "remove", "--force", worktree_path]);
    assert(text::texts(r@) =~= seq!["worktree"@, "remove"@, "--force"@, worktree_path@]);
    r
}

pub fn create_branch(branch: &str, start_point: &str) -> (r: Vec<String>)
    ensures
        text::texts(r@) == seq!["branch"@, branch@, start_point@],
{
    let r = text::words(&["branch", branch, start_point]);
    assert(text::texts(r@) =~= seq!["branch"@, branch@, start_point@]);
    r
}

pub fn switch_branch(branch: &str) -> (r: Vec<String>)
    ensures
        text::texts(r@) == seq!["switch"@, branch@],
{
    let r = text::words(&["switch", branch]);
    assert(text::texts(r@) =~= seq!["switch"@, branch@]);
    r
}

/// Stashes all changes, untracked files included.
pub fn stash_push(message: &str) -> (r: Vec<String>)
    ensures
        text::texts(r@) == seq!["stash"@, "push"@, "-u"@, "-m"@, message@],
{
    let r = text::words(&["stash", "push", "-u", "-m", message]);
    assert(text::texts(r@) =~= seq!["stash"@, "push"@, "-u"@, "-m"@, message@]);
    r
}

/// What brings the base work tree up to date: fetch, then fast-forward. The second command is
/// given only where the first succeeded.
pub fn refresh_hidden_base_worktree(base: &str) -> (r: Vec<Vec<String>>)
    ensures
        text::text_lists(r@) == seq![
            seq!["fetch"@, "origin"@],
            seq!["merge"@, "--ff-only"@, "origin/"@ + base@],
        ],
{
    let upstream = text::concat("origin/", base);
    let fetch = text::words(&["fetch", "origin"]);
    assert(text::texts(fetch@) =~= seq!["fetch"@, "origin"@]);
    let merge = text::words(&["merge", "--ff-only", upstream.as_str()]);
    assert(text::texts(merge@) =~= seq!["merge"@, "--ff-only"@, "origin/"@ + base@]);
    let mut r: Vec<Vec<String>> = Vec::new();
    r.push(fetch);
    r.push(merge);
    assert(text::text_lists(r@) =~= seq![
        seq!["fetch"@, "origin"@],
        seq!["merge"@, "--ff-only"@, "origin/"@ + base@],
    ]);
    r
}

pub fn commit(message: &str) -> (r: Vec<String>)
    ensures
        text::texts(r@) == seq!["commit"@, "-m"@, message@],
{
    let r = text::words(&["commit", "-m", message]);
    assert(text::texts(r@) =~= seq!["commit"@, "-m"@, message@]);
    r
}

pub fn commit_staged_changes(message: &str) -> (r: Vec<String>)
    ensures
        text::texts(r@) == seq!["commit"@, "-m"@, message@],
{
    commit(message)
}

pub fn push(remote: &str, branch: &str, set_upstream: bool) -> (r: Vec<String>)
    ensures
        text::texts(r@) == if set_upstream {
            seq!["push"@, "--set-upstream"@, remote@, branch@]
        } else {
            seq!["push"@, remote@, branch@]
        },
{
    if set_upstream {
        let r = text::words(&["push", "--set-upstream", remote, branch]);
        assert(text::texts(r@) =~= seq!["push"@, "--set-upstream"@, remote@, branch@]);
        r
    } else {
        let r = text::words(&["push", remote, branch]);
        assert(text::texts(r@) =~= seq!["push"@, remote@, branch@]);
        r
    }
}

pub fn merge_base_into_current(base: &str) -> (r: Vec<String>)
    ensures
        text::texts(r@) == seq!["merge"@, "--no-edit"@, base@],
{
    let r = text::words(&["merge", "--no-edit", base]);
    assert(text::texts(r@) =~= seq!["merge"@, "--no-edit"@, base@]);
    r
}

pub fn stage_path(file_path: &str) -> (r: Vec<String>)
    ensures
        text::texts(r@) == seq!["add"@, "--"@, file_path@],
{
    let r = text::words(&["add", "--", file_path]);
    assert(text::texts(r@) =~= seq!["add"@, "--"@, file_path@]);
    r
}

pub fn unstage_path(file_path: &str) -> (r: Vec<String>)
    ensures
        text::texts(r@) == seq!["restore"@, "--staged"@, "--"@, file_path@],
{
    let r = text::words(&["restore", "--staged", "--", file_path]);
    assert(text::texts(r@) =~= seq!["restore"@, "--staged"@, "--"@, file_path@]);
    r
}

// ---------------------------------------------------------------------------------------------
// Laws

/// A path is staged and taken back from staging by itself, whatever it is named.
pub proof fn paths_are_staged_alone(path: &str, staged: Vec<String>, unstaged: Vec<String>)
    requires
        call_ensures(stage_path, (path,), staged),
        call_ensures(unstage_path, (path,), unstaged),
    ensures
        text::texts(staged@) == seq!["add"@, "--"@, path@],
        text::texts(unstaged@) == seq!["restore"@, "--staged"@, "--"@, path@],
{
}

/// Whether the bytes are the text, but for the white space around it.
pub open spec fn is_printed(bytes: Seq<u8>, front: Seq<char>, s: Seq<char>, back: Seq<char>) -> bool {
    &&& decode::lossy(bytes) == front + s + back
    &&& forall|i: int| 0 <= i < front.len() ==> text::white(#[trigger] front[i])
    &&& forall|i: int| 0 <= i < back.len() ==> text::white(#[trigger] back[i])
    &&& s.len() > 0
    &&& !text::white(s[0])
    &&& !text::white(s.last())
}

/// What git prints is the answer: the branch, the upstream, the root of the work tree or the
/// directory of git. Where git fails there is no answer.
pub proof fn printed_answers_are_read(
    output: &Output,
    front: Seq<char>,
    s: Seq<char>,
    back: Seq<char>,
    r: Option<String>,
)
    requires
        call_ensures(git_stdout, (output,), r) || call_ensures(get_current_branch, (output,), r)
            || call_ensures(get_upstream_branch, (output,), r) || call_ensures(
            get_repo_root,
            (output,),
            r,
        ) || call_ensures(get_git_dir, (output,), r),
        is_printed(output.stdout@, front, s, back),
    ensures
        output.code == Some(0i32) ==> (r matches Some(t) && t@ == s),
        output.code != Some(0i32) ==> r is None,
{
    text::trimming_takes_white_space(front, s, back);
}

/// Each line that git prints is one of the local branches.
pub proof fn local_branches_are_read(
    output: &Output,
    branches: Seq<Seq<char>>,
    front: Seq<char>,
    back: Seq<char>,
    r: Vec<String>,
)
    requires
        call_ensures(get_local_branches, (output,), r),
        output.code == Some(0i32),
        branches.len() > 0,
        is_printed(output.stdout@, front, text::joined(branches, seq!['\n']), back),
        forall|i: int|
            0 <= i < branches.len() ==> (#[trigger] branches[i]).len() > 0 && !branches[i].contains(
                '\n',
            ) && branches[i].last() != '\r',
    ensures
        text::texts(r@) == branches,
{
    let all = text::joined(branches, seq!['\n']);
    text::trimming_takes_white_space(front, all, back);
    text::joined_parts_come_apart(branches, '\n');
    let read = decode::line_list(all);
    assert forall|i: int| 0 <= i < branches.len() implies #[trigger] read[i] == branches[i] by {}
    assert(read =~= branches);
}

/// The work tree is dirty exactly where git says so: it succeeds and prints something.
pub proof fn dirty_trees_are_told(output: &Output, dirty: bool, c: char)
    requires
        call_ensures(is_dirty, (output,), dirty),
    ensures
        dirty ==> output.code == Some(0i32),
        dirty ==> decode::lossy(output.stdout@).len() > 0,
        output.code == Some(0i32) && decode::lossy(output.stdout@).contains(c) && !text::white(c)
            ==> dirty,
{
    let s = decode::lossy(output.stdout@);
    if s.contains(c) && !text::white(c) {
        text::dark_texts_stay(s, c);
    }
    if s.len() == 0 {
        assert(text::stripped_start(s, None) == s);
        assert(text::trimmed(s) == s);
    }
}

/// A repository is one where git answers with nothing but the word for yes.
pub proof fn repositories_are_told(
    output: &Output,
    inside: bool,
    bare: bool,
    checked: Result<(), String>,
)
    requires
        call_ensures(is_inside_work_tree, (output,), inside),
        call_ensures(is_bare_repository, (output,), bare),
        call_ensures(check_git_repository, (inside, bare), checked),
    ensures
        inside <==> output.code == Some(0i32) && output.stdout@ == seq![
            't' as u8,
            'r' as u8,
            'u' as u8,
            'e' as u8,
            '\n' as u8,
        ],
        bare == inside,
        checked is Ok <==> inside || bare,
{
    assert('t' as u8 == 116u8 && 'r' as u8 == 114u8 && 'u' as u8 == 117u8 && 'e' as u8 == 101u8
        && '\n' as u8 == 10u8);
}

/// A command went well exactly where it ended with zero. Where it did not, what it complained of is
/// told, and what it printed where it did not complain.
pub proof fn failures_are_told(
    output: &Output,
    front: Seq<char>,
    s: Seq<char>,
    back: Seq<char>,
    run: Result<(), String>,
    diff: Result<String, String>,
    strict: Result<String, String>,
)
    requires
        call_ensures(run_git, (output,), run),
        call_ensures(git_diff_output, (output, true), diff),
        call_ensures(git_diff_output, (output, false), strict),
    ensures
        run is Ok <==> output.code == Some(0i32),
        strict is Ok <==> output.code == Some(0i32),
        diff is Ok <==> output.code == Some(0i32) || output.code == Some(1i32),
        diff matches Ok(d) ==> d@ == decode::lossy(output.stdout@),
        strict matches Ok(d) ==> d@ == decode::lossy(output.stdout@),
        is_printed(output.stderr@, front, s, back) ==> {
            &&& run matches Err(e) ==> e@ == s
            &&& diff matches Err(e) ==> e@ == s
            &&& strict matches Err(e) ==> e@ == s
        },
        decode::lossy(output.stderr@).len() == 0 && is_printed(output.stdout@, front, s, back) ==> {
            &&& run matches Err(e) ==> e@ == s
            &&& strict matches Err(e) ==> e@ == s
        },
{
    if is_printed(output.stderr@, front, s, back) || is_printed(output.stdout@, front, s, back) {
        text::trimming_takes_white_space(front, s, back);
    }
    let e = decode::lossy(output.stderr@);
    if e.len() == 0 {
        assert(text::stripped_start(e, None) == e);
        assert(text::trimmed(e) == e);
    }
}

/// Something is staged exactly where git, asked to be quiet, ends with another number than zero.
pub proof fn staged_changes_are_told(output: &Output, staged: bool, arguments: Vec<String>)
    requires
        call_ensures(has_staged_changes, (output,), staged),
        call_ensures(has_staged_changes_arguments, (), arguments),
    ensures
        staged <==> output.code != Some(0i32),
        text::texts(arguments@).contains("--cached"@),
        text::texts(arguments@).contains("--exit-code"@),
{
    assert(text::texts(arguments@)[1] == "--cached"@);
    assert(text::texts(arguments@)[3] == "--exit-code"@);
}

/// What is committed has the message that was given.
pub proof fn commits_have_their_message(message: &str, one: Vec<String>, staged: Vec<String>)
    requires
        call_ensures(commit, (message,), one),
        call_ensures(commit_staged_changes, (message,), staged),
    ensures
        text::texts(one@) == seq!["commit"@, "-m"@, message@],
        text::texts(staged@) == text::texts(one@),
{
}

} // verus!
