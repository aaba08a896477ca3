//! What a commit changed, and what is changed in the work tree.

use vstd::prelude::*;
use vstd::string::*;
use crate::decode;
use crate::git::commands;
use crate::git::CommitHash;
use crate::text;

verus! {

/// What a commit did to a file.
#[derive(Debug, PartialEq, Eq)]
pub enum FileChange {
    Add { path: String },
    Modify { path: String },
    Delete { path: String },
    Move { from: String, to: String },
}

pub ghost enum FileChangeView {
    Add { path: Seq<char> },
    Modify { path: Seq<char> },
    Delete { path: Seq<char> },
    Move { from: Seq<char>, to: Seq<char> },
}

impl View for FileChange {
    type V = FileChangeView;

    open spec fn view(&self) -> FileChangeView {
        match self {
            FileChange::Add { path } => FileChangeView::Add { path: path@ },
            FileChange::Modify { path } => FileChangeView::Modify { path: path@ },
            FileChange::Delete { path } => FileChangeView::Delete { path: path@ },
            FileChange::Move { from, to } => FileChangeView::Move { from: from@, to: to@ },
        }
    }
}

/// What a list of changes says.
pub open spec fn change_views(v: Seq<FileChange>) -> Seq<FileChangeView> {
    Seq::new(v.len(), |i: int| v[i]@)
}

/// Whether a line of `git diff --name-status` has a status letter and the paths that go with it.
pub open spec fn change_line(line: Seq<char>) -> bool {
    let p = text::pieces(line, '\t');
    &&& p[0].len() > 0
    &&& text::char_bytes(p[0][0]) == 1
    &&& p[0][0] == 'A' || p[0][0] == 'M' || p[0][0] == 'D' ==> p.len() >= 2
    &&& p[0][0] == 'R' ==> p.len() >= 3
}

/// The change that a line of `git diff --name-status` tells. Other letters than these four tell
/// none.
pub open spec fn change_on(line: Seq<char>) -> Option<FileChangeView> {
    let p = text::pieces(line, '\t');
    if p[0][0] == 'A' {
        Some(FileChangeView::Add { path: p[1] })
    } else if p[0][0] == 'M' {
        Some(FileChangeView::Modify { path: p[1] })
    } else if p[0][0] == 'D' {
        Some(FileChangeView::Delete { path: p[1] })
    } else if p[0][0] == 'R' {
        Some(FileChangeView::Move { from: p[1], to: p[2] })
    } else {
        None
    }
}

/// The changes that the lines tell.
pub open spec fn changes_on(lines: Seq<Seq<char>>) -> Seq<FileChangeView>
    decreases lines.len(),
{
    if lines.len() == 0 {
        Seq::empty()
    } else {
        let rest = changes_on(lines.drop_last());
        match change_on(lines.last()) {
            Some(c) => rest.push(c),
            None => rest,
        }
    }
}

/// Whether a line can be read as a change.
pub fn is_change_line(line: &str) -> (r: bool)
    ensures
        r == change_line(line@),
{
    let parts = text::split(line, '\t');
    proof {
        text::pieces_nonempty(line@, '\t');
        assert(text::texts(parts@)[0] == parts@[0]@);
    }
    let c = text::chars_of(parts[0].as_str());
    if c.len() == 0 {
        return false;
    }
    let letter = c[0];
    if text::char_len(letter) != 1 {
        return false;
    }
    if (letter == 'A' || letter == 'M' || letter == 'D') && parts.len() < 2 {
        return false;
    }
    !(letter == 'R' && parts.len() < 3)
}

pub fn get_diff_summary_arguments(commit_hash: &CommitHash) -> (r: Vec<String>)
    ensures
        text::texts(r@) == seq![
            "diff"@,
            "--name-status"@,
            commit_hash@ + "^"@,
            commit_hash@,
        ],
{
    let parent = text::concat(commit_hash.as_str(), "^");
    let r = text::words(&["diff", "--name-status", parent.as_str(), commit_hash.as_str()]);
    assert(text::texts(r@) =~= seq![
        "diff"@,
        "--name-status"@,
        commit_hash@ + "^"@,
        commit_hash@,
    ]);
    r
}

/// Reads what `git diff --name-status` prints.
pub fn get_diff_summary(output: &str) -> (r: Vec<FileChange>)
    requires
        forall|i: int|
            0 <= i < decode::line_list(output@).len() ==> change_line(
                #[trigger] decode::line_list(output@)[i],
            ),
    ensures
        change_views(r@) == changes_on(decode::line_list(output@)),
{
    let lines = decode::lines(output);
    let ghost all = decode::line_list(output@);
    let mut changes: Vec<FileChange> = Vec::new();
    let mut i: usize = 0;
    assert(all.take(0) =~= Seq::<Seq<char>>::empty());
    assert(change_views(changes@) =~= Seq::<FileChangeView>::empty());
    while i < lines.len()
        invariant
            i <= lines@.len(),
            text::texts(lines@) == all,
            forall|i: int| 0 <= i < all.len() ==> change_line(#[trigger] all[i]),
            change_views(changes@) == changes_on(all.take(i as int)),
        decreases lines@.len() - i,
    {
        let ghost line = all[i as int];
        assert(lines@[i as int]@ == line);
        let parts = text::split(lines[i].as_str(), '\t');
        let ghost p = text::pieces(line, '\t');
        proof {
            text::pieces_nonempty(line, '\t');
            assert(p[0] == parts@[0]@);
            assert(all.take(i + 1).drop_last() =~= all.take(i as int));
            assert(all.take(i + 1).last() == line);
        }
        let letter = text::chars_of(parts[0].as_str())[0];
        let ghost before = changes@;
        if letter == 'A' {
            assert(p[1] == parts@[1]@);
            changes.push(FileChange::Add { path: parts[1].clone() });
            assert(change_views(changes@) =~= change_views(before).push(changes@.last()@));
        } else if letter == 'M' {
            assert(p[1] == parts@[1]@);
            changes.push(FileChange::Modify { path: parts[1].clone() });
            assert(change_views(changes@) =~= change_views(before).push(changes@.last()@));
        } else if letter == 'D' {
            assert(p[1] == parts@[1]@);
            changes.push(FileChange::Delete { path: parts[1].clone() });
            assert(change_views(changes@) =~= change_views(before).push(changes@.last()@));
        } else if letter == 'R' {
            assert(p[1] == parts@[1]@);
            assert(p[2] == parts@[2]@);
            changes.push(FileChange::Move { from: parts[1].clone(), to: parts[2].clone() });
            assert(change_views(changes@) =~= change_views(before).push(changes@.last()@));
        }
        i = i + 1;
    }
    assert(all.take(i as int) =~= all);
    changes
}

pub fn get_initial_commit_additions_arguments(commit_hash: &CommitHash) -> (r: Vec<String>)
    ensures
        text::texts(r@) == seq!["ls-tree"@, "--name-status"@, "-r"@, commit_hash@],
{
    let r = text::words(&["ls-tree", "--name-status", "-r", commit_hash.as_str()]);
    assert(text::texts(r@) =~= seq!["ls-tree"@, "--name-status"@, "-r"@, commit_hash@]);
    r
}

/// The additions of these paths.
pub open spec fn additions(paths: Seq<Seq<char>>) -> Seq<FileChangeView> {
    Seq::new(paths.len(), |i: int| FileChangeView::Add { path: paths[i] })
}

/// Reads what `git ls-tree --name-status -r` prints: a first commit adds all its files.
pub fn get_initial_commit_additions(output: &str) -> (r: Vec<FileChange>)
    ensures
        change_views(r@) == additions(decode::line_list(output@)),
{
    let lines = decode::lines(output);
    let mut changes: Vec<FileChange> = Vec::new();
    let mut i: usize = 0;
    while i < lines.len()
        invariant
            i <= lines@.len(),
            changes@.len() == i,
            forall|j: int|
                0 <= j < i ==> (#[trigger] changes@[j])@ == (FileChangeView::Add {
                    path: lines@[j]@,
                }),
        decreases lines@.len() - i,
    {
        changes.push(FileChange::Add { path: lines[i].clone() });
        i = i + 1;
    }
    assert(change_views(changes@) =~= additions(text::texts(lines@)));
    changes
}

/// A file of the work tree that is changed, and where the change stands.
#[derive(Debug, PartialEq, Eq)]
pub struct StatusEntry {
    pub path: String,
    pub staged: bool,
    pub unstaged: bool,
    pub untracked: bool,
    pub deleted: bool,
}

pub ghost struct StatusEntryView {
    pub path: Seq<char>,
    pub staged: bool,
    pub unstaged: bool,
    pub untracked: bool,
    pub deleted: bool,
}

impl View for StatusEntry {
    type V = StatusEntryView;

    open spec fn view(&self) -> StatusEntryView {
        StatusEntryView {
            path: self.path@,
            staged: self.staged,
            unstaged: self.unstaged,
            untracked: self.untracked,
            deleted: self.deleted,
        }
    }
}

impl Clone for StatusEntry {
    fn clone(&self) -> (r: StatusEntry)
        ensures
            r == *self,
    {
        StatusEntry {
            path: self.path.clone(),
            staged: self.staged,
            unstaged: self.unstaged,
            untracked: self.untracked,
            deleted: self.deleted,
        }
    }
}

/// What a list of entries says.
pub open spec fn entry_views(v: Seq<StatusEntry>) -> Seq<StatusEntryView> {
    Seq::new(v.len(), |i: int| v[i]@)
}

/// Whether a line of `git status --short` is long enough to hold two codes and a path.
pub open spec fn full_line(line: Seq<char>) -> bool {
    text::byte_count(line) >= 4 && line.len() >= 2
}

/// Whether the path on a line of `git status --short`, which starts at the fourth byte, can be cut
/// off.
pub open spec fn cut_line(line: Seq<char>) -> bool {
    full_line(line) ==> text::splits_at(line, 3)
}

/// The path that a line of `git status --short` gives: of a move, where to.
pub open spec fn line_path(line: Seq<char>) -> Seq<char> {
    text::after_last_text(text::trimmed(line.skip(text::chars_for(line, 3))), " -> "@)
}

/// The file that a line of `git status --short` tells of.
pub open spec fn entry_on(line: Seq<char>) -> Option<StatusEntryView> {
    if full_line(line) {
        let index = line[0];
        let tree = line[1];
        Some(
            StatusEntryView {
                path: line_path(line),
                staged: index != ' ' && index != '?',
                unstaged: tree != ' ' && tree != '?',
                untracked: index == '?' && tree == '?',
                deleted: index == 'D' || tree == 'D',
            },
        )
    } else {
        None
    }
}

/// What an optional entry says.
pub open spec fn opt_entry(r: Option<StatusEntry>) -> Option<StatusEntryView> {
    match r {
        Some(e) => Some(e@),
        None => None,
    }
}

/// Whether the path on the line can be cut off.
pub fn is_cut_line(line: &str) -> (r: bool)
    ensures
        r == cut_line(line@),
{
    if text::byte_len(line) < 4 || text::chars_of(line).len() < 2 {
        return true;
    }
    match text::chars_in_bytes(line, 3) {
        Some(_) => true,
        None => false,
    }
}

/// Reads a line of `git status --short`.
pub fn parse_status_entry(line: &str) -> (r: Option<StatusEntry>)
    requires
        cut_line(line@),
    ensures
        opt_entry(r) == entry_on(line@),
{
    if text::byte_len(line) < 4 {
        return None;
    }
    let c = text::chars_of(line);
    if c.len() < 2 {
        return None;
    }
    let index = c[0];
    let tree = c[1];
    match text::chars_in_bytes(line, 3) {
        Some(k) => {
            let raw = text::text_of(c.as_slice(), k, c.len());
            proof {
                assert(raw@ =~= line@.skip(k as int));
                reveal_strlit(" -> ");
            }
            let raw = text::trim(raw.as_str());
            let path = text::rest_after_last(raw.as_str(), " -> ");
            Some(
                StatusEntry {
                    path,
                    staged: index != ' ' && index != '?',
                    unstaged: tree != ' ' && tree != '?',
                    untracked: index == '?' && tree == '?',
                    deleted: index == 'D' || tree == 'D',
                },
            )
        },
        None => {
            assert(false);
            None
        },
    }
}

/// The files that the lines tell of.
pub open spec fn entries_on(lines: Seq<Seq<char>>) -> Seq<StatusEntryView>
    decreases lines.len(),
{
    if lines.len() == 0 {
        Seq::empty()
    } else {
        let rest = entries_on(lines.drop_last());
        match entry_on(lines.last()) {
            Some(e) => rest.push(e),
            None => rest,
        }
    }
}

pub fn get_status_entries_arguments() -> (r: Vec<String>)
    ensures
        text::texts(r@) == seq!["status"@, "--short"@, "--untracked-files=all"@],
{
    let r = text::words(&["status", "--short", "--untracked-files=all"]);
    assert(text::texts(r@) =~= seq!["status"@, "--short"@, "--untracked-files=all"@]);
    r
}

/// Reads the lines that `git status --short` printed.
pub fn get_status_entries(lines: &[String]) -> (r: Vec<StatusEntry>)
    requires
        forall|i: int| 0 <= i < lines@.len() ==> cut_line((#[trigger] lines@[i])@),
    ensures
        entry_views(r@) == entries_on(text::texts(lines@)),
{
    let ghost all = text::texts(lines@);
    let mut entries: Vec<StatusEntry> = Vec::new();
    let mut i: usize = 0;
    assert(all.take(0) =~= Seq::<Seq<char>>::empty());
    assert(entry_views(entries@) =~= Seq::<StatusEntryView>::empty());
    while i < lines.len()
        invariant
            i <= lines@.len(),
            all == text::texts(lines@),
            forall|i: int| 0 <= i < lines@.len() ==> cut_line((#[trigger] lines@[i])@),
            entry_views(entries@) == entries_on(all.take(i as int)),
        decreases lines@.len() - i,
    {
        proof {
            assert(all.take(i + 1).drop_last() =~= all.take(i as int));
            assert(all.take(i + 1).last() == lines@[i as int]@);
        }
        match parse_status_entry(lines[i].as_str()) {
            Some(e) => {
                assert(entry_views(entries@.push(e)) =~= entry_views(entries@).push(e@));
                entries.push(e);
            },
            None => {},
        }
        i = i + 1;
    }
    assert(all.take(i as int) =~= all);
    entries
}

/// A diff that git is asked for.
#[derive(Debug)]
pub struct DiffRequest {
    pub arguments: Vec<String>,
    /// Whether exit code one means a difference and no failure.
    pub allow_exit_code_one: bool,
}

pub open spec fn untracked_diff(path: Seq<char>) -> Seq<Seq<char>> {
    seq!["diff"@, "--no-index"@, "--color=never"@, "--"@, "/dev/null"@, path]
}

pub open spec fn staged_diff(path: Seq<char>) -> Seq<Seq<char>> {
    seq!["diff"@, "--cached"@, "--color=never"@, "--"@, path]
}

pub open spec fn unstaged_diff(path: Seq<char>) -> Seq<Seq<char>> {
    seq!["diff"@, "--color=never"@, "--"@, path]
}

/// The diffs that show an entry's changes: of an untracked file the one against nothing, else the
/// staged and the unstaged one.
pub open spec fn diffs_for(e: StatusEntryView) -> Seq<(Seq<Seq<char>>, bool)> {
    if e.untracked {
        seq![(untracked_diff(e.path), true)]
    } else {
        (if e.staged {
            seq![(staged_diff(e.path), false)]
        } else {
            seq![]
        }) + if e.unstaged {
            seq![(unstaged_diff(e.path), false)]
        } else {
            seq![]
        }
    }
}

/// What a list of requests says.
pub open spec fn request_views(v: Seq<DiffRequest>) -> Seq<(Seq<Seq<char>>, bool)> {
    Seq::new(v.len(), |i: int| (text::texts(v[i].arguments@), v[i].allow_exit_code_one))
}

/// The diffs that git is to be asked for, in this order, up to the first that fails.
pub fn get_status_diff_requests(entry: &StatusEntry) -> (r: Vec<DiffRequest>)
    ensures
        request_views(r@) == diffs_for(entry@),
{
    let path = entry.path.as_str();
    let mut r: Vec<DiffRequest> = Vec::new();
    if entry.untracked {
        let arguments = text::words(
            &["diff", "--no-index", "--color=never", "--", "/dev/null", path],
        );
        assert(text::texts(arguments@) =~= untracked_diff(path@));
        r.push(DiffRequest { arguments, allow_exit_code_one: true });
        assert(request_views(r@) =~= diffs_for(entry@));
        return r;
    }
    if entry.staged {
        let arguments = text::words(&["diff", "--cached", "--color=never", "--", path]);
        assert(text::texts(arguments@) =~= staged_diff(path@));
        r.push(DiffRequest { arguments, allow_exit_code_one: false });
    }
    if entry.unstaged {
        let arguments = text::words(&["diff", "--color=never", "--", path]);
        assert(text::texts(arguments@) =~= unstaged_diff(path@));
        r.push(DiffRequest { arguments, allow_exit_code_one: false });
    }
    assert(request_views(r@) =~= diffs_for(entry@));
    r
}

/// Two diffs under a heading each.
pub open spec fn both_diffs(staged: Seq<char>, unstaged: Seq<char>) -> Seq<char> {
    "--- staged ---\n"@ + staged + (if staged.len() > 0 && staged.last() == '\n' {
        seq![]
    } else {
        seq!['\n']
    }) + "--- unstaged ---\n"@ + unstaged
}

/// What an entry's diffs come to: the first error, else the one diff, both under headings, or
/// nothing.
pub open spec fn status_diff(outcomes: Seq<Result<Seq<char>, Seq<char>>>) -> Result<
    Seq<char>,
    Seq<char>,
> {
    if outcomes.len() == 0 {
        Ok(Seq::empty())
    } else if outcomes[0] is Err || outcomes.len() == 1 {
        outcomes[0]
    } else if outcomes[1] is Err {
        outcomes[1]
    } else {
        Ok(both_diffs(outcomes[0]->Ok_0, outcomes[1]->Ok_0))
    }
}

/// What a list of outcomes says.
pub open spec fn outcome_views(v: Seq<Result<String, String>>) -> Seq<
    Result<Seq<char>, Seq<char>>,
> {
    Seq::new(v.len(), |i: int| commands::text_outcome(v[i]))
}

fn copy_outcome(r: &Result<String, String>) -> (c: Result<String, String>)
    ensures
        commands::text_outcome(c) == commands::text_outcome(*r),
{
    match r {
        Ok(s) => Ok(s.clone()),
        Err(e) => Err(e.clone()),
    }
}

/// Puts together the diffs that were asked for. They end at the first that failed.
pub fn get_status_diff(outcomes: &[Result<String, String>]) -> (r: Result<String, String>)
    requires
        outcomes@.len() <= 2,
    ensures
        commands::text_outcome(r) == status_diff(outcome_views(outcomes@)),
{
    if outcomes.len() == 0 {
        let none = String::new();
        return Ok(none);
    }
    let ghost views = outcome_views(outcomes@);
    assert(views[0] == commands::text_outcome(outcomes@[0]));
    if outcomes.len() == 1 {
        return copy_outcome(&outcomes[0]);
    }
    assert(views[1] == commands::text_outcome(outcomes@[1]));
    match &outcomes[0] {
        Err(e) => Err(e.clone()),
        Ok(staged) => match &outcomes[1] {
            Err(e) => Err(e.clone()),
            Ok(unstaged) => {
                let mut diff = "--- staged ---\n".to_string();
                diff.append(staged.as_str());
                let c = text::chars_of(staged.as_str());
                if !(c.len() > 0 && c[c.len() - 1] == '\n') {
                    diff.push('\n');
                }
                diff.append("--- unstaged ---\n");
                diff.append(unstaged.as_str());
                assert(diff@ =~= both_diffs(staged@, unstaged@));
                Ok(diff)
            },
        },
    }
}

// ---------------------------------------------------------------------------------------------
// Laws

/// Whether git writes this letter for a change of a tracked file.
pub open spec fn is_change_code(c: char) -> bool {
    c == 'M' || c == 'T' || c == 'A' || c == 'D' || c == 'R' || c == 'C' || c == 'U'
}

/// Whether git writes these two codes before a path: one for what is staged and one for what is not,
/// of which a space says that there is no change, or two question marks for a file that it does not
/// know.
pub open spec fn are_codes(index: char, tree: char) -> bool {
    ||| index == '?' && tree == '?'
    ||| (is_change_code(index) || index == ' ') && (is_change_code(tree) || tree == ' ')
}

/// Whether a path has characters, of which neither the first nor the last is white space.
pub open spec fn is_clean_path(path: Seq<char>) -> bool {
    path.len() > 0 && !text::white(path[0]) && !text::white(path.last())
}

/// The line that git writes for a path.
pub open spec fn status_line(index: char, tree: char, path: Seq<char>) -> Seq<char> {
    seq![index, tree, ' '] + path
}

proof fn codes_take_single_bytes(index: char, tree: char, path: Seq<char>)
    requires
        are_codes(index, tree),
        path.len() > 0,
    ensures
        full_line(status_line(index, tree, path)),
        cut_line(status_line(index, tree, path)),
        text::chars_for(status_line(index, tree, path), 3) == 3,
{
    let line = status_line(index, tree, path);
    let front = seq![index, tree, ' '];
    assert forall|i: int| 0 <= i < front.len() implies text::char_bytes(#[trigger] front[i]) == 1 by {
        assert(front[i] as u32 <= 0x7f);
    }
    text::ascii_takes_single_bytes(front);
    text::byte_count_add(front, path);
    assert(line.take(3) =~= front);
    text::chars_for_is(line, 3, 3);
    text::byte_count_grows(path, 0, path.len() as int);
    assert(path.take(path.len() as int) =~= path);
}

/// A line of the short status tells its path as it stands there, and what the two codes say: a change
/// is staged or unstaged exactly where the one or the other code is a letter, a file is unknown
/// exactly where the codes are question marks, and deleted exactly where one of them says so.
pub proof fn codes_are_told(index: char, tree: char, path: Seq<char>)
    requires
        are_codes(index, tree),
        is_clean_path(path),
        !text::holds(path, " -> "@),
    ensures
        entry_on(status_line(index, tree, path)) matches Some(e) && {
            &&& e.path == path
            &&& e.staged <==> is_change_code(index)
            &&& e.unstaged <==> is_change_code(tree)
            &&& e.untracked <==> index == '?'
            &&& e.deleted <==> index == 'D' || tree == 'D'
        },
{
    let line = status_line(index, tree, path);
    codes_take_single_bytes(index, tree, path);
    assert(line.skip(3) =~= path);
    let none = Seq::<char>::empty();
    text::trimming_takes_white_space(none, path, none);
    assert(none + path + none =~= path);
    text::texts_without_stay(path, " -> "@);
}

/// Of a file that was moved, the line tells where it is now.
pub proof fn moves_are_told(index: char, tree: char, from: Seq<char>, to: Seq<char>)
    requires
        are_codes(index, tree),
        from.len() > 0,
        !text::white(from[0]),
        is_clean_path(to),
        !text::holds("-> "@ + to, " -> "@),
    ensures
        entry_on(status_line(index, tree, from + " -> "@ + to)) matches Some(e) && e.path == to,
{
    reveal_strlit(" -> ");
    reveal_strlit("-> ");
    let path = from + " -> "@ + to;
    let line = status_line(index, tree, path);
    codes_take_single_bytes(index, tree, path);
    assert(line.skip(3) =~= path);
    let none = Seq::<char>::empty();
    assert(path.last() == to.last());
    text::trimming_takes_white_space(none, path, none);
    assert(none + path + none =~= path);
    assert(" -> "@.skip(1) =~= "-> "@);
    text::rest_stands_after_the_last(from, " -> "@, to);
}

/// Each line that is long enough tells of one file, in the order of the lines.
pub proof fn every_line_is_told(lines: Seq<Seq<char>>)
    requires
        forall|i: int| 0 <= i < lines.len() ==> full_line(#[trigger] lines[i]),
    ensures
        entries_on(lines).len() == lines.len(),
        forall|i: int|
            0 <= i < lines.len() ==> Some(entries_on(lines)[i]) == entry_on(#[trigger] lines[i]),
    decreases lines.len(),
{
    if lines.len() > 0 {
        let front = lines.drop_last();
        assert forall|i: int| 0 <= i < front.len() implies full_line(#[trigger] front[i]) by {
            assert(full_line(lines[i]));
        }
        every_line_is_told(front);
        assert(full_line(lines[lines.len() - 1]));
        assert forall|i: int| 0 <= i < lines.len() implies Some(entries_on(lines)[i]) == entry_on(
            #[trigger] lines[i],
        ) by {
            if i < front.len() {
                assert(front[i] == lines[i]);
            }
        }
    }
}

/// Every change that a line tells of is shown by a diff of its path: a staged one by the diff of what
/// is staged, an unstaged one by the diff of the work tree, a file that git does not know by the diff
/// against nothing, and no other diff is asked for.
pub proof fn told_changes_are_diffed(index: char, tree: char, path: Seq<char>)
    requires
        are_codes(index, tree),
        is_clean_path(path),
        !text::holds(path, " -> "@),
    ensures
        entry_on(status_line(index, tree, path)) matches Some(e) && {
            let diffs = diffs_for(e);
            &&& index == '?' ==> diffs == seq![
                (
                    seq!["diff"@, "--no-index"@, "--color=never"@, "--"@, "/dev/null"@, path],
                    true,
                ),
            ]
            &&& index != '?' ==> {
                &&& is_change_code(index) <==> diffs.contains(
                    (seq!["diff"@, "--cached"@, "--color=never"@, "--"@, path], false),
                )
                &&& is_change_code(tree) <==> diffs.contains(
                    (seq!["diff"@, "--color=never"@, "--"@, path], false),
                )
                &&& diffs.len() == (if is_change_code(index) {
                    1int
                } else {
                    0
                }) + (if is_change_code(tree) {
                    1int
                } else {
                    0
                })
            }
        },
{
    codes_are_told(index, tree, path);
    let e = entry_on(status_line(index, tree, path))->0;
    let diffs = diffs_for(e);
    let staged = seq!["diff"@, "--cached"@, "--color=never"@, "--"@, path];
    let unstaged = seq!["diff"@, "--color=never"@, "--"@, path];
    assert(staged.len() == 5 && unstaged.len() == 4);
    if index != '?' {
        if e.staged {
            assert(diffs[0] == (staged, false));
        }
        if e.unstaged {
            assert(diffs[diffs.len() - 1] == (unstaged, false));
        }
    }
}

/// What is shown of a file holds every diff that was made of it, and an error where one failed.
pub proof fn diffs_are_shown(staged: Seq<char>, unstaged: Seq<char>, e: Seq<char>)
    ensures
        status_diff(Seq::empty()) == Ok::<Seq<char>, Seq<char>>(Seq::empty()),
        status_diff(seq![Ok(staged)]) == Ok::<Seq<char>, Seq<char>>(staged),
        status_diff(seq![Ok(staged), Ok(unstaged)]) matches Ok(both) && text::holds(both, staged)
            && text::holds(both, unstaged) && text::begins(both, "--- staged ---\n"@) && text::holds(
            both,
            "--- unstaged ---\n"@ + unstaged,
        ),
        status_diff(seq![Err(e)]) == Err::<Seq<char>, Seq<char>>(e),
        status_diff(seq![Ok(staged), Err(e)]) == Err::<Seq<char>, Seq<char>>(e),
{
    let both = both_diffs(staged, unstaged);
    let head = "--- staged ---\n"@;
    let mid = if staged.len() > 0 && staged.last() == '\n' {
        Seq::<char>::empty()
    } else {
        seq!['\n']
    };
    let second = "--- unstaged ---\n"@;
    assert(both.subrange(0, head.len() as int) =~= head);
    let n = head.len() as int;
    assert(both.subrange(n, n + staged.len()) =~= staged);
    assert(text::holds_at(both, staged, n));
    let k = n + staged.len() + mid.len();
    assert(both.subrange(k, k + second.len() + unstaged.len()) =~= second + unstaged);
    assert(text::holds_at(both, second + unstaged, k));
    assert(both.subrange(k + second.len(), k + second.len() + unstaged.len()) =~= unstaged);
    assert(text::holds_at(both, unstaged, k + second.len()));
    let outcomes: Seq<Result<Seq<char>, Seq<char>>> = seq![Ok(staged), Ok(unstaged)];
    assert(outcomes[0]->Ok_0 == staged && outcomes[1]->Ok_0 == unstaged);
}

/// A line of the summary of a commit tells what its letter says of the path behind it, whatever
/// stands behind the letter; of a file that was moved it tells where from and where to.
pub proof fn summaries_are_told(score: Seq<char>, path: Seq<char>, to: Seq<char>)
    requires
        !score.contains('\t'),
        !path.contains('\t'),
        !to.contains('\t'),
    ensures
        change_on(seq!['A'] + score + seq!['\t'] + path) == Some(FileChangeView::Add { path }),
        change_on(seq!['M'] + score + seq!['\t'] + path) == Some(FileChangeView::Modify { path }),
        change_on(seq!['D'] + score + seq!['\t'] + path) == Some(FileChangeView::Delete { path }),
        change_on(seq!['R'] + score + seq!['\t'] + path + seq!['\t'] + to) == Some(
            FileChangeView::Move { from: path, to },
        ),
{
    summary_comes_apart('A', score, path);
    summary_comes_apart('M', score, path);
    summary_comes_apart('D', score, path);
    summary_comes_apart('R', score, path);
    let line = seq!['R'] + score + seq!['\t'] + path;
    text::pieces_add_up(line, to, '\t');
    text::plain_texts_are_one_piece(to, '\t');
}

proof fn summary_comes_apart(letter: char, score: Seq<char>, path: Seq<char>)
    requires
        letter != '\t',
        !score.contains('\t'),
        !path.contains('\t'),
    ensures
        text::pieces(seq![letter] + score + seq!['\t'] + path, '\t') == seq![
            seq![letter] + score,
            path,
        ],
{
    let head = seq![letter] + score;
    if head.contains('\t') {
        let i = choose|i: int| 0 <= i < head.len() && head[i] == '\t';
        assert(score[i - 1] == '\t');
    }
    text::plain_texts_are_one_piece(head, '\t');
    text::plain_texts_are_one_piece(path, '\t');
    text::pieces_add_up(head, path, '\t');
    assert(text::pieces(head + seq!['\t'] + path, '\t') =~= seq![head, path]);
}

/// Each line of a summary that tells a change is listed, in the order of the lines.
pub proof fn every_change_is_listed(lines: Seq<Seq<char>>)
    requires
        forall|i: int| 0 <= i < lines.len() ==> change_on(#[trigger] lines[i]) is Some,
    ensures
        changes_on(lines).len() == lines.len(),
        forall|i: int|
            0 <= i < lines.len() ==> Some(changes_on(lines)[i]) == change_on(#[trigger] lines[i]),
    decreases lines.len(),
{
    if lines.len() > 0 {
        let front = lines.drop_last();
        assert forall|i: int| 0 <= i < front.len() implies change_on(#[trigger] front[i]) is Some by {
            assert(change_on(lines[i]) is Some);
        }
        every_change_is_listed(front);
        assert(change_on(lines[lines.len() - 1]) is Some);
        assert forall|i: int| 0 <= i < lines.len() implies Some(changes_on(lines)[i]) == change_on(
            #[trigger] lines[i],
        ) by {
            if i < front.len() {
                assert(front[i] == lines[i]);
            }
        }
    }
}

/// A first commit adds every file that is listed, and nothing else.
pub proof fn first_commits_add_all(paths: Seq<Seq<char>>, path: Seq<char>)
    ensures
        additions(paths).len() == paths.len(),
        additions(paths).contains(FileChangeView::Add { path }) <==> paths.contains(path),
        forall|i: int| 0 <= i < paths.len() ==> #[trigger] additions(paths)[i] is Add,
{
    if paths.contains(path) {
        let i = choose|i: int| 0 <= i < paths.len() && paths[i] == path;
        assert(additions(paths)[i] == (FileChangeView::Add { path }));
    }
    if additions(paths).contains(FileChangeView::Add { path }) {
        let i = choose|i: int|
            0 <= i < additions(paths).len() && additions(paths)[i] == (FileChangeView::Add {
                path,
            });
        assert(paths[i] == path);
    }
}

/// Whatever the two codes on a line are, a change is unstaged exactly where the second is neither a
/// space nor a question mark, and staged exactly where the first is neither. Two codes that are
/// turned round tell the same the other way round.
pub proof fn codes_stand_for_themselves(
    line: &str,
    turned: &str,
    r: Option<StatusEntry>,
    t: Option<StatusEntry>,
)
    requires
        call_ensures(parse_status_entry, (line,), r),
        call_ensures(parse_status_entry, (turned,), t),
        line@.len() >= 4,
        turned@ == seq![line@[1], line@[0]] + line@.skip(2),
    ensures
        r matches Some(e) && {
            &&& e.unstaged <==> !(line@[1] == ' ' || line@[1] == '?')
            &&& e.staged <==> !(line@[0] == ' ' || line@[0] == '?')
            &&& e.untracked <==> line@[0] == '?' && line@[1] == '?'
            &&& t matches Some(other) && {
                &&& other.staged == e.unstaged
                &&& other.unstaged == e.staged
                &&& other.untracked == e.untracked
                &&& other.deleted == e.deleted
            }
        },
{
    text::byte_count_grows(line@, 0, line@.len() as int);
    text::byte_count_grows(turned@, 0, turned@.len() as int);
    assert(line@.take(line@.len() as int) =~= line@);
    assert(turned@.take(turned@.len() as int) =~= turned@);
}

} // verus!
