//! What is done to the branches of the repository, step by step.

use vstd::prelude::*;
use vstd::string::*;
use crate::app::status_line;
use crate::app::status_line::StatusLine;
use crate::config::GitHelperConfig;
use crate::git::commands;
use crate::paths;
use crate::text;

verus! {

/// What is said where the directory that git keeps its data in is not known.
pub const NO_GIT_DIR: &'static str = "Failed to resolve git dir";

/// The directory that git keeps its data in, where it is known.
pub fn resolve_git_dir(answer: Option<String>) -> (r: Result<String, String>)
    ensures
        commands::text_outcome(r) == match answer {
            Some(dir) => Ok(dir@),
            None => Err(NO_GIT_DIR@),
        },
{
    match answer {
        Some(dir) => Ok(dir),
        None => Err(NO_GIT_DIR.to_string()),
    }
}

/// What is to be done.
#[derive(Debug, PartialEq, Eq)]
pub enum Task {
    CreateBranch { base_branch: String, suffix: String },
    SwitchBranch { branch: String },
    PushCurrentBranch,
    MergeBase,
    InstallHook,
    SetBase { base_branch: String },
    SetBranchPrefix { prefix: String },
}

/// Which of the things that can be done is being done.
#[derive(Debug, Clone, Copy, PartialEq, Eq, Structural)]
pub enum Purpose {
    CreateBranch,
    SwitchBranch,
    PushCurrentBranch,
    MergeBase,
    InstallHook,
    SetBase,
    SetBranchPrefix,
}

/// How far a job has come: what is found out or done next.
#[derive(Debug, Clone, Copy, PartialEq, Eq, Structural)]
pub enum Point {
    FindTreeState,
    FindCurrent,
    FindOrigin,
    FindRoot,
    FindWorktree,
    MakeParents,
    AddWorktree,
    FindWorktreeBranch,
    FindWorktreeState,
    FetchBase,
    ForwardBase,
    FindPrefix,
    CreateBranch,
    SwitchBranch,
    RecordOrigin,
    Stash,
    FindUpstream,
    Push,
    PushUpstream,
    Merge,
    FindGitDir,
    WriteHook,
    FindLocalBranches,
    ResetPrefix,
    RecordPrefix,
}

/// A job: what it is for, how far it has come, and the branch, the base, the name and the path of
/// the worktree that it deals with.
#[derive(Debug, PartialEq, Eq)]
pub struct Job {
    pub purpose: Purpose,
    pub point: Point,
    pub branch: String,
    pub base: String,
    pub name: String,
    pub path: String,
}

pub ghost struct JobView {
    pub purpose: Purpose,
    pub point: Point,
    pub branch: Seq<char>,
    pub base: Seq<char>,
    pub name: Seq<char>,
    pub path: Seq<char>,
}

impl View for Job {
    type V = JobView;

    open spec fn view(&self) -> JobView {
        JobView {
            purpose: self.purpose,
            point: self.point,
            branch: self.branch@,
            base: self.base@,
            name: self.name@,
            path: self.path@,
        }
    }
}

/// What a job asks for. Where a directory is named, git is asked there, else where the program was
/// started.
#[derive(Debug, PartialEq, Eq)]
pub enum Ask {
    Git { directory: Option<String>, arguments: Vec<String> },
    Exists { path: String },
    MakeParents { path: String },
    Origin { branch: String },
    Prefix,
    RecordOrigin { branch: String, base: String },
    RecordPrefix { prefix: Option<String> },
    WriteHook { git_dir: String },
}

pub ghost enum AskView {
    Git { directory: Option<Seq<char>>, arguments: Seq<Seq<char>> },
    Exists { path: Seq<char> },
    MakeParents { path: Seq<char> },
    Origin { branch: Seq<char> },
    Prefix,
    RecordOrigin { branch: Seq<char>, base: Seq<char> },
    RecordPrefix { prefix: Option<Seq<char>> },
    WriteHook { git_dir: Seq<char> },
}

impl View for Ask {
    type V = AskView;

    open spec fn view(&self) -> AskView {
        match self {
            Ask::Git { directory, arguments } => AskView::Git {
                directory: text::opt_text(*directory),
                arguments: text::texts(arguments@),
            },
            Ask::Exists { path } => AskView::Exists { path: path@ },
            Ask::MakeParents { path } => AskView::MakeParents { path: path@ },
            Ask::Origin { branch } => AskView::Origin { branch: branch@ },
            Ask::Prefix => AskView::Prefix,
            Ask::RecordOrigin { branch, base } => AskView::RecordOrigin {
                branch: branch@,
                base: base@,
            },
            Ask::RecordPrefix { prefix } => AskView::RecordPrefix { prefix: text::opt_text(*prefix) },
            Ask::WriteHook { git_dir } => AskView::WriteHook { git_dir: git_dir@ },
        }
    }
}

/// What a job is told: what git printed where it printed something, whether something is so, the
/// lines of a list, what is remembered, or whether something was done.
#[derive(Debug, PartialEq, Eq)]
pub enum Told {
    Answer(Option<String>),
    Flag(bool),
    Lines(Vec<String>),
    Lookup(Result<Option<String>, String>),
    Done(Result<(), String>),
}

pub ghost enum ToldView {
    Answer(Option<Seq<char>>),
    Flag(bool),
    Lines(Seq<Seq<char>>),
    Lookup(Result<Option<Seq<char>>, Seq<char>>),
    Done(Result<(), Seq<char>>),
}

impl View for Told {
    type V = ToldView;

    open spec fn view(&self) -> ToldView {
        match self {
            Told::Answer(a) => ToldView::Answer(text::opt_text(*a)),
            Told::Flag(b) => ToldView::Flag(*b),
            Told::Lines(v) => ToldView::Lines(text::texts(v@)),
            Told::Lookup(Ok(a)) => ToldView::Lookup(Ok(text::opt_text(*a))),
            Told::Lookup(Err(e)) => ToldView::Lookup(Err(e@)),
            Told::Done(r) => ToldView::Done(commands::unit_outcome(*r)),
        }
    }
}

/// How a job ends: what is said, if anything, and whether the repository is to be read anew.
#[derive(Debug, PartialEq, Eq)]
pub struct Ending {
    pub notice: Option<StatusLine>,
    pub refresh: bool,
}

pub ghost struct EndingView {
    pub notice: Option<status_line::StatusLineView>,
    pub refresh: bool,
}

impl View for Ending {
    type V = EndingView;

    open spec fn view(&self) -> EndingView {
        EndingView {
            notice: match self.notice {
                Some(l) => Some(l@),
                None => None,
            },
            refresh: self.refresh,
        }
    }
}

/// A job that goes on, or its end.
#[derive(Debug, PartialEq, Eq)]
pub enum Progress {
    Going(Job),
    Ended(Ending),
}

pub ghost enum ProgressView {
    Going(JobView),
    Ended(EndingView),
}

impl View for Progress {
    type V = ProgressView;

    open spec fn view(&self) -> ProgressView {
        match self {
            Progress::Going(j) => ProgressView::Going(j@),
            Progress::Ended(e) => ProgressView::Ended(e@),
        }
    }
}

/// A job that ends with an error.
pub open spec fn failed(message: Seq<char>) -> ProgressView {
    ProgressView::Ended(
        EndingView {
            notice: Some(status_line::StatusLineView::NotificationError(message)),
            refresh: false,
        },
    )
}

/// A job that ends with the repository to be read anew.
pub open spec fn refreshed() -> ProgressView {
    ProgressView::Ended(EndingView { notice: None, refresh: true })
}

/// A job that ends with good news.
pub open spec fn reported(message: Seq<char>, refresh: bool) -> ProgressView {
    ProgressView::Ended(
        EndingView {
            notice: Some(status_line::StatusLineView::NotificationSuccess(message)),
            refresh,
        },
    )
}

/// A job at its beginning.
pub open spec fn begun(
    purpose: Purpose,
    point: Point,
    branch: Seq<char>,
    base: Seq<char>,
    name: Seq<char>,
) -> ProgressView {
    ProgressView::Going(JobView { purpose, point, branch, base, name, path: Seq::empty() })
}

/// A text without white space and slashes at its ends.
pub open spec fn bare(s: Seq<char>) -> Seq<char> {
    text::trimmed_of(text::trimmed(s), '/')
}

/// How a task begins. The name is what is left of what was typed.
pub open spec fn beginning(t: Task) -> ProgressView {
    let none = Seq::<char>::empty();
    match t {
        Task::CreateBranch { base_branch, suffix } => if bare(suffix@).len() == 0 {
            failed("Branch suffix cannot be empty"@)
        } else {
            begun(Purpose::CreateBranch, Point::FindRoot, none, base_branch@, bare(suffix@))
        },
        Task::SwitchBranch { branch } => if text::trimmed(branch@).len() == 0 {
            failed("Branch name cannot be empty"@)
        } else {
            begun(Purpose::SwitchBranch, Point::FindTreeState, none, none, text::trimmed(branch@))
        },
        Task::PushCurrentBranch => begun(
            Purpose::PushCurrentBranch,
            Point::FindCurrent,
            none,
            none,
            none,
        ),
        Task::MergeBase => begun(Purpose::MergeBase, Point::FindTreeState, none, none, none),
        Task::InstallHook => begun(Purpose::InstallHook, Point::FindGitDir, none, none, none),
        Task::SetBase { base_branch } => begun(
            Purpose::SetBase,
            Point::FindLocalBranches,
            none,
            text::trimmed(base_branch@),
            none,
        ),
        Task::SetBranchPrefix { prefix } => if bare(prefix@).len() == 0 {
            begun(Purpose::SetBranchPrefix, Point::ResetPrefix, none, none, none)
        } else {
            begun(Purpose::SetBranchPrefix, Point::RecordPrefix, none, none, bare(prefix@))
        },
    }
}

/// What is said of the stash that keeps changes over a switch.
pub open spec fn stash_message(prefix: Seq<char>, from: Seq<char>, to: Seq<char>) -> Seq<char> {
    prefix + ": "@ + from + " -> "@ + to
}

/// What a job asks for.
pub open spec fn asked(j: JobView, c: &GitHelperConfig) -> AskView {
    let here = |arguments: Seq<Seq<char>>| AskView::Git { directory: None, arguments };
    let there = |arguments: Seq<Seq<char>>| AskView::Git { directory: Some(j.path), arguments };
    match j.point {
        Point::FindTreeState => here(seq!["status"@, "--short"@]),
        Point::FindCurrent => here(seq!["branch"@, "--show-current"@]),
        Point::FindOrigin => AskView::Origin { branch: j.branch },
        Point::FindRoot => here(seq!["rev-parse"@, "--show-toplevel"@]),
        Point::FindWorktree => AskView::Exists { path: j.path },
        Point::MakeParents => AskView::MakeParents { path: j.path },
        Point::AddWorktree => here(
            seq!["worktree"@, "add"@, "-B"@, j.base, j.path, j.base],
        ),
        Point::FindWorktreeBranch => there(seq!["branch"@, "--show-current"@]),
        Point::FindWorktreeState => there(seq!["status"@, "--short"@]),
        Point::FetchBase => there(seq!["fetch"@, "origin"@]),
        Point::ForwardBase => there(seq!["merge"@, "--ff-only"@, "origin/"@ + j.base]),
        Point::FindPrefix => AskView::Prefix,
        Point::CreateBranch => here(seq!["branch"@, j.branch, j.base]),
        Point::SwitchBranch => here(
            seq![
                "switch"@,
                if j.purpose == Purpose::SwitchBranch {
                    j.name
                } else {
                    j.branch
                },
            ],
        ),
        Point::RecordOrigin => AskView::RecordOrigin { branch: j.branch, base: j.base },
        Point::Stash => here(
            seq![
                "stash"@,
                "push"@,
                "-u"@,
                "-m"@,
                stash_message(c.stash_message_prefix@, j.branch, j.name),
            ],
        ),
        Point::FindUpstream => here(
            seq!["rev-parse"@, "--abbrev-ref"@, "--symbolic-full-name"@, "@{upstream}"@],
        ),
        Point::Push => here(seq!["push"@, "origin"@, j.branch]),
        Point::PushUpstream => here(seq!["push"@, "--set-upstream"@, "origin"@, j.branch]),
        Point::Merge => here(seq!["merge"@, "--no-edit"@, j.base]),
        Point::FindGitDir => here(seq!["rev-parse"@, "--absolute-git-dir"@]),
        Point::WriteHook => AskView::WriteHook { git_dir: j.path },
        Point::FindLocalBranches => here(
            seq!["for-each-ref"@, "--format=%(refname:short)"@, "refs/heads"@],
        ),
        Point::ResetPrefix => AskView::RecordPrefix { prefix: None },
        Point::RecordPrefix => AskView::RecordPrefix { prefix: Some(j.name) },
    }
}

/// Whether what is told answers what is asked at a point.
pub open spec fn fits(p: Point, t: ToldView) -> bool {
    match p {
        Point::FindTreeState | Point::FindWorktreeState | Point::FindWorktree => t is Flag,
        Point::FindCurrent
        | Point::FindRoot
        | Point::FindGitDir
        | Point::FindWorktreeBranch
        | Point::FindUpstream => t is Answer,
        Point::FindOrigin | Point::FindPrefix => t is Lookup,
        Point::FindLocalBranches => t is Lines,
        _ => t is Done,
    }
}

impl JobView {
    pub open spec fn at(self, point: Point) -> ProgressView {
        ProgressView::Going(JobView { point, ..self })
    }
}

/// Where the current branch is known, how a job goes on.
pub open spec fn with_current(j: JobView, current: Option<Seq<char>>) -> ProgressView {
    match (j.purpose, current) {
        (Purpose::SwitchBranch, _) => (JobView {
            branch: match current {
                Some(b) => b,
                None => "detached"@,
            },
            ..j
        }).at(Point::Stash),
        (_, None) => failed("Not on a branch"@),
        (Purpose::PushCurrentBranch, Some(b)) => (JobView { branch: b, ..j }).at(
            Point::FindUpstream,
        ),
        (Purpose::MergeBase, Some(b)) => (JobView { branch: b, ..j }).at(Point::FindOrigin),
        (_, Some(b)) => (JobView { branch: b, ..j }).at(Point::RecordOrigin),
    }
}

/// How a job ends where all was done.
pub open spec fn finished(j: JobView, c: &GitHelperConfig) -> ProgressView {
    match j.purpose {
        Purpose::InstallHook => reported("Installed lil-big-helper pre-commit hook"@, false),
        Purpose::SetBase => reported(
            "Base branch for '"@ + j.branch + "' set to '"@ + j.base + "'"@,
            true,
        ),
        Purpose::SetBranchPrefix => if j.point == Point::ResetPrefix {
            reported("Branch prefix reset to default '"@ + c.branch_prefix@ + "'"@, false)
        } else {
            reported("Branch prefix set to '"@ + j.name + "'"@, true)
        },
        _ => refreshed(),
    }
}

/// Where something was done, how a job goes on.
pub open spec fn after_done(j: JobView, c: &GitHelperConfig) -> ProgressView {
    match j.point {
        Point::MakeParents => j.at(Point::AddWorktree),
        Point::AddWorktree => j.at(Point::FindWorktreeBranch),
        Point::FetchBase => j.at(Point::ForwardBase),
        Point::ForwardBase => if j.purpose == Purpose::MergeBase {
            j.at(Point::Merge)
        } else {
            j.at(Point::FindPrefix)
        },
        Point::CreateBranch => j.at(Point::SwitchBranch),
        Point::SwitchBranch => if j.purpose == Purpose::SwitchBranch {
            finished(j, c)
        } else {
            j.at(Point::RecordOrigin)
        },
        Point::Stash => j.at(Point::SwitchBranch),
        _ => finished(j, c),
    }
}

/// What is said of a worktree that is not as it should be.
pub open spec fn wrong_worktree(path: Seq<char>, base: Seq<char>) -> Seq<char> {
    "Hidden worktree '"@ + path + "' is not checked out to '"@ + base + "'"@
}

/// How a job goes on with what it is told.
pub open spec fn going_on(j: JobView, t: ToldView, c: &GitHelperConfig) -> ProgressView {
    match (j.point, t) {
        (Point::FindTreeState, ToldView::Flag(dirty)) => match (j.purpose, dirty) {
            (Purpose::MergeBase, true) => failed(
                "Worktree is dirty; stash or commit before merging base"@,
            ),
            (Purpose::SwitchBranch, false) => j.at(Point::SwitchBranch),
            _ => j.at(Point::FindCurrent),
        },
        (Point::FindCurrent, ToldView::Answer(current)) => with_current(j, current),
        (Point::FindOrigin, ToldView::Lookup(Err(e))) => failed(e),
        (Point::FindOrigin, ToldView::Lookup(Ok(None))) => failed(
            "No base branch recorded for '"@ + j.branch + "'"@,
        ),
        (Point::FindOrigin, ToldView::Lookup(Ok(Some(base)))) => (JobView { base, ..j }).at(
            Point::FindRoot,
        ),
        (Point::FindRoot, ToldView::Answer(None)) => failed("Failed to resolve repository root"@),
        (Point::FindRoot, ToldView::Answer(Some(root))) => (JobView {
            path: paths::path_under(paths::path_under(root, c.hidden_worktree_dir@), j.base),
            ..j
        }).at(Point::FindWorktree),
        (Point::FindGitDir, ToldView::Answer(None)) => failed(NO_GIT_DIR@),
        (Point::FindGitDir, ToldView::Answer(Some(dir))) => (JobView { path: dir, ..j }).at(
            Point::WriteHook,
        ),
        (Point::FindWorktree, ToldView::Flag(exists)) => j.at(
            if exists {
                Point::FindWorktreeBranch
            } else {
                Point::MakeParents
            },
        ),
        (Point::FindWorktreeBranch, ToldView::Answer(current)) => if current == Some(j.base) {
            j.at(Point::FindWorktreeState)
        } else {
            failed(wrong_worktree(j.path, j.base))
        },
        (Point::FindWorktreeState, ToldView::Flag(dirty)) => if dirty {
            failed("Hidden worktree '"@ + j.path + "' is dirty"@)
        } else {
            j.at(Point::FetchBase)
        },
        (Point::FindPrefix, ToldView::Lookup(found)) => (JobView {
            branch: prefix_from(found, c) + "/"@ + j.name,
            ..j
        }).at(Point::CreateBranch),
        (Point::FindUpstream, ToldView::Answer(upstream)) => j.at(
            if upstream is None && c.auto_set_upstream_on_first_push {
                Point::PushUpstream
            } else {
                Point::Push
            },
        ),
        (Point::FindLocalBranches, ToldView::Lines(branches)) => if branches.contains(j.base) {
            j.at(Point::FindCurrent)
        } else {
            failed("Unknown local branch '"@ + j.base + "'"@)
        },
        (_, ToldView::Done(Err(e))) => failed(e),
        (_, ToldView::Done(Ok(_))) => after_done(j, c),
        _ => ProgressView::Going(j),
    }
}

/// The prefix of new branches: what is remembered, else what is set.
pub open spec fn prefix_from(
    found: Result<Option<Seq<char>>, Seq<char>>,
    c: &GitHelperConfig,
) -> Seq<char> {
    match found {
        Ok(Some(p)) => p,
        _ => c.branch_prefix@,
    }
}

/// What a look at what is remembered gave.
pub open spec fn lookup_view(found: Result<Option<String>, String>) -> Result<
    Option<Seq<char>>,
    Seq<char>,
> {
    match found {
        Ok(a) => Ok(text::opt_text(a)),
        Err(e) => Err(e@),
    }
}

/// The prefix of new branches: what is remembered, else what is set.
pub fn current_branch_prefix(found: Result<Option<String>, String>, config: &GitHelperConfig) -> (r:
    String)
    ensures
        r@ == prefix_from(lookup_view(found), config),
{
    match found {
        Ok(Some(p)) => p,
        _ => config.branch_prefix.clone(),
    }
}

fn fail(message: String) -> (r: Progress)
    ensures
        r@ == failed(message@),
{
    Progress::Ended(
        Ending { notice: Some(StatusLine::NotificationError(message)), refresh: false },
    )
}

fn report(message: String, refresh: bool) -> (r: Progress)
    ensures
        r@ == reported(message@, refresh),
{
    Progress::Ended(Ending { notice: Some(StatusLine::NotificationSuccess(message)), refresh })
}

fn trim_slashes(s: &str) -> (r: String)
    ensures
        r@ == bare(s@),
{
    text::trim_matches(text::trim(s).as_str(), '/')
}

fn start(purpose: Purpose, point: Point, base: String, name: String) -> (r: Progress)
    ensures
        r@ == begun(purpose, point, Seq::empty(), base@, name@),
{
    let branch = String::new();
    let path = String::new();
    assert(branch@ =~= Seq::<char>::empty());
    assert(path@ =~= Seq::<char>::empty());
    Progress::Going(Job { purpose, point, branch, base, name, path })
}

impl Task {
    /// Begins the task.
    pub fn begin(self) -> (r: Progress)
        ensures
            r@ == beginning(self),
    {
        let none = String::new();
        let nothing = String::new();
        assert(none@ =~= Seq::<char>::empty());
        assert(nothing@ =~= Seq::<char>::empty());
        match self {
            Task::CreateBranch { base_branch, suffix } => {
                let name = trim_slashes(suffix.as_str());
                if text::byte_len(name.as_str()) == 0 {
                    return fail("Branch suffix cannot be empty".to_string());
                }
                start(Purpose::CreateBranch, Point::FindRoot, base_branch, name)
            },
            Task::SwitchBranch { branch } => {
                let name = text::trim(branch.as_str());
                if text::byte_len(name.as_str()) == 0 {
                    return fail("Branch name cannot be empty".to_string());
                }
                start(Purpose::SwitchBranch, Point::FindTreeState, none, name)
            },
            Task::PushCurrentBranch => start(
                Purpose::PushCurrentBranch,
                Point::FindCurrent,
                none,
                nothing,
            ),
            Task::MergeBase => start(Purpose::MergeBase, Point::FindTreeState, none, nothing),
            Task::InstallHook => start(Purpose::InstallHook, Point::FindGitDir, none, nothing),
            Task::SetBase { base_branch } => start(
                Purpose::SetBase,
                Point::FindLocalBranches,
                text::trim(base_branch.as_str()),
                nothing,
            ),
            Task::SetBranchPrefix { prefix } => {
                let name = trim_slashes(prefix.as_str());
                if text::byte_len(name.as_str()) == 0 {
                    start(Purpose::SetBranchPrefix, Point::ResetPrefix, none, nothing)
                } else {
                    start(Purpose::SetBranchPrefix, Point::RecordPrefix, none, name)
                }
            },
        }
    }
}

impl Job {
    fn here(arguments: Vec<String>) -> (r: Ask)
        ensures
            r@ == (AskView::Git { directory: None, arguments: text::texts(arguments@) }),
    {
        Ask::Git { directory: None, arguments }
    }

    fn there(&self, arguments: Vec<String>) -> (r: Ask)
        ensures
            r@ == (AskView::Git {
                directory: Some(self@.path),
                arguments: text::texts(arguments@),
            }),
    {
        Ask::Git { directory: Some(self.path.clone()), arguments }
    }

    /// What the job asks for.
    pub fn ask(&self, config: &GitHelperConfig) -> (r: Ask)
        ensures
            r@ == asked(self@, config),
    {
        match self.point {
            Point::FindTreeState => Job::here(commands::is_dirty_arguments()),
            Point::FindCurrent => Job::here(commands::get_current_branch_arguments()),
            Point::FindOrigin => Ask::Origin { branch: self.branch.clone() },
            Point::FindRoot => Job::here(commands::get_repo_root_arguments()),
            Point::FindWorktree => Ask::Exists { path: self.path.clone() },
            Point::MakeParents => Ask::MakeParents { path: self.path.clone() },
            Point::AddWorktree => Job::here(
                commands::add_hidden_base_worktree(self.path.as_str(), self.base.as_str()),
            ),
            Point::FindWorktreeBranch => self.there(commands::get_current_branch_arguments()),
            Point::FindWorktreeState => self.there(commands::is_dirty_arguments()),
            Point::FetchBase | Point::ForwardBase => {
                let both = commands::refresh_hidden_base_worktree(self.base.as_str());
                assert(text::text_lists(both@).len() == both@.len());
                let k: usize = match self.point {
                    Point::FetchBase => 0,
                    _ => 1,
                };
                assert(text::text_lists(both@)[k as int] == text::texts(both@[k as int]@));
                self.there(text::clone_texts(both[k].as_slice()))
            },
            Point::FindPrefix => Ask::Prefix,
            Point::CreateBranch => Job::here(
                commands::create_branch(self.branch.as_str(), self.base.as_str()),
            ),
            Point::SwitchBranch => Job::here(
                commands::switch_branch(
                    match self.purpose {
                        Purpose::SwitchBranch => self.name.as_str(),
                        _ => self.branch.as_str(),
                    },
                ),
            ),
            Point::RecordOrigin => Ask::RecordOrigin {
                branch: self.branch.clone(),
                base: self.base.clone(),
            },
            Point::Stash => {
                let mut message = config.stash_message_prefix.clone();
                message.append(": ");
                message.append(self.branch.as_str());
                message.append(" -> ");
                message.append(self.name.as_str());
                Job::here(commands::stash_push(message.as_str()))
            },
            Point::FindUpstream => Job::here(commands::get_upstream_branch_arguments()),
            Point::Push => Job::here(commands::push("origin", self.branch.as_str(), false)),
            Point::PushUpstream => Job::here(commands::push("origin", self.branch.as_str(), true)),
            Point::Merge => Job::here(commands::merge_base_into_current(self.base.as_str())),
            Point::FindGitDir => Job::here(commands::get_git_dir_arguments()),
            Point::WriteHook => Ask::WriteHook { git_dir: self.path.clone() },
            Point::FindLocalBranches => Job::here(commands::get_local_branches_arguments()),
            Point::ResetPrefix => Ask::RecordPrefix { prefix: None },
            Point::RecordPrefix => Ask::RecordPrefix { prefix: Some(self.name.clone()) },
        }
    }

    fn to(self, point: Point) -> (r: Progress)
        ensures
            r@ == self@.at(point),
    {
        let mut job = self;
        job.point = point;
        Progress::Going(job)
    }

    fn found_current(self, current: Option<String>) -> (r: Progress)
        ensures
            r@ == with_current(self@, text::opt_text(current)),
    {
        let mut job = self;
        match job.purpose {
            Purpose::SwitchBranch => {
                job.branch = match current {
                    Some(b) => b,
                    None => "detached".to_string(),
                };
                job.to(Point::Stash)
            },
            _ => match current {
                None => fail("Not on a branch".to_string()),
                Some(b) => {
                    job.branch = b;
                    match job.purpose {
                        Purpose::PushCurrentBranch => job.to(Point::FindUpstream),
                        Purpose::MergeBase => job.to(Point::FindOrigin),
                        _ => job.to(Point::RecordOrigin),
                    }
                },
            },
        }
    }

    fn finish(&self, config: &GitHelperConfig) -> (r: Progress)
        ensures
            r@ == finished(self@, config),
    {
        match self.purpose {
            Purpose::InstallHook => report(
                "Installed lil-big-helper pre-commit hook".to_string(),
                false,
            ),
            Purpose::SetBase => {
                let mut message = "Base branch for '".to_string();
                message.append(self.branch.as_str());
                message.append("' set to '");
                message.append(self.base.as_str());
                message.append("'");
                report(message, true)
            },
            Purpose::SetBranchPrefix => {
                match self.point {
                    Point::ResetPrefix => {
                        let mut message = "Branch prefix reset to default '".to_string();
                        message.append(config.branch_prefix.as_str());
                        message.append("'");
                        report(message, false)
                    },
                    _ => {
                        let mut message = "Branch prefix set to '".to_string();
                        message.append(self.name.as_str());
                        message.append("'");
                        report(message, true)
                    },
                }
            },
            _ => Progress::Ended(Ending { notice: None, refresh: true }),
        }
    }

    fn done(self, config: &GitHelperConfig) -> (r: Progress)
        ensures
            r@ == after_done(self@, config),
    {
        match self.point {
            Point::MakeParents => self.to(Point::AddWorktree),
            Point::AddWorktree => self.to(Point::FindWorktreeBranch),
            Point::FetchBase => self.to(Point::ForwardBase),
            Point::ForwardBase => match self.purpose {
                Purpose::MergeBase => self.to(Point::Merge),
                _ => self.to(Point::FindPrefix),
            },
            Point::CreateBranch => self.to(Point::SwitchBranch),
            Point::SwitchBranch => match self.purpose {
                Purpose::SwitchBranch => self.finish(config),
                _ => self.to(Point::RecordOrigin),
            },
            Point::Stash => self.to(Point::SwitchBranch),
            _ => self.finish(config),
        }
    }

    fn found_worktree_branch(self, current: Option<String>) -> (r: Progress)
        requires
            self.point == Point::FindWorktreeBranch,
        ensures
            r@ == (if text::opt_text(current) == Some(self@.base) {
                self@.at(Point::FindWorktreeState)
            } else {
                failed(wrong_worktree(self@.path, self@.base))
            }),
    {
        let right = match &current {
            Some(b) => text::same(b.as_str(), self.base.as_str()),
            None => false,
        };
        if right {
            return self.to(Point::FindWorktreeState);
        }
        let mut message = "Hidden worktree '".to_string();
        message.append(self.path.as_str());
        message.append("' is not checked out to '");
        message.append(self.base.as_str());
        message.append("'");
        fail(message)
    }

    /// Goes on with what the job is told.
    pub fn tell(self, told: Told, config: &GitHelperConfig) -> (r: Progress)
        requires
            fits(self.point, told@),
        ensures
            r@ == going_on(self@, told@, config),
    {
        let mut job = self;
        match told {
            Told::Flag(flag) => match job.point {
                Point::FindTreeState => match job.purpose {
                    Purpose::MergeBase => if flag {
                        fail("Worktree is dirty; stash or commit before merging base".to_string())
                    } else {
                        job.to(Point::FindCurrent)
                    },
                    Purpose::SwitchBranch => if flag {
                        job.to(Point::FindCurrent)
                    } else {
                        job.to(Point::SwitchBranch)
                    },
                    _ => job.to(Point::FindCurrent),
                },
                Point::FindWorktree => if flag {
                    job.to(Point::FindWorktreeBranch)
                } else {
                    job.to(Point::MakeParents)
                },
                _ => if flag {
                    let mut message = "Hidden worktree '".to_string();
                    message.append(job.path.as_str());
                    message.append("' is dirty");
                    fail(message)
                } else {
                    job.to(Point::FetchBase)
                },
            },
            Told::Answer(answer) => match job.point {
                Point::FindCurrent => job.found_current(answer),
                Point::FindRoot => match answer {
                    None => fail("Failed to resolve repository root".to_string()),
                    Some(root) => {
                        let dir = paths::join_path(root.as_str(), config.hidden_worktree_dir.as_str());
                        job.path = paths::join_path(dir.as_str(), job.base.as_str());
                        job.to(Point::FindWorktree)
                    },
                },
                Point::FindGitDir => match resolve_git_dir(answer) {
                    Err(e) => fail(e),
                    Ok(dir) => {
                        job.path = dir;
                        job.to(Point::WriteHook)
                    },
                },
                Point::FindWorktreeBranch => job.found_worktree_branch(answer),
                _ => if answer.is_none() && config.auto_set_upstream_on_first_push {
                    job.to(Point::PushUpstream)
                } else {
                    job.to(Point::Push)
                },
            },
            Told::Lookup(found) => match job.point {
                Point::FindOrigin => match found {
                    Err(e) => fail(e),
                    Ok(None) => {
                        let mut message = "No base branch recorded for '".to_string();
                        message.append(job.branch.as_str());
                        message.append("'");
                        fail(message)
                    },
                    Ok(Some(base)) => {
                        job.base = base;
                        job.to(Point::FindRoot)
                    },
                },
                _ => {
                    let mut branch = current_branch_prefix(found, config);
                    branch.append("/");
                    branch.append(job.name.as_str());
                    job.branch = branch;
                    job.to(Point::CreateBranch)
                },
            },
            Told::Lines(branches) => {
                if text::any_is(branches.as_slice(), job.base.as_str()) {
                    job.to(Point::FindCurrent)
                } else {
                    let mut message = "Unknown local branch '".to_string();
                    message.append(job.base.as_str());
                    message.append("'");
                    fail(message)
                }
            },
            Told::Done(outcome) => match outcome {
                Err(e) => fail(e),
                Ok(_) => job.done(config),
            },
        }
    }
}

// ---------------------------------------------------------------------------------------------
// Laws

/// How many points can still come after a point.
pub open spec fn points_left(p: Point) -> nat {
    match p {
        Point::FindLocalBranches => 23,
        Point::FindTreeState => 22,
        Point::FindCurrent => 21,
        Point::FindOrigin => 20,
        Point::FindRoot => 19,
        Point::FindWorktree => 18,
        Point::MakeParents => 17,
        Point::AddWorktree => 16,
        Point::FindWorktreeBranch => 15,
        Point::FindWorktreeState => 14,
        Point::FetchBase => 13,
        Point::ForwardBase => 12,
        Point::FindPrefix => 11,
        Point::CreateBranch => 10,
        Point::Stash => 9,
        Point::SwitchBranch => 8,
        Point::RecordOrigin => 7,
        Point::FindUpstream => 6,
        Point::PushUpstream => 5,
        Point::Push => 4,
        Point::Merge => 3,
        Point::FindGitDir => 2,
        Point::WriteHook => 1,
        Point::ResetPrefix => 0,
        Point::RecordPrefix => 0,
    }
}

/// Every job ends: with each answer it comes nearer to its end.
pub proof fn jobs_end(j: JobView, t: ToldView, c: &GitHelperConfig)
    requires
        fits(j.point, t),
    ensures
        going_on(j, t, c) matches ProgressView::Going(k) ==> points_left(k.point) < points_left(
            j.point,
        ) && k.purpose == j.purpose,
{
}

/// A step that fails ends the job with what it says, and the repository is not read anew.
pub proof fn failures_end_jobs(j: JobView, e: Seq<char>, c: &GitHelperConfig)
    requires
        fits(j.point, ToldView::Done(Err(e))),
    ensures
        going_on(j, ToldView::Done(Err(e)), c) == failed(e),
{
}

/// A switch from a work tree with changes stashes them first, and is not made where they cannot be
/// stashed.
pub proof fn changes_are_stashed(
    j: JobView,
    current: Option<Seq<char>>,
    stashed: Result<(), Seq<char>>,
    c: &GitHelperConfig,
)
    requires
        j.purpose == Purpose::SwitchBranch,
        j.point == Point::FindTreeState,
    ensures
        going_on(j, ToldView::Flag(true), c) matches ProgressView::Going(a) && (going_on(
            a,
            ToldView::Answer(current),
            c,
        ) matches ProgressView::Going(b) && b.point == Point::Stash && going_on(
            b,
            ToldView::Done(stashed),
            c,
        ) == match stashed {
            Ok(_) => b.at(Point::SwitchBranch),
            Err(e) => failed(e),
        }),
{
}

/// A branch is made, and a base is merged, only from a hidden worktree that is on the base, has no
/// changes and was brought up to date.
pub proof fn bases_are_checked(j: JobView, k: JobView, t: ToldView, c: &GitHelperConfig)
    requires
        fits(j.point, t),
        going_on(j, t, c) == ProgressView::Going(k),
    ensures
        k.point == Point::CreateBranch ==> j.point == Point::FindPrefix,
        k.point == Point::FindPrefix || k.point == Point::Merge ==> j.point == Point::ForwardBase
            && t matches ToldView::Done(Ok(_)),
        k.point == Point::ForwardBase ==> j.point == Point::FetchBase && t matches ToldView::Done(
            Ok(_),
        ),
        k.point == Point::FetchBase ==> j.point == Point::FindWorktreeState && t == ToldView::Flag(
            false,
        ),
        k.point == Point::FindWorktreeState ==> j.point == Point::FindWorktreeBranch && t
            == ToldView::Answer(Some(j.base)),
        j.point != Point::FindOrigin ==> k.base == j.base,
{
}

/// Nothing is merged into a work tree with changes.
pub proof fn merges_need_a_clean_tree(j: JobView, c: &GitHelperConfig)
    requires
        j.purpose == Purpose::MergeBase,
        j.point == Point::FindTreeState,
    ensures
        going_on(j, ToldView::Flag(true), c) == failed(
            "Worktree is dirty; stash or commit before merging base"@,
        ),
{
}

/// The branch that is made is remembered with the base that it was made from.
pub proof fn new_branches_are_recorded(j: JobView, c: &GitHelperConfig)
    requires
        j.purpose == Purpose::CreateBranch,
        j.point == Point::CreateBranch,
    ensures
        going_on(j, ToldView::Done(Ok(())), c) matches ProgressView::Going(a) && going_on(
            a,
            ToldView::Done(Ok(())),
            c,
        ) matches ProgressView::Going(b) && asked(b, c) == (AskView::RecordOrigin {
            branch: j.branch,
            base: j.base,
        }) && going_on(b, ToldView::Done(Ok(())), c) == refreshed(),
{
}

/// A new branch is named by the prefix that is remembered, else by the one that is set, and by what
/// was typed, and it is made from its base.
pub proof fn new_branches_are_named(
    j: JobView,
    found: Result<Option<Seq<char>>, Seq<char>>,
    c: &GitHelperConfig,
)
    requires
        j.point == Point::FindPrefix,
    ensures
        going_on(j, ToldView::Lookup(found), c) matches ProgressView::Going(k) && asked(k, c) == (
        AskView::Git {
            directory: None,
            arguments: seq!["branch"@, prefix_from(found, c) + "/"@ + j.name, j.base],
        }),
{
}

/// How a job stands after so many answers.
pub open spec fn reached(
    p: ProgressView,
    told: Seq<ToldView>,
    c: &GitHelperConfig,
    n: nat,
) -> ProgressView
    decreases n,
{
    if n == 0 {
        p
    } else {
        match reached(p, told, c, (n - 1) as nat) {
            ProgressView::Going(j) => going_on(j, told[n - 1], c),
            ended => ended,
        }
    }
}

/// What a job asks for after so many answers, where it goes on.
pub open spec fn asks_at(
    p: ProgressView,
    told: Seq<ToldView>,
    c: &GitHelperConfig,
    n: nat,
) -> Option<AskView> {
    match reached(p, told, c, n) {
        ProgressView::Going(j) => Some(asked(j, c)),
        ProgressView::Ended(_) => None,
    }
}

/// A command of git where the program was started.
pub open spec fn git_here(arguments: Seq<Seq<char>>) -> Option<AskView> {
    Some(AskView::Git { directory: None, arguments })
}

/// A command of git in a directory.
pub open spec fn git_in(directory: Seq<char>, arguments: Seq<Seq<char>>) -> Option<AskView> {
    Some(AskView::Git { directory: Some(directory), arguments })
}

pub open spec fn done() -> ToldView {
    ToldView::Done(Ok(()))
}

/// To push the current branch, git is asked for it and for its upstream, and then to push this very
/// branch, with its upstream set where it has none and the user wants it. Then the repository is read
/// anew.
pub proof fn current_branch_is_pushed(
    branch: Seq<char>,
    upstream: Option<Seq<char>>,
    c: &GitHelperConfig,
)
    ensures
        ({
            let p = beginning(Task::PushCurrentBranch);
            let told = seq![ToldView::Answer(Some(branch)), ToldView::Answer(upstream), done()];
            &&& asks_at(p, told, c, 0) == git_here(seq!["branch"@, "--show-current"@])
            &&& asks_at(p, told, c, 1) == git_here(
                seq!["rev-parse"@, "--abbrev-ref"@, "--symbolic-full-name"@, "@{upstream}"@],
            )
            &&& upstream is None && c.auto_set_upstream_on_first_push ==> asks_at(p, told, c, 2)
                == git_here(seq!["push"@, "--set-upstream"@, "origin"@, branch])
            &&& upstream is Some || !c.auto_set_upstream_on_first_push ==> asks_at(p, told, c, 2)
                == git_here(seq!["push"@, "origin"@, branch])
            &&& reached(p, told, c, 3) == ProgressView::Ended(
                EndingView { notice: None, refresh: true },
            )
        }),
{
    reveal_with_fuel(reached, 4);
}

/// Without a current branch nothing is pushed.
pub proof fn branches_are_needed(t: Task, c: &GitHelperConfig)
    requires
        t is PushCurrentBranch,
    ensures
        reached(beginning(t), seq![ToldView::Answer(None)], c, 1) == ProgressView::Ended(
            EndingView {
                notice: Some(
                    status_line::StatusLineView::NotificationError("Not on a branch"@),
                ),
                refresh: false,
            },
        ),
{
    reveal_with_fuel(reached, 2);
}

/// Whether paths are put together with a slash between them.
pub open spec fn go_together(dir: Seq<char>, path: Seq<char>) -> bool {
    &&& dir.len() > 0 && dir.last() != '/'
    &&& path.len() > 0 && path[0] != '/'
}

proof fn paths_go_together(dir: Seq<char>, path: Seq<char>)
    requires
        go_together(dir, path),
    ensures
        paths::path_under(dir, path) == dir + "/"@ + path,
{
    reveal_strlit("/");
    if text::begins(path, "/"@) {
        assert(path.subrange(0, 1)[0] == "/"@[0]);
    }
    if text::ends(dir, "/"@) {
        assert(dir.subrange(dir.len() - 1, dir.len() as int)[0] == "/"@[0]);
    }
}

/// A branch is made from the remembered or set prefix and from what was typed, without the white space
/// and the slashes around it: the base is brought up to date in its hidden worktree under the
/// repository, then git is asked to make the branch at the base and to switch to it, and the base is
/// remembered for it.
#[verifier::rlimit(60)]
pub proof fn branches_are_made(
    t: Task,
    base: Seq<char>,
    typed: (Seq<char>, nat, Seq<char>, nat, Seq<char>),
    root: Seq<char>,
    found: Result<Option<Seq<char>>, Seq<char>>,
    c: &GitHelperConfig,
)
    requires
        t matches Task::CreateBranch { base_branch, suffix } && base_branch@ == base && suffix@
            == typed.0 + Seq::new(typed.1, |i: int| '/') + typed.2 + Seq::new(typed.3, |i: int| '/')
            + typed.4,
        forall|i: int| 0 <= i < typed.0.len() ==> text::white(#[trigger] typed.0[i]),
        forall|i: int| 0 <= i < typed.4.len() ==> text::white(#[trigger] typed.4[i]),
        typed.2.len() > 0,
        !text::white(typed.2[0]) && typed.2[0] != '/',
        !text::white(typed.2.last()) && typed.2.last() != '/',
        go_together(root, c.hidden_worktree_dir@),
        go_together(root + "/"@ + c.hidden_worktree_dir@, base),
    ensures
        ({
            let p = beginning(t);
            let tree = root + "/"@ + c.hidden_worktree_dir@ + "/"@ + base;
            let branch = (match found {
                Ok(Some(prefix)) => prefix,
                _ => c.branch_prefix@,
            }) + "/"@ + typed.2;
            let told = seq![
                ToldView::Answer(Some(root)),
                ToldView::Flag(true),
                ToldView::Answer(Some(base)),
                ToldView::Flag(false),
                done(),
                done(),
                ToldView::Lookup(found),
                done(),
                done(),
                done(),
            ];
            &&& asks_at(p, told, c, 0) == git_here(seq!["rev-parse"@, "--show-toplevel"@])
            &&& asks_at(p, told, c, 1) == Some(AskView::Exists { path: tree })
            &&& asks_at(p, told, c, 2) == git_in(tree, seq!["branch"@, "--show-current"@])
            &&& asks_at(p, told, c, 3) == git_in(tree, seq!["status"@, "--short"@])
            &&& asks_at(p, told, c, 4) == git_in(tree, seq!["fetch"@, "origin"@])
            &&& asks_at(p, told, c, 5) == git_in(
                tree,
                seq!["merge"@, "--ff-only"@, "origin/"@ + base],
            )
            &&& asks_at(p, told, c, 6) == Some(AskView::Prefix)
            &&& asks_at(p, told, c, 7) == git_here(seq!["branch"@, branch, base])
            &&& asks_at(p, told, c, 8) == git_here(seq!["switch"@, branch])
            &&& asks_at(p, told, c, 9) == Some(AskView::RecordOrigin { branch, base })
            &&& reached(p, told, c, 10) == ProgressView::Ended(
                EndingView { notice: None, refresh: true },
            )
        }),
{
    let front = Seq::new(typed.1, |i: int| '/');
    let back = Seq::new(typed.3, |i: int| '/');
    let inner = front + typed.2 + back;
    let suffix = typed.0 + front + typed.2 + back + typed.4;
    assert(suffix =~= typed.0 + inner + typed.4);
    assert(!text::white(inner[0])) by {
        if typed.1 > 0 {
            assert(inner[0] == '/');
        } else {
            assert(inner[0] == typed.2[0]);
        }
    }
    assert(!text::white(inner.last())) by {
        if typed.3 > 0 {
            assert(inner.last() == '/');
        } else {
            assert(inner.last() == typed.2.last());
        }
    }
    text::trimming_takes_white_space(typed.0, inner, typed.4);
    text::trimming_takes_a_character(typed.1, typed.2, typed.3, '/');
    paths_go_together(root, c.hidden_worktree_dir@);
    paths_go_together(root + "/"@ + c.hidden_worktree_dir@, base);
    reveal_with_fuel(reached, 11);
}

/// Where the hidden worktree of a base is missing, it is made: its directory, and then a worktree on the
/// base.
pub proof fn worktrees_are_made(j: JobView, c: &GitHelperConfig)
    requires
        j.point == Point::FindWorktree,
    ensures
        ({
            let p = ProgressView::Going(j);
            let told = seq![ToldView::Flag(false), done(), done()];
            &&& asks_at(p, told, c, 0) == Some(AskView::Exists { path: j.path })
            &&& asks_at(p, told, c, 1) == Some(AskView::MakeParents { path: j.path })
            &&& asks_at(p, told, c, 2) == git_here(
                seq!["worktree"@, "add"@, "-B"@, j.base, j.path, j.base],
            )
            &&& asks_at(p, told, c, 3) == git_in(j.path, seq!["branch"@, "--show-current"@])
        }),
{
    reveal_with_fuel(reached, 4);
}

/// A switch goes to the branch that was named, without the white space around it. Changes are kept by a
/// stash that names where from and where to.
pub proof fn branches_are_switched_to(
    t: Task,
    name: Seq<char>,
    around: (Seq<char>, Seq<char>),
    current: Option<Seq<char>>,
    c: &GitHelperConfig,
)
    requires
        t matches Task::SwitchBranch { branch } && branch@ == around.0 + name + around.1,
        forall|i: int| 0 <= i < around.0.len() ==> text::white(#[trigger] around.0[i]),
        forall|i: int| 0 <= i < around.1.len() ==> text::white(#[trigger] around.1[i]),
        name.len() > 0,
        !text::white(name[0]) && !text::white(name.last()),
    ensures
        ({
            let p = beginning(t);
            let clean = seq![ToldView::Flag(false), done()];
            let dirty = seq![ToldView::Flag(true), ToldView::Answer(current), done(), done()];
            let from = match current {
                Some(branch) => branch,
                None => "detached"@,
            };
            let end = ProgressView::Ended(EndingView { notice: None, refresh: true });
            &&& asks_at(p, clean, c, 0) == git_here(seq!["status"@, "--short"@])
            &&& asks_at(p, clean, c, 1) == git_here(seq!["switch"@, name])
            &&& reached(p, clean, c, 2) == end
            &&& asks_at(p, dirty, c, 1) == git_here(seq!["branch"@, "--show-current"@])
            &&& asks_at(p, dirty, c, 2) == git_here(
                seq![
                    "stash"@,
                    "push"@,
                    "-u"@,
                    "-m"@,
                    c.stash_message_prefix@ + ": "@ + from + " -> "@ + name,
                ],
            )
            &&& asks_at(p, dirty, c, 3) == git_here(seq!["switch"@, name])
            &&& reached(p, dirty, c, 4) == end
        }),
{
    text::trimming_takes_white_space(around.0, name, around.1);
    reveal_with_fuel(reached, 5);
}

/// To merge its base into the current branch, the base that is remembered for it is brought up to date
/// in its hidden worktree, and then merged by this very name.
pub proof fn bases_are_merged(
    branch: Seq<char>,
    base: Seq<char>,
    root: Seq<char>,
    c: &GitHelperConfig,
)
    requires
        go_together(root, c.hidden_worktree_dir@),
        go_together(root + "/"@ + c.hidden_worktree_dir@, base),
    ensures
        ({
            let p = beginning(Task::MergeBase);
            let tree = root + "/"@ + c.hidden_worktree_dir@ + "/"@ + base;
            let told = seq![
                ToldView::Flag(false),
                ToldView::Answer(Some(branch)),
                ToldView::Lookup(Ok(Some(base))),
                ToldView::Answer(Some(root)),
                ToldView::Flag(true),
                ToldView::Answer(Some(base)),
                ToldView::Flag(false),
                done(),
                done(),
                done(),
            ];
            &&& asks_at(p, told, c, 0) == git_here(seq!["status"@, "--short"@])
            &&& asks_at(p, told, c, 1) == git_here(seq!["branch"@, "--show-current"@])
            &&& asks_at(p, told, c, 2) == Some(AskView::Origin { branch })
            &&& asks_at(p, told, c, 3) == git_here(seq!["rev-parse"@, "--show-toplevel"@])
            &&& asks_at(p, told, c, 4) == Some(AskView::Exists { path: tree })
            &&& asks_at(p, told, c, 5) == git_in(tree, seq!["branch"@, "--show-current"@])
            &&& asks_at(p, told, c, 6) == git_in(tree, seq!["status"@, "--short"@])
            &&& asks_at(p, told, c, 7) == git_in(tree, seq!["fetch"@, "origin"@])
            &&& asks_at(p, told, c, 8) == git_in(
                tree,
                seq!["merge"@, "--ff-only"@, "origin/"@ + base],
            )
            &&& asks_at(p, told, c, 9) == git_here(seq!["merge"@, "--no-edit"@, base])
            &&& reached(p, told, c, 10) == ProgressView::Ended(
                EndingView { notice: None, refresh: true },
            )
        }),
{
    paths_go_together(root, c.hidden_worktree_dir@);
    paths_go_together(root + "/"@ + c.hidden_worktree_dir@, base);
    reveal_with_fuel(reached, 11);
}

/// A branch without a remembered base is not merged into, and it is said which one that is.
pub proof fn unknown_bases_are_not_merged(branch: Seq<char>, c: &GitHelperConfig)
    ensures
        reached(
            beginning(Task::MergeBase),
            seq![
                ToldView::Flag(false),
                ToldView::Answer(Some(branch)),
                ToldView::Lookup(Ok(None)),
            ],
            c,
            3,
        ) == ProgressView::Ended(
            EndingView {
                notice: Some(
                    status_line::StatusLineView::NotificationError(
                        "No base branch recorded for '"@ + branch + "'"@,
                    ),
                ),
                refresh: false,
            },
        ),
{
    reveal_with_fuel(reached, 4);
}

/// A hidden worktree that is on another branch than the base, or that has changes, ends the job, and it
/// is said which one that is.
pub proof fn wrong_worktrees_end_jobs(j: JobView, current: Option<Seq<char>>, c: &GitHelperConfig)
    requires
        j.point == Point::FindWorktreeBranch,
        current != Some(j.base),
    ensures
        going_on(j, ToldView::Answer(current), c) matches ProgressView::Ended(e) && !e.refresh
            && (e.notice matches Some(status_line::StatusLineView::NotificationError(m))
            && text::holds(m, j.path) && text::holds(m, j.base)),
        going_on((JobView { point: Point::FindWorktreeState, ..j }), ToldView::Flag(true), c)
            matches ProgressView::Ended(e) && !e.refresh && (e.notice matches Some(
            status_line::StatusLineView::NotificationError(m),
        ) && text::holds(m, j.path)),
{
    let m = wrong_worktree(j.path, j.base);
    let a = "Hidden worktree '"@;
    let b = "' is not checked out to '"@;
    assert(m.subrange(a.len() as int, (a.len() + j.path.len()) as int) =~= j.path);
    assert(text::holds_at(m, j.path, a.len() as int));
    let k = (a.len() + j.path.len() + b.len()) as int;
    assert(m.subrange(k, k + j.base.len()) =~= j.base);
    assert(text::holds_at(m, j.base, k));
    let n = a + j.path + "' is dirty"@;
    assert(n.subrange(a.len() as int, (a.len() + j.path.len()) as int) =~= j.path);
    assert(text::holds_at(n, j.path, a.len() as int));
}

/// A base is set for the current branch by its name, where it is a local branch; else it is said that it
/// is none.
pub proof fn bases_are_set(
    t: Task,
    base: Seq<char>,
    around: (Seq<char>, Seq<char>),
    branches: Seq<Seq<char>>,
    branch: Seq<char>,
    c: &GitHelperConfig,
)
    requires
        t matches Task::SetBase { base_branch } && base_branch@ == around.0 + base + around.1,
        forall|i: int| 0 <= i < around.0.len() ==> text::white(#[trigger] around.0[i]),
        forall|i: int| 0 <= i < around.1.len() ==> text::white(#[trigger] around.1[i]),
        base.len() > 0,
        !text::white(base[0]) && !text::white(base.last()),
    ensures
        ({
            let p = beginning(t);
            let told = seq![ToldView::Lines(branches), ToldView::Answer(Some(branch)), done()];
            &&& asks_at(p, told, c, 0) == git_here(
                seq!["for-each-ref"@, "--format=%(refname:short)"@, "refs/heads"@],
            )
            &&& branches.contains(base) ==> {
                &&& asks_at(p, told, c, 1) == git_here(seq!["branch"@, "--show-current"@])
                &&& asks_at(p, told, c, 2) == Some(AskView::RecordOrigin { branch, base })
                &&& reached(p, told, c, 3) == ProgressView::Ended(
                    EndingView {
                        notice: Some(
                            status_line::StatusLineView::NotificationSuccess(
                                "Base branch for '"@ + branch + "' set to '"@ + base + "'"@,
                            ),
                        ),
                        refresh: true,
                    },
                )
            }
            &&& !branches.contains(base) ==> reached(p, told, c, 1) == ProgressView::Ended(
                EndingView {
                    notice: Some(
                        status_line::StatusLineView::NotificationError(
                            "Unknown local branch '"@ + base + "'"@,
                        ),
                    ),
                    refresh: false,
                },
            )
        }),
{
    text::trimming_takes_white_space(around.0, base, around.1);
    reveal_with_fuel(reached, 4);
}

/// The prefix of new branches is remembered as it was typed, without the white space and the slashes
/// around it; where nothing else was typed, it is forgotten.
pub proof fn prefixes_are_set(
    t: Task,
    typed: (Seq<char>, nat, Seq<char>, nat, Seq<char>),
    c: &GitHelperConfig,
)
    requires
        t matches Task::SetBranchPrefix { prefix } && prefix@ == typed.0 + Seq::new(
            typed.1,
            |i: int| '/',
        ) + typed.2 + Seq::new(typed.3, |i: int| '/') + typed.4,
        forall|i: int| 0 <= i < typed.0.len() ==> text::white(#[trigger] typed.0[i]),
        forall|i: int| 0 <= i < typed.4.len() ==> text::white(#[trigger] typed.4[i]),
        typed.2.len() > 0,
        !text::white(typed.2[0]) && typed.2[0] != '/',
        !text::white(typed.2.last()) && typed.2.last() != '/',
    ensures
        ({
            let p = beginning(t);
            let told = seq![done()];
            &&& asks_at(p, told, c, 0) == Some(AskView::RecordPrefix { prefix: Some(typed.2) })
            &&& reached(p, told, c, 1) == ProgressView::Ended(
                EndingView {
                    notice: Some(
                        status_line::StatusLineView::NotificationSuccess(
                            "Branch prefix set to '"@ + typed.2 + "'"@,
                        ),
                    ),
                    refresh: true,
                },
            )
        }),
{
    let front = Seq::new(typed.1, |i: int| '/');
    let back = Seq::new(typed.3, |i: int| '/');
    let inner = front + typed.2 + back;
    assert(typed.0 + front + typed.2 + back + typed.4 =~= typed.0 + inner + typed.4);
    assert(!text::white(inner[0])) by {
        if typed.1 > 0 {
            assert(inner[0] == '/');
        } else {
            assert(inner[0] == typed.2[0]);
        }
    }
    assert(!text::white(inner.last())) by {
        if typed.3 > 0 {
            assert(inner.last() == '/');
        } else {
            assert(inner.last() == typed.2.last());
        }
    }
    text::trimming_takes_white_space(typed.0, inner, typed.4);
    text::trimming_takes_a_character(typed.1, typed.2, typed.3, '/');
    reveal_with_fuel(reached, 2);
}

/// An empty prefix is forgotten, and it is said which one holds from then on. An empty name of a branch
/// does nothing but say so.
pub proof fn empty_names_are_refused(t: Task, c: &GitHelperConfig)
    requires
        match t {
            Task::SetBranchPrefix { prefix } => prefix@.len() == 0,
            Task::CreateBranch { suffix, .. } => suffix@.len() == 0,
            Task::SwitchBranch { branch } => branch@.len() == 0,
            _ => false,
        },
    ensures
        t is SetBranchPrefix ==> asks_at(beginning(t), seq![done()], c, 0) == Some(
            AskView::RecordPrefix { prefix: None },
        ) && reached(beginning(t), seq![done()], c, 1) == ProgressView::Ended(
            EndingView {
                notice: Some(
                    status_line::StatusLineView::NotificationSuccess(
                        "Branch prefix reset to default '"@ + c.branch_prefix@ + "'"@,
                    ),
                ),
                refresh: false,
            },
        ),
        !(t is SetBranchPrefix) ==> (beginning(t) matches ProgressView::Ended(e) && !e.refresh
            && e.notice matches Some(status_line::StatusLineView::NotificationError(_))),
{
    reveal_with_fuel(reached, 2);
}

/// The hook is written into the directory that git names.
pub proof fn hooks_are_written(dir: Seq<char>, c: &GitHelperConfig)
    ensures
        ({
            let p = beginning(Task::InstallHook);
            let told = seq![ToldView::Answer(Some(dir)), done()];
            &&& asks_at(p, told, c, 0) == git_here(seq!["rev-parse"@, "--absolute-git-dir"@])
            &&& asks_at(p, told, c, 1) == Some(AskView::WriteHook { git_dir: dir })
            &&& reached(p, told, c, 2) matches ProgressView::Ended(e) && !e.refresh && e.notice
                matches Some(status_line::StatusLineView::NotificationSuccess(_))
        }),
{
    reveal_with_fuel(reached, 3);
}

} // verus!
