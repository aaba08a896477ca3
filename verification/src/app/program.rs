//! What the program does with the events that reach it.

use vstd::prelude::*;
use vstd::string::*;
use crate::app::jobs;
use crate::app::jobs::{Ending, Task};
use crate::app::keys;
use crate::app::keys::{AppStatus, KeyStep};
use crate::app::prompt;
use crate::app::prompt::{MenuChoice, PromptKind, PromptState};
use crate::app::status_line;
use crate::color::ColorTheme;
use crate::config::{CoreConfig, GitHelperConfig, UiConfig};
use crate::decode;
use crate::event;
use crate::event::{AppEvent, Key, UserEvent, UserEventWithCount};
use crate::git;
use crate::git::changes;
use crate::git::changes::{FileChange, StatusEntry};
use crate::git::commands;
use crate::git::{Commit, CommitHash, Ref, Repository};
use crate::names;
use crate::text;
use crate::view::context;
use crate::view::context::RefreshViewContext;
use crate::view::detail;
use crate::view::detail::DetailView;
use crate::view::list;
use crate::view::list::ListView;
use crate::view::screen;
use crate::view::screen::{RefsView, Screen, UserCommandView};
use crate::view::status;
use crate::view::status::StatusView;
use crate::widget::commit_list::CommitListState;
use crate::widget::commit_moves::Move;
use crate::widget::ref_list;
use crate::widget::ref_list::RefListState;
use crate::workflow;
use crate::workflow::WorkflowAction;

verus! {

/// The program: what fills the screen, and what stands under it.
#[derive(Debug)]
pub struct App<'a> {
    pub repository: &'a Repository,
    pub view: Screen<'a>,
    pub app_status: AppStatus,
}

pub ghost struct AppState {
    pub screen: screen::ScreenView,
    pub status: keys::AppStatusView,
}

impl<'a> View for App<'a> {
    type V = AppState;

    open spec fn view(&self) -> AppState {
        AppState { screen: screen::shown(self.view), status: self.app_status@ }
    }
}

/// What the program works and looks by.
#[derive(Debug)]
pub struct AppContext {
    pub core_config: CoreConfig,
    pub ui_config: UiConfig,
    pub color_theme: ColorTheme,
}

/// How the program ends: for good, or to start again with the repository read anew.
#[derive(Debug, PartialEq, Eq)]
pub enum Ret {
    Quit,
    Refresh(RefreshRequest),
}

/// What the program is to look like when it starts again.
#[derive(Debug, PartialEq, Eq)]
pub struct RefreshRequest {
    pub context: RefreshViewContext,
}

/// What of the screen is cleared before an event is taken up: the pictures of the graph, all of them
/// or those below the first line, and the text.
#[derive(Debug, Clone, Copy, PartialEq, Eq, Structural)]
pub enum Pictures {
    Kept,
    Cleared,
    ClearedBelow,
}

#[derive(Debug, Clone, Copy, PartialEq, Eq, Structural)]
pub struct Clearing {
    pub pictures: Pictures,
    pub text: bool,
}

/// What is cleared before an event is taken up.
pub open spec fn clearing_for(e: event::AppEventView) -> Clearing {
    match e {
        event::AppEventView::OpenStatus
        | event::AppEventView::CloseStatus
        | event::AppEventView::CloseDetail
        | event::AppEventView::CloseUserCommand
        | event::AppEventView::CloseHelp => Clearing { pictures: Pictures::Kept, text: true },
        event::AppEventView::OpenDetail | event::AppEventView::OpenUserCommand(_) => Clearing {
            pictures: Pictures::ClearedBelow,
            text: false,
        },
        event::AppEventView::OpenRefs | event::AppEventView::CloseRefs => Clearing {
            pictures: Pictures::Cleared,
            text: true,
        },
        event::AppEventView::OpenHelp => Clearing { pictures: Pictures::Cleared, text: false },
        _ => Clearing { pictures: Pictures::Kept, text: false },
    }
}

/// What is cleared before an event is taken up.
pub fn clearing(e: &AppEvent) -> (r: Clearing)
    ensures
        r == clearing_for(e@),
{
    match e {
        AppEvent::OpenStatus
        | AppEvent::CloseStatus
        | AppEvent::CloseDetail
        | AppEvent::CloseUserCommand
        | AppEvent::CloseHelp => Clearing { pictures: Pictures::Kept, text: true },
        AppEvent::OpenDetail | AppEvent::OpenUserCommand(_) => Clearing {
            pictures: Pictures::ClearedBelow,
            text: false,
        },
        AppEvent::OpenRefs | AppEvent::CloseRefs => Clearing {
            pictures: Pictures::Cleared,
            text: true,
        },
        AppEvent::OpenHelp => Clearing { pictures: Pictures::Cleared, text: false },
        _ => Clearing { pictures: Pictures::Kept, text: false },
    }
}

/// What is left to be done outside the program.
#[derive(Debug)]
pub enum Reply {
    Nothing,
    Return(Ret),
    Send(AppEvent),
    LoadChanges,
    LoadDiff,
    LoadDetail { commit_hash: CommitHash, arguments: Vec<String> },
    RunUserCommand(usize),
    AskCreateBranch,
    AskBranchSuffix { base_branch: String },
    AskSwitchBranch,
    AskSetBase,
    AskSetBranchPrefix,
    Start(Task),
    Copy { name: String, value: String },
    RunWorkflow(WorkflowAction),
    /// The view on the screen gets the event.
    ToOtherView(UserEventWithCount),
}

pub ghost enum ReplyView {
    Nothing,
    Quit,
    Refresh(context::RefreshView),
    Send(event::AppEventView),
    LoadChanges,
    LoadDiff,
    LoadDetail { commit_hash: Seq<char>, arguments: Seq<Seq<char>> },
    RunUserCommand(usize),
    AskCreateBranch,
    AskBranchSuffix { base_branch: Seq<char> },
    AskSwitchBranch,
    AskSetBase,
    AskSetBranchPrefix,
    Start(TaskView),
    Copy { name: Seq<char>, value: Seq<char> },
    RunWorkflow(workflow::ActionView),
    ToOtherView(UserEventWithCount),
}

pub ghost enum TaskView {
    CreateBranch { base_branch: Seq<char>, suffix: Seq<char> },
    SwitchBranch { branch: Seq<char> },
    PushCurrentBranch,
    MergeBase,
    InstallHook,
    SetBase { base_branch: Seq<char> },
    SetBranchPrefix { prefix: Seq<char> },
}

/// What a task says.
pub open spec fn task_view(t: Task) -> TaskView {
    match t {
        Task::CreateBranch { base_branch, suffix } => TaskView::CreateBranch {
            base_branch: base_branch@,
            suffix: suffix@,
        },
        Task::SwitchBranch { branch } => TaskView::SwitchBranch { branch: branch@ },
        Task::PushCurrentBranch => TaskView::PushCurrentBranch,
        Task::MergeBase => TaskView::MergeBase,
        Task::InstallHook => TaskView::InstallHook,
        Task::SetBase { base_branch } => TaskView::SetBase { base_branch: base_branch@ },
        Task::SetBranchPrefix { prefix } => TaskView::SetBranchPrefix { prefix: prefix@ },
    }
}

impl View for Reply {
    type V = ReplyView;

    open spec fn view(&self) -> ReplyView {
        match self {
            Reply::Nothing => ReplyView::Nothing,
            Reply::Return(Ret::Quit) => ReplyView::Quit,
            Reply::Return(Ret::Refresh(request)) => ReplyView::Refresh(request.context@),
            Reply::Send(e) => ReplyView::Send(e@),
            Reply::LoadChanges => ReplyView::LoadChanges,
            Reply::LoadDiff => ReplyView::LoadDiff,
            Reply::LoadDetail { commit_hash, arguments } => ReplyView::LoadDetail {
                commit_hash: commit_hash@,
                arguments: text::texts(arguments@),
            },
            Reply::RunUserCommand(n) => ReplyView::RunUserCommand(*n),
            Reply::AskCreateBranch => ReplyView::AskCreateBranch,
            Reply::AskBranchSuffix { base_branch } => ReplyView::AskBranchSuffix {
                base_branch: base_branch@,
            },
            Reply::AskSwitchBranch => ReplyView::AskSwitchBranch,
            Reply::AskSetBase => ReplyView::AskSetBase,
            Reply::AskSetBranchPrefix => ReplyView::AskSetBranchPrefix,
            Reply::Start(t) => ReplyView::Start(task_view(*t)),
            Reply::Copy { name, value } => ReplyView::Copy { name: name@, value: value@ },
            Reply::RunWorkflow(a) => ReplyView::RunWorkflow(a@),
            Reply::ToOtherView(e) => ReplyView::ToOtherView(*e),
        }
    }
}

/// The references of a repository, those of one commit together.
pub open spec fn all_refs(repository: &Repository) -> Seq<git::RefView> {
    git::ref_views(git::chained(repository.reference_walk(), repository.references()))
}

/// How git is asked for what a commit changed.
pub open spec fn detail_arguments(repository: &Repository, hash: Seq<char>) -> Seq<Seq<char>> {
    if repository.commits()[hash].parent_commit_hashes@.len() == 0 {
        seq!["ls-tree"@, "--name-status"@, "-r"@, hash]
    } else {
        seq!["diff"@, "--name-status"@, hash + "^"@, hash]
    }
}

/// What is to be loaded for a commit.
pub open spec fn detail_wanted(repository: &Repository, hash: Seq<char>) -> ReplyView {
    ReplyView::LoadDetail { commit_hash: hash, arguments: detail_arguments(repository, hash) }
}

impl AppState {
    pub open spec fn with_screen(self, screen: screen::ScreenView) -> AppState {
        AppState { screen, ..self }
    }

    pub open spec fn with_line(self, line: status_line::StatusLineView) -> AppState {
        AppState { status: self.status.with_line(line), ..self }
    }

    /// The program with its commits on the screen again.
    pub open spec fn listing(self, repository: &Repository) -> AppState {
        self.with_screen(
            screen::ScreenView::List(list::opened(self.screen.list()->0, all_refs(repository))),
        )
    }

    /// The hash of the selected commit.
    pub open spec fn selected(self) -> Seq<char> {
        (self.screen.list()->0).selected().commit.hash
    }

    /// The program after a move in the list.
    pub open spec fn moved(self, m: Move) -> AppState {
        self.with_screen(
            match self.screen {
                screen::ScreenView::Detail(v) => screen::ScreenView::Detail(detail::moved(v, m)),
                screen::ScreenView::UserCommand { list, output, number } => {
                    let l = list->0;
                    screen::ScreenView::UserCommand {
                        list: Some(l.moved(m.target(l))),
                        output,
                        number,
                    }
                },
                s => s,
            },
        )
    }
}

/// Whether the commits are in sight beside the details or beside what a command printed.
pub open spec fn is_beside(s: screen::ScreenView) -> bool {
    s is Detail || s is UserCommand
}

/// The move that an event asks for.
pub open spec fn selection_move(e: event::AppEventView) -> Option<Move> {
    match e {
        event::AppEventView::SelectOlderCommit => Some(Move::Next),
        event::AppEventView::SelectNewerCommit => Some(Move::Prev),
        event::AppEventView::SelectParentCommit => Some(Move::Parent),
        _ => None,
    }
}

/// Whether an event can be taken up: a commit that is to be shown is there.
pub open spec fn can_take(s: AppState, repository: &Repository, e: event::AppEventView) -> bool {
    if selection_move(e) is Some && is_beside(s.screen) {
        let m = selection_move(e)->0;
        let l = s.screen.list()->0;
        &&& m.allowed(l)
        &&& m.target(l).on_item()
        &&& s.screen is Detail ==> repository.commits().contains_key(s.moved(m).selected())
    } else if e is OpenDetail && (s.screen is List || s.screen is UserCommand) {
        (s.screen.list()->0).cursor.on_item() && repository.commits().contains_key(s.selected())
    } else {
        !(e is Key)
    }
}

/// What becomes of an event: the program afterwards, and what is left to be done outside it.
pub open spec fn reply_to(s: AppState, repository: &Repository, e: event::AppEventView) -> (
    AppState,
    ReplyView,
) {
    let nothing = |t: AppState| (t, ReplyView::Nothing);
    match e {
        event::AppEventView::Quit => (s, ReplyView::Quit),
        event::AppEventView::OpenActionMenu => nothing(
            AppState { status: s.status.asking(prompt::menu()), ..s },
        ),
        event::AppEventView::OpenCreateBranchPrompt => (s, ReplyView::AskCreateBranch),
        event::AppEventView::OpenSwitchBranchPrompt => (s, ReplyView::AskSwitchBranch),
        event::AppEventView::OpenSetBasePrompt => (s, ReplyView::AskSetBase),
        event::AppEventView::OpenSetBranchPrefixPrompt => (s, ReplyView::AskSetBranchPrefix),
        event::AppEventView::OpenStatus => (s, status_wanted(s)),
        event::AppEventView::CloseStatus if s.screen is Status => nothing(s.listing(repository)),
        event::AppEventView::OpenDetail if s.screen is List || s.screen is UserCommand => (
            s,
            detail_wanted(repository, s.selected()),
        ),
        event::AppEventView::CloseDetail if s.screen is Detail => nothing(s.listing(repository)),
        event::AppEventView::OpenUserCommand(n) => (s, ReplyView::RunUserCommand(n)),
        event::AppEventView::CloseUserCommand if s.screen is UserCommand => nothing(
            s.listing(repository),
        ),
        event::AppEventView::OpenRefs if s.screen is List => nothing(
            s.with_screen(
                screen::ScreenView::Refs {
                    list: s.screen.list(),
                    refs: all_refs(repository),
                    tree: ref_list::fresh(),
                },
            ),
        ),
        event::AppEventView::CloseRefs if s.screen is Refs => nothing(s.listing(repository)),
        event::AppEventView::OpenHelp => nothing(
            s.with_screen(screen::ScreenView::Help(Box::new(s.screen))),
        ),
        event::AppEventView::CloseHelp => nothing(
            match s.screen {
                screen::ScreenView::Help(b) => s.with_screen(*b),
                _ => s,
            },
        ),
        event::AppEventView::SelectOlderCommit
        | event::AppEventView::SelectNewerCommit
        | event::AppEventView::SelectParentCommit => {
            let t = s.moved(selection_move(e)->0);
            match s.screen {
                screen::ScreenView::Detail(_) => (t, detail_wanted(repository, t.selected())),
                screen::ScreenView::UserCommand { number, .. } => (
                    t,
                    ReplyView::RunUserCommand(number),
                ),
                _ => nothing(s),
            }
        },
        event::AppEventView::CopyToClipboard { name, value } => (
            s,
            ReplyView::Copy { name, value },
        ),
        event::AppEventView::Refresh(c) => (s, ReplyView::Refresh(c)),
        event::AppEventView::ClearStatusLine => nothing(
            s.with_line(status_line::StatusLineView::Blank),
        ),
        event::AppEventView::UpdateStatusInput(m, c, t) => nothing(
            s.with_line(status_line::StatusLineView::Input(m, c, t)),
        ),
        event::AppEventView::NotifyInfo(m) => nothing(
            s.with_line(status_line::StatusLineView::NotificationInfo(m)),
        ),
        event::AppEventView::NotifySuccess(m) => nothing(
            s.with_line(status_line::StatusLineView::NotificationSuccess(m)),
        ),
        event::AppEventView::NotifyWarn(m) => nothing(
            s.with_line(status_line::StatusLineView::NotificationWarn(m)),
        ),
        event::AppEventView::NotifyError(m) => nothing(
            s.with_line(status_line::StatusLineView::NotificationError(m)),
        ),
        event::AppEventView::PushCurrentBranch => (
            s,
            ReplyView::Start(TaskView::PushCurrentBranch),
        ),
        event::AppEventView::MergeBaseIntoCurrent => (s, ReplyView::Start(TaskView::MergeBase)),
        event::AppEventView::InstallHook => (s, ReplyView::Start(TaskView::InstallHook)),
        event::AppEventView::RunWorkflowAction(a) => (s, ReplyView::RunWorkflow(a)),
        _ => nothing(s),
    }
}

/// The selected commit, what it changed, by what git printed of it, and its references.
pub fn selected_commit_details(
    repository: &Repository,
    commit_list_state: &CommitListState,
    output: &str,
) -> (r: (Commit, Vec<FileChange>, Vec<Ref>))
    requires
        repository.wf(),
        commit_list_state.wf(),
        commit_list_state@.cursor.on_item(),
        ({
            let hash = commit_list_state@.selected().commit.hash;
            &&& repository.commits().contains_key(hash)
            &&& repository.commits()[hash].parent_commit_hashes@.len() > 0 ==> forall|i: int|
                0 <= i < decode::line_list(output@).len() ==> changes::change_line(
                    #[trigger] decode::line_list(output@)[i],
                )
        }),
    ensures
        ({
            let hash = commit_list_state@.selected().commit.hash;
            &&& r.0@ == repository.commits()[hash]@
            &&& changes::change_views(r.1@) == if repository.commits()[hash].parent_commit_hashes@.len()
                == 0 {
                changes::additions(decode::line_list(output@))
            } else {
                changes::changes_on(decode::line_list(output@))
            }
            &&& r.2@ == names::listed(repository.references(), hash)
        }),
{
    let hash = commit_list_state.selected_commit_hash();
    let (commit, found) = repository.commit_detail(hash, output);
    let refs = git::clone_refs(&repository.refs(hash));
    (commit, found, refs)
}

/// What is to be loaded where the changes are to be shown.
pub open spec fn status_wanted(s: AppState) -> ReplyView {
    match s.screen {
        screen::ScreenView::Status(_)
        | screen::ScreenView::Help(_)
        | screen::ScreenView::Blank => ReplyView::Nothing,
        _ => ReplyView::LoadChanges,
    }
}

impl<'a> App<'a> {
    /// The parts of the program go together.
    pub open spec fn wf(&self) -> bool {
        &&& self.repository.wf()
        &&& screen::sound(self.view)
        &&& self@.screen.stocked()
        &&& self@.status.prompt matches Some(p) ==> p.wf()
    }

    /// The program with some commits on its screen.
    pub fn new(repository: &'a Repository, commit_list_state: CommitListState<'a>) -> (r: App<'a>)
        requires
            repository.wf(),
            commit_list_state.wf(),
        ensures
            r.wf(),
            r.repository == repository,
            r@ == (AppState {
                screen: screen::ScreenView::List(
                    list::opened(commit_list_state@, all_refs(repository)),
                ),
                status: keys::AppStatusView {
                    line: status_line::StatusLineView::Blank,
                    prefix: Seq::empty(),
                    prompt: None,
                },
            }),
    {
        let refs = git::clone_refs(&repository.all_refs());
        let view = Screen::List(ListView::new(commit_list_state, refs));
        App { repository, view, app_status: AppStatus::default() }
    }

    fn take_view(&mut self) -> (r: Screen<'a>)
        ensures
            r == old(self).view,
            *final(self) == (App { view: Screen::Blank, ..*old(self) }),
    {
        let mut taken: Screen<'a> = Screen::Blank;
        std::mem::swap(&mut taken, &mut self.view);
        taken
    }

    /// Puts the commits on the screen again.
    fn show_list(&mut self)
        requires
            old(self).wf(),
            old(self)@.screen.list() is Some,
        ensures
            final(self).wf(),
            final(self).repository == old(self).repository,
            final(self)@ == old(self)@.listing(old(self).repository),
    {
        let list = self.take_view().into_list_state().unwrap();
        let refs = git::clone_refs(&self.repository.all_refs());
        self.view = Screen::List(ListView::new(list, refs));
    }

    pub fn close_detail(&mut self)
        requires
            old(self).wf(),
        ensures
            final(self).wf(),
            final(self).repository == old(self).repository,
            final(self)@ == if old(self)@.screen is Detail {
                old(self)@.listing(old(self).repository)
            } else {
                old(self)@
            },
    {
        if let Screen::Detail(_) = &self.view {
            self.show_list();
        }
    }

    pub fn close_status(&mut self)
        requires
            old(self).wf(),
        ensures
            final(self).wf(),
            final(self).repository == old(self).repository,
            final(self)@ == if old(self)@.screen is Status {
                old(self)@.listing(old(self).repository)
            } else {
                old(self)@
            },
    {
        if let Screen::Status(_) = &self.view {
            self.show_list();
        }
    }

    pub fn close_user_command(&mut self)
        requires
            old(self).wf(),
        ensures
            final(self).wf(),
            final(self).repository == old(self).repository,
            final(self)@ == if old(self)@.screen is UserCommand {
                old(self)@.listing(old(self).repository)
            } else {
                old(self)@
            },
    {
        if let Screen::UserCommand(_) = &self.view {
            self.show_list();
        }
    }

    pub fn close_refs(&mut self)
        requires
            old(self).wf(),
        ensures
            final(self).wf(),
            final(self).repository == old(self).repository,
            final(self)@ == if old(self)@.screen is Refs {
                old(self)@.listing(old(self).repository)
            } else {
                old(self)@
            },
    {
        if let Screen::Refs(_) = &self.view {
            self.show_list();
        }
    }

    pub fn open_refs(&mut self)
        requires
            old(self).wf(),
        ensures
            final(self).wf(),
            final(self).repository == old(self).repository,
            final(self)@ == if old(self)@.screen is List {
                old(self)@.with_screen(
                    screen::ScreenView::Refs {
                        list: old(self)@.screen.list(),
                        refs: all_refs(old(self).repository),
                        tree: ref_list::fresh(),
                    },
                )
            } else {
                old(self)@
            },
    {
        if let Screen::List(_) = &self.view {
            let list = self.take_view().into_list_state().unwrap();
            let refs = git::clone_refs(&self.repository.all_refs());
            self.view = Screen::Refs(
                RefsView {
                    commit_list_state: Some(list),
                    refs,
                    ref_list_state: RefListState::new(),
                },
            );
        }
    }

    pub fn open_help(&mut self)
        requires
            old(self).wf(),
        ensures
            final(self).wf(),
            final(self).repository == old(self).repository,
            final(self)@ == old(self)@.with_screen(
                screen::ScreenView::Help(Box::new(old(self)@.screen)),
            ),
    {
        let before = self.take_view();
        self.view = Screen::Help(Box::new(before));
    }

    pub fn close_help(&mut self)
        requires
            old(self).wf(),
        ensures
            final(self).wf(),
            final(self).repository == old(self).repository,
            final(self)@ == match old(self)@.screen {
                screen::ScreenView::Help(b) => old(self)@.with_screen(*b),
                _ => old(self)@,
            },
    {
        if let Screen::Help(_) = &self.view {
            match self.take_view() {
                Screen::Help(before) => {
                    self.view = *before;
                },
                _ => {},
            }
        }
    }

    fn open_status(&self) -> (r: Reply)
        ensures
            r@ == status_wanted(self@),
    {
        match &self.view {
            Screen::Status(_) | Screen::Help(_) | Screen::Blank => Reply::Nothing,
            _ => Reply::LoadChanges,
        }
    }

    /// Shows the changes that were loaded. The diff of the first row is still to be loaded.
    pub fn show_status(&mut self, entries: Vec<StatusEntry>)
        requires
            old(self).wf(),
        ensures
            final(self).wf(),
            final(self).repository == old(self).repository,
            final(self)@ == if status_wanted(old(self)@) is LoadChanges {
                old(self)@.with_screen(
                    screen::ScreenView::Status(
                        status::opened(
                            old(self)@.screen.list()->0,
                            changes::entry_views(entries@),
                        ),
                    ),
                )
            } else {
                old(self)@
            },
    {
        match &self.view {
            Screen::Status(_) | Screen::Help(_) | Screen::Blank => {
                return;
            },
            _ => {},
        }
        let list = self.take_view().into_list_state().unwrap();
        self.view = Screen::Status(StatusView::new(list, entries));
    }

    fn want_detail(&self, hash: &CommitHash) -> (r: Reply)
        requires
            self.repository.wf(),
            self.repository.commits().contains_key(hash@),
        ensures
            r@ == detail_wanted(self.repository, hash@),
    {
        Reply::LoadDetail {
            commit_hash: hash.clone(),
            arguments: self.repository.commit_detail_arguments(hash),
        }
    }

    fn open_detail(&self) -> (r: Reply)
        requires
            self.wf(),
            can_take(self@, self.repository, event::AppEventView::OpenDetail),
        ensures
            r@ == reply_to(self@, self.repository, event::AppEventView::OpenDetail).1,
    {
        match &self.view {
            Screen::List(_) | Screen::UserCommand(_) => {
                let list = self.view.list_state().unwrap();
                self.want_detail(list.selected_commit_hash())
            },
            _ => Reply::Nothing,
        }
    }

    /// Shows the details of the selected commit, by what git printed of its changes.
    pub fn show_detail(&mut self, output: &str)
        requires
            old(self).wf(),
            old(self)@.screen is List || old(self)@.screen is UserCommand,
            can_take(old(self)@, old(self).repository, event::AppEventView::OpenDetail),
            old(self).repository.commits()[old(self)@.selected()].parent_commit_hashes@.len() > 0
                ==> forall|i: int|
                0 <= i < decode::line_list(output@).len() ==> changes::change_line(
                    #[trigger] decode::line_list(output@)[i],
                ),
        ensures
            final(self).wf(),
            final(self).repository == old(self).repository,
            ({
                let repository = old(self).repository;
                let hash = old(self)@.selected();
                final(self)@ == old(self)@.with_screen(
                    screen::ScreenView::Detail(
                        detail::opened(
                            old(self)@.screen.list()->0,
                            repository.commits()[hash]@,
                            if repository.commits()[hash].parent_commit_hashes@.len() == 0 {
                                changes::additions(decode::line_list(output@))
                            } else {
                                changes::changes_on(decode::line_list(output@))
                            },
                            git::ref_views(names::listed(repository.references(), hash)),
                            all_refs(repository),
                            None,
                        ),
                    ),
                )
            }),
    {
        let list = self.take_view().into_list_state().unwrap();
        let (commit, found, refs) = selected_commit_details(self.repository, &list, output);
        let all = git::clone_refs(&self.repository.all_refs());
        self.view = Screen::Detail(DetailView::new(list, commit, found, refs, all, None));
    }

    /// Shows what a command of the user's printed, in place of a view of the commits.
    pub fn show_user_command(&mut self, output: String, user_command_number: usize)
        requires
            old(self).wf(),
        ensures
            final(self).wf(),
            final(self).repository == old(self).repository,
            final(self)@ == match old(self)@.screen {
                screen::ScreenView::List(_)
                | screen::ScreenView::Detail(_)
                | screen::ScreenView::UserCommand { .. } => old(self)@.with_screen(
                    screen::ScreenView::UserCommand {
                        list: old(self)@.screen.list(),
                        output: output@,
                        number: user_command_number,
                    },
                ),
                _ => old(self)@,
            },
    {
        match &self.view {
            Screen::List(_) | Screen::Detail(_) | Screen::UserCommand(_) => {},
            _ => {
                return;
            },
        }
        let commit_list_state = self.take_view().into_list_state();
        self.view = Screen::UserCommand(
            UserCommandView { commit_list_state, output, user_command_number },
        );
    }

    /// Makes a move in the list beside which something is shown.
    fn select_commit(&mut self, m: Move) -> (r: Reply)
        requires
            old(self).wf(),
            is_beside(old(self)@.screen) ==> {
                let l = old(self)@.screen.list()->0;
                &&& m.allowed(l)
                &&& m.target(l).on_item()
                &&& old(self)@.screen is Detail ==> old(self).repository.commits().contains_key(
                    old(self)@.moved(m).selected(),
                )
            },
            m == Move::Next || m == Move::Prev || m == Move::Parent,
        ensures
            final(self).wf(),
            final(self).repository == old(self).repository,
            match old(self)@.screen {
                screen::ScreenView::Detail(_) => final(self)@ == old(self)@.moved(m) && r@
                    == detail_wanted(old(self).repository, final(self)@.selected()),
                screen::ScreenView::UserCommand { number, .. } => final(self)@ == old(self)@.moved(
                    m,
                ) && r@ == ReplyView::RunUserCommand(number),
                _ => final(self)@ == old(self)@ && r@ is Nothing,
            },
    {
        match &self.view {
            Screen::Detail(_) | Screen::UserCommand(_) => {},
            _ => {
                return Reply::Nothing;
            },
        }
        let ghost before = self@;
        let ghost repository = self.repository;
        match self.take_view() {
            Screen::Detail(v) => {
                let mut v = v;
                let hash = match m {
                    Move::Prev => v.select_newer_commit(),
                    Move::Parent => v.select_parent_commit(),
                    _ => v.select_older_commit(),
                };
                self.view = Screen::Detail(v);
                assert(self@ == before.moved(m));
                self.want_detail(&hash)
            },
            Screen::UserCommand(v) => {
                let mut v = v;
                v.select(m);
                let number = v.user_command_number;
                self.view = Screen::UserCommand(v);
                assert(self@ == before.moved(m));
                Reply::RunUserCommand(number)
            },
            _ => Reply::Nothing,
        }
    }

    /// Whether an event can be taken up.
    pub fn accepts(&self, e: &AppEvent) -> (r: bool)
        requires
            self.wf(),
        ensures
            r == can_take(self@, self.repository, e@),
    {
        let m = match e {
            AppEvent::SelectOlderCommit => Some(Move::Next),
            AppEvent::SelectNewerCommit => Some(Move::Prev),
            AppEvent::SelectParentCommit => Some(Move::Parent),
            _ => None,
        };
        match (&self.view, m) {
            (Screen::Detail(_), Some(m)) => {
                let list = self.view.list_state().unwrap();
                match list.hash_after(m) {
                    Some(hash) => self.repository.commit(hash).is_some(),
                    None => false,
                }
            },
            (Screen::UserCommand(_), Some(m)) => {
                let list = self.view.list_state().unwrap();
                list.leads_to_item(m)
            },
            _ => match (e, &self.view) {
                (AppEvent::OpenDetail, Screen::List(_) | Screen::UserCommand(_)) => {
                    let list = self.view.list_state().unwrap();
                    self.view.is_on_commit() && self.repository.commit(
                        list.selected_commit_hash(),
                    ).is_some()
                },
                (AppEvent::Key(_), _) => false,
                _ => true,
            },
        }
    }

    /// Takes up an event.
    pub fn handle_event(&mut self, e: AppEvent) -> (r: Reply)
        requires
            old(self).wf(),
            can_take(old(self)@, old(self).repository, e@),
        ensures
            final(self).wf(),
            final(self).repository == old(self).repository,
            (final(self)@, r@) == reply_to(old(self)@, old(self).repository, e@),
    {
        match e {
            AppEvent::Key(_) => Reply::Nothing,
            AppEvent::Resize(_, _) => Reply::Nothing,
            AppEvent::Quit => Reply::Return(Ret::Quit),
            AppEvent::OpenActionMenu => {
                self.app_status.open_prompt(prompt::action_menu());
                Reply::Nothing
            },
            AppEvent::OpenCreateBranchPrompt => Reply::AskCreateBranch,
            AppEvent::OpenSwitchBranchPrompt => Reply::AskSwitchBranch,
            AppEvent::OpenSetBasePrompt => Reply::AskSetBase,
            AppEvent::OpenSetBranchPrefixPrompt => Reply::AskSetBranchPrefix,
            AppEvent::OpenStatus => self.open_status(),
            AppEvent::CloseStatus => {
                self.close_status();
                Reply::Nothing
            },
            AppEvent::OpenDetail => self.open_detail(),
            AppEvent::CloseDetail => {
                self.close_detail();
                Reply::Nothing
            },
            AppEvent::OpenUserCommand(n) => Reply::RunUserCommand(n),
            AppEvent::CloseUserCommand => {
                self.close_user_command();
                Reply::Nothing
            },
            AppEvent::OpenRefs => {
                self.open_refs();
                Reply::Nothing
            },
            AppEvent::CloseRefs => {
                self.close_refs();
                Reply::Nothing
            },
            AppEvent::OpenHelp => {
                self.open_help();
                Reply::Nothing
            },
            AppEvent::CloseHelp => {
                self.close_help();
                Reply::Nothing
            },
            AppEvent::SelectOlderCommit => self.select_commit(Move::Next),
            AppEvent::SelectNewerCommit => self.select_commit(Move::Prev),
            AppEvent::SelectParentCommit => self.select_commit(Move::Parent),
            AppEvent::CopyToClipboard { name, value } => Reply::Copy { name, value },
            AppEvent::Refresh(context) => Reply::Return(Ret::Refresh(RefreshRequest { context })),
            AppEvent::ClearStatusLine => {
                self.app_status.clear_status_line();
                Reply::Nothing
            },
            AppEvent::UpdateStatusInput(msg, cursor_pos, msg_r) => {
                self.app_status.update_status_input(msg, cursor_pos, msg_r);
                Reply::Nothing
            },
            AppEvent::NotifyInfo(msg) => {
                self.app_status.info_notification(msg);
                Reply::Nothing
            },
            AppEvent::NotifySuccess(msg) => {
                self.app_status.success_notification(msg);
                Reply::Nothing
            },
            AppEvent::NotifyWarn(msg) => {
                self.app_status.warn_notification(msg);
                Reply::Nothing
            },
            AppEvent::NotifyError(msg) => {
                self.app_status.error_notification(msg);
                Reply::Nothing
            },
            AppEvent::PushCurrentBranch => Reply::Start(Task::PushCurrentBranch),
            AppEvent::MergeBaseIntoCurrent => Reply::Start(Task::MergeBase),
            AppEvent::InstallHook => Reply::Start(Task::InstallHook),
            AppEvent::RunWorkflowAction(action) => Reply::RunWorkflow(action),
        }
    }
}

/// What is said after a copy to the clipboard.
pub fn copy_to_clipboard(name: &str, outcome: Result<(), String>) -> (r: AppEvent)
    ensures
        r@ == match commands::unit_outcome(outcome) {
            Ok(_) => event::AppEventView::NotifySuccess(
                "Copied "@ + name@ + " to clipboard successfully"@,
            ),
            Err(e) => event::AppEventView::NotifyError(e),
        },
{
    match outcome {
        Ok(_) => {
            let mut message = "Copied ".to_string();
            message.append(name);
            message.append(" to clipboard successfully");
            AppEvent::NotifySuccess(message)
        },
        Err(e) => AppEvent::NotifyError(e),
    }
}

// ---------------------------------------------------------------------------------------------
// Answered questions

/// What is sent, as a reply.
pub open spec fn sending(sent: Option<event::AppEventView>) -> ReplyView {
    match sent {
        Some(e) => ReplyView::Send(e),
        None => ReplyView::Nothing,
    }
}

/// What becomes of a choice on the menu of actions.
pub open spec fn chosen(s: AppState, choice: MenuChoice, t: AppState, r: ReplyView) -> bool {
    match choice {
        MenuChoice::CreateBranch => t == s && r is AskCreateBranch,
        MenuChoice::SwitchBranch => t == s && r is AskSwitchBranch,
        MenuChoice::OpenStatus => t == s && r == status_wanted(s),
        MenuChoice::SetBase => t == s && r is AskSetBase,
        MenuChoice::SetBranchPrefix => t == s && r is AskSetBranchPrefix,
        MenuChoice::Push => t == s && r == ReplyView::Start(TaskView::PushCurrentBranch),
        MenuChoice::MergeBase => t == s && r == ReplyView::Start(TaskView::MergeBase),
        MenuChoice::InstallHook => t == s && r == ReplyView::Start(TaskView::InstallHook),
        MenuChoice::Refresh => t == s && exists|sent: Option<event::AppEventView>|
            s.screen.asks_refresh(sent) && r == #[trigger] sending(sent),
        MenuChoice::Unknown(_) | MenuChoice::Missing => t == s.with_line(
            status_line::StatusLineView::NotificationError(prompt::choice_error(choice)->0),
        ) && r is Nothing,
    }
}

/// What becomes of a question that was answered.
pub open spec fn submitted(
    s: AppState,
    p: prompt::PromptView,
    protected: Seq<Seq<char>>,
    t: AppState,
    r: ReplyView,
) -> bool {
    let value = p.value();
    match p.kind {
        prompt::PromptKindView::ActionMenu => chosen(s, prompt::choice_for(value), t, r),
        prompt::PromptKindView::CreateBranchBase => if protected.contains(value) {
            t == s && r == (ReplyView::AskBranchSuffix { base_branch: value })
        } else {
            t == s.with_line(
                status_line::StatusLineView::NotificationError(
                    "Unknown protected base branch '"@ + value + "'"@,
                ),
            ) && r is Nothing
        },
        prompt::PromptKindView::CreateBranchSuffix { base_branch } => t == s && r
            == ReplyView::Start(TaskView::CreateBranch { base_branch, suffix: value }),
        prompt::PromptKindView::SwitchBranch => t == s && r == ReplyView::Start(
            TaskView::SwitchBranch { branch: value },
        ),
        prompt::PromptKindView::SetBase => t == s && r == ReplyView::Start(
            TaskView::SetBase { base_branch: value },
        ),
        prompt::PromptKindView::SetBranchPrefix => t == s && r == ReplyView::Start(
            TaskView::SetBranchPrefix { prefix: value },
        ),
    }
}

/// Whether an answer can be taken up: a commit is selected where the view is to be kept over a
/// refresh.
pub open spec fn can_submit(s: AppState, p: prompt::PromptView) -> bool {
    p.kind is ActionMenu && prompt::choice_for(p.value()) == MenuChoice::Refresh
        ==> s.screen.has_selection()
}

/// How the view answers an event: the screen afterwards, and what is left to be done.
pub open spec fn view_answers(
    s: screen::ScreenView,
    e: UserEventWithCount,
    key: Key,
    t: screen::ScreenView,
    r: ReplyView,
) -> bool {
    let count = e.count as int;
    match s {
        screen::ScreenView::List(v) => {
            &&& t is List
            &&& exists|sent: Option<event::AppEventView>|
                list::answers(v, e.event, count, key, t->List_0, sent) && r == #[trigger] sending(
                    sent,
                )
        },
        screen::ScreenView::Detail(v) => {
            let (w, sent) = detail::answer(v, e.event, count);
            t == screen::ScreenView::Detail(w) && r == sending(sent)
        },
        screen::ScreenView::Status(v) => {
            &&& t is Status
            &&& exists|sent: Option<event::AppEventView>, load_diff: bool|
                status::answers(v, e.event, count, key, t->Status_0, sent, load_diff) && r
                    == #[trigger] status_reply(sent, load_diff)
        },
        _ => t == s && r == ReplyView::ToOtherView(e),
    }
}

/// What is left to be done after the view of the changes has answered.
pub open spec fn status_reply(sent: Option<event::AppEventView>, load_diff: bool) -> ReplyView {
    if load_diff {
        ReplyView::LoadDiff
    } else {
        sending(sent)
    }
}

/// Whether the view can answer an event.
pub open spec fn view_can_answer(s: screen::ScreenView, e: UserEventWithCount, key: Key) -> bool {
    match s {
        screen::ScreenView::List(v) => list::can_answer(v, e.event, e.count as int),
        screen::ScreenView::Detail(v) => detail::can_answer(v, e.event),
        screen::ScreenView::Status(v) => e.event == UserEvent::Refresh && !key.is_forward()
            && !key.is_reverse() ==> (v.list->0).cursor.on_item(),
        _ => true,
    }
}

/// What becomes of a key.
pub open spec fn key_handled(
    s: AppState,
    bound: Option<UserEvent>,
    key: Key,
    protected: Seq<Seq<char>>,
    t: AppState,
    r: ReplyView,
) -> bool {
    let (status, step) = keys::key_outcome(s.status, false, bound, key);
    let u = AppState { status, ..s };
    match step {
        KeyStep::Done => t == u && r is Nothing,
        KeyStep::Quit => t == u && r == ReplyView::Send(event::AppEventView::Quit),
        KeyStep::ToView(e) => {
            &&& t.status == status
            &&& view_answers(s.screen, e, key, t.screen, r)
        },
        KeyStep::ToPrompt => match key.code {
            event::KeyCode::Esc => t == (AppState { status: s.status.unasked(), ..s })
                && r is Nothing,
            event::KeyCode::Enter => submitted(
                (AppState { status: s.status.unasked(), ..s }),
                s.status.prompt->0,
                protected,
                t,
                r,
            ),
            _ => t == (AppState {
                status: s.status.asking((s.status.prompt->0).after_key(key)),
                ..s
            }) && r is Nothing,
        },
    }
}

/// Whether a key can be taken up.
pub open spec fn can_take_key(s: AppState, bound: Option<UserEvent>, key: Key) -> bool {
    match keys::key_outcome(s.status, false, bound, key).1 {
        KeyStep::ToView(e) => view_can_answer(s.screen, e, key),
        KeyStep::ToPrompt => key.code == event::KeyCode::Enter ==> can_submit(
            s,
            s.status.prompt->0,
        ),
        _ => true,
    }
}

fn send(sent: Option<AppEvent>) -> (r: Reply)
    ensures
        r@ == sending(event::opt_event(sent)),
{
    match sent {
        Some(e) => Reply::Send(e),
        None => Reply::Nothing,
    }
}

impl<'a> App<'a> {
    /// Takes up a choice on the menu of actions.
    fn take_choice(&mut self, choice: MenuChoice) -> (r: Reply)
        requires
            old(self).wf(),
            choice == MenuChoice::Refresh ==> old(self)@.screen.has_selection(),
        ensures
            final(self).wf(),
            final(self).repository == old(self).repository,
            chosen(old(self)@, choice, final(self)@, r@),
    {
        match choice {
            MenuChoice::CreateBranch => Reply::AskCreateBranch,
            MenuChoice::SwitchBranch => Reply::AskSwitchBranch,
            MenuChoice::OpenStatus => self.open_status(),
            MenuChoice::SetBase => Reply::AskSetBase,
            MenuChoice::SetBranchPrefix => Reply::AskSetBranchPrefix,
            MenuChoice::Push => Reply::Start(Task::PushCurrentBranch),
            MenuChoice::MergeBase => Reply::Start(Task::MergeBase),
            MenuChoice::InstallHook => Reply::Start(Task::InstallHook),
            MenuChoice::Refresh => {
                let sent = self.view.refresh();
                let ghost said = event::opt_event(sent);
                let r = send(sent);
                assert(r@ == sending(said));
                r
            },
            MenuChoice::Unknown(_) | MenuChoice::Missing => {
                let message = prompt::menu_error(choice).unwrap();
                self.app_status.error_notification(message);
                Reply::Nothing
            },
        }
    }

    /// Takes up the answer to a question.
    pub fn submit_prompt(&mut self, prompt: PromptState, config: &GitHelperConfig) -> (r: Reply)
        requires
            old(self).wf(),
            prompt@.wf(),
            can_submit(old(self)@, prompt@),
        ensures
            final(self).wf(),
            final(self).repository == old(self).repository,
            submitted(
                old(self)@,
                prompt@,
                text::texts(config.protected_base_branches@),
                final(self)@,
                r@,
            ),
    {
        let value = prompt.value();
        match prompt.kind {
            PromptKind::ActionMenu => self.take_choice(prompt::submit_action_menu(value.as_str())),
            PromptKind::CreateBranchBase => {
                if text::any_is(config.protected_base_branches.as_slice(), value.as_str()) {
                    return Reply::AskBranchSuffix { base_branch: value };
                }
                let mut message = "Unknown protected base branch '".to_string();
                message.append(value.as_str());
                message.append("'");
                self.app_status.error_notification(message);
                Reply::Nothing
            },
            PromptKind::CreateBranchSuffix { base_branch } => Reply::Start(
                Task::CreateBranch { base_branch, suffix: value },
            ),
            PromptKind::SwitchBranch => Reply::Start(Task::SwitchBranch { branch: value }),
            PromptKind::SetBase => Reply::Start(Task::SetBase { base_branch: value }),
            PromptKind::SetBranchPrefix => Reply::Start(Task::SetBranchPrefix { prefix: value }),
        }
    }

    /// Gives an event to the view.
    fn view_event(&mut self, e: UserEventWithCount, key: Key) -> (r: Reply)
        requires
            old(self).wf(),
            view_can_answer(old(self)@.screen, e, key),
        ensures
            final(self).wf(),
            final(self).repository == old(self).repository,
            final(self)@.status == old(self)@.status,
            view_answers(old(self)@.screen, e, key, final(self)@.screen, r@),
    {
        match &self.view {
            Screen::List(_) | Screen::Detail(_) | Screen::Status(_) => {},
            _ => {
                return Reply::ToOtherView(e);
            },
        }
        match self.take_view() {
            Screen::List(v) => {
                let mut v = v;
                let ghost before = v@;
                let sent = v.handle_event(e, key);
                proof {
                    list::lists_stay(
                        before,
                        e.event,
                        e.count as int,
                        key,
                        v@,
                        event::opt_event(sent),
                    );
                }
                self.view = Screen::List(v);
                let ghost said = event::opt_event(sent);
                let r = send(sent);
                assert(r@ == sending(said));
                r
            },
            Screen::Detail(v) => {
                let mut v = v;
                let sent = v.handle_event(e);
                self.view = Screen::Detail(v);
                send(sent)
            },
            Screen::Status(v) => {
                let mut v = v;
                let reply = v.handle_event(e, key);
                self.view = Screen::Status(v);
                let ghost said = event::opt_event(reply.event);
                let ghost load_diff = reply.load_diff;
                let r = if reply.load_diff {
                    Reply::LoadDiff
                } else {
                    send(reply.event)
                };
                assert(r@ == status_reply(said, load_diff));
                r
            },
            _ => Reply::ToOtherView(e),
        }
    }

    /// Whether a key can be taken up.
    pub fn accepts_key(&self, bound: Option<UserEvent>, key: Key) -> (r: bool)
        requires
            self.wf(),
        ensures
            r == can_take_key(self@, bound, key),
    {
        match self.app_status.key_step(false, bound, key) {
            KeyStep::ToView(e) => match &self.view {
                Screen::List(v) => v.accepts(e),
                Screen::Detail(v) => v.accepts(e.event),
                Screen::Status(_) => e.event != UserEvent::Refresh || status::is_forward_tab(key)
                    || status::is_reverse_tab(key) || self.view.is_on_commit(),
                _ => true,
            },
            KeyStep::ToPrompt => {
                let enter = match key.code {
                    event::KeyCode::Enter => true,
                    _ => false,
                };
                if !enter {
                    return true;
                }
                match &self.app_status.prompt {
                    Some(p) => {
                        let menu = match p.kind {
                            PromptKind::ActionMenu => true,
                            _ => false,
                        };
                        !menu || prompt::submit_action_menu(p.value().as_str())
                            != MenuChoice::Refresh || self.view.is_on_commit()
                    },
                    None => true,
                }
            },
            _ => true,
        }
    }

    /// Takes up a key that is bound to an event or to none.
    pub fn handle_key(&mut self, bound: Option<UserEvent>, key: Key, config: &GitHelperConfig) -> (r:
        Reply)
        requires
            old(self).wf(),
            can_take_key(old(self)@, bound, key),
        ensures
            final(self).wf(),
            final(self).repository == old(self).repository,
            key_handled(
                old(self)@,
                bound,
                key,
                text::texts(config.protected_base_branches@),
                final(self)@,
                r@,
            ),
    {
        let captures = self.view.captures_text_input();
        match self.app_status.handle_key(captures, bound, key) {
            KeyStep::Done => Reply::Nothing,
            KeyStep::Quit => Reply::Send(AppEvent::Quit),
            KeyStep::ToView(e) => self.view_event(e, key),
            KeyStep::ToPrompt => match self.app_status.handle_prompt_key(key) {
                Some(prompt) => self.submit_prompt(prompt, config),
                None => Reply::Nothing,
            },
        }
    }

    /// Shows how a job ended, and asks for a refresh where it is wanted.
    pub fn finish_job(&mut self, ending: Ending) -> (r: Option<AppEvent>)
        requires
            old(self).wf(),
            ending.refresh ==> old(self)@.screen.has_selection(),
        ensures
            final(self).wf(),
            final(self).repository == old(self).repository,
            final(self)@ == match ending@.notice {
                Some(line) => old(self)@.with_line(line),
                None => old(self)@,
            },
            if ending.refresh {
                old(self)@.screen.asks_refresh(event::opt_event(r))
            } else {
                r is None
            },
    {
        match ending.notice {
            Some(line) => {
                self.app_status.status_line = line;
            },
            None => {},
        }
        if ending.refresh {
            self.view.refresh()
        } else {
            None
        }
    }
}

// ---------------------------------------------------------------------------------------------
// Questions

/// The first protected branch from the reference `i` on.
pub open spec fn protected_from(
    refs: Seq<git::RefView>,
    protected: Seq<Seq<char>>,
    i: int,
) -> Option<Seq<char>>
    decreases refs.len() - i,
{
    if i >= refs.len() {
        None
    } else {
        match refs[i] {
            git::RefView::Branch { name, .. } if protected.contains(name) => Some(name),
            _ => protected_from(refs, protected, i + 1),
        }
    }
}

/// The branch that a new one is made from: a protected branch at the selected commit, else the
/// current one where it is protected, else the only one that is.
pub open spec fn inferred_base(
    refs: Seq<git::RefView>,
    current: Option<Seq<char>>,
    protected: Seq<Seq<char>>,
) -> Option<Seq<char>> {
    match (protected_from(refs, protected, 0), current) {
        (Some(name), _) => Some(name),
        (None, Some(b)) if protected.contains(b) => Some(b),
        _ => if protected.len() == 1 {
            Some(protected[0])
        } else {
            None
        },
    }
}

/// The references of the selected commit, where the commits are in sight.
pub open spec fn selected_refs(s: AppState, repository: &Repository) -> Seq<git::RefView> {
    match s.screen {
        screen::ScreenView::List(_)
        | screen::ScreenView::Detail(_)
        | screen::ScreenView::UserCommand { .. } => git::ref_views(
            names::listed(repository.references(), s.selected()),
        ),
        _ => Seq::empty(),
    }
}

/// The branch that a new one is made from, by the references of the selected commit and the current
/// branch.
pub fn infer_base_branch(refs: &Vec<&Ref>, current: Option<String>, config: &GitHelperConfig) -> (r:
    Option<String>)
    ensures
        text::opt_text(r) == inferred_base(
            git::ref_views(git::held(refs@)),
            text::opt_text(current),
            text::texts(config.protected_base_branches@),
        ),
{
    let ghost all = git::ref_views(git::held(refs@));
    let ghost protected = text::texts(config.protected_base_branches@);
    let ghost asked = text::opt_text(current);
    let mut i: usize = 0;
    while i < refs.len()
        invariant
            i <= refs@.len(),
            all == git::ref_views(git::held(refs@)),
            protected == text::texts(config.protected_base_branches@),
            protected_from(all, protected, 0) == protected_from(all, protected, i as int),
            asked == text::opt_text(current),
        decreases refs@.len() - i,
    {
        assert(all[i as int] == refs@[i as int]@);
        if let Ref::Branch { name, .. } = refs[i] {
            if text::any_is(config.protected_base_branches.as_slice(), name.as_str()) {
                return Some(name.clone());
            }
        }
        i = i + 1;
    }
    match current {
        Some(branch) => {
            if text::any_is(config.protected_base_branches.as_slice(), branch.as_str()) {
                return Some(branch);
            }
        },
        None => {},
    }
    if config.protected_base_branches.len() == 1 {
        assert(protected[0] == config.protected_base_branches@[0]@);
        return Some(config.protected_base_branches[0].clone());
    }
    None
}

impl<'a> App<'a> {
    /// The branch that a new one is made from.
    pub fn infer_base_branch_for_create(&self, current: Option<String>, config: &GitHelperConfig) -> (r:
        Option<String>)
        requires
            self.wf(),
            self@.screen.has_selection(),
        ensures
            text::opt_text(r) == inferred_base(
                selected_refs(self@, self.repository),
                text::opt_text(current),
                text::texts(config.protected_base_branches@),
            ),
    {
        match self.view.selected_commit_hash() {
            Some(hash) => infer_base_branch(&self.repository.refs(&hash), current, config),
            None => {
                let none: Vec<&Ref> = Vec::new();
                assert(git::ref_views(git::held(none@)) =~= Seq::<git::RefView>::empty());
                infer_base_branch(&none, current, config)
            },
        }
    }

    /// Asks for a new branch. `current` is the current branch, and `found` what is remembered as the
    /// prefix of new branches.
    pub fn open_create_branch_prompt(
        &mut self,
        current: Option<String>,
        found: Result<Option<String>, String>,
        config: &GitHelperConfig,
    )
        requires
            old(self).wf(),
            old(self)@.screen.has_selection(),
        ensures
            final(self).wf(),
            final(self).repository == old(self).repository,
            final(self)@ == (AppState {
                status: old(self)@.status.asking(
                    prompt::creation(
                        inferred_base(
                            selected_refs(old(self)@, old(self).repository),
                            text::opt_text(current),
                            text::texts(config.protected_base_branches@),
                        ),
                        jobs::prefix_from(jobs::lookup_view(found), config),
                        text::texts(config.protected_base_branches@),
                    ),
                ),
                ..old(self)@
            }),
    {
        let base = self.infer_base_branch_for_create(current, config);
        let prefix = jobs::current_branch_prefix(found, config);
        self.app_status.open_prompt(prompt::create_branch_prompt(base, prefix.as_str(), config));
    }

    /// Asks for the name of a new branch, after its base was named.
    pub fn open_branch_suffix_prompt(
        &mut self,
        base_branch: String,
        found: Result<Option<String>, String>,
        config: &GitHelperConfig,
    )
        requires
            old(self).wf(),
        ensures
            final(self).wf(),
            final(self).repository == old(self).repository,
            final(self)@ == (AppState {
                status: old(self)@.status.asking(
                    prompt::creation(
                        Some(base_branch@),
                        jobs::prefix_from(jobs::lookup_view(found), config),
                        text::texts(config.protected_base_branches@),
                    ),
                ),
                ..old(self)@
            }),
    {
        let prefix = jobs::current_branch_prefix(found, config);
        self.app_status.open_prompt(prompt::branch_suffix_prompt(base_branch, prefix.as_str()));
    }

    /// Asks for the branch to switch to.
    pub fn open_switch_branch_prompt(&mut self, local_branches: &Vec<String>)
        requires
            old(self).wf(),
        ensures
            final(self).wf(),
            final(self).repository == old(self).repository,
            final(self)@ == (AppState {
                status: old(self)@.status.asking(
                    prompt::switching(text::texts(local_branches@)),
                ),
                ..old(self)@
            }),
    {
        self.app_status.open_prompt(prompt::switch_branch_prompt(local_branches));
    }

    /// Asks for the base of the current branch.
    pub fn open_set_base_prompt(
        &mut self,
        branch: Option<String>,
        local_branches: Vec<String>,
        recorded: Option<String>,
    )
        requires
            old(self).wf(),
        ensures
            final(self).wf(),
            final(self).repository == old(self).repository,
            final(self)@ == match prompt::basing(
                text::opt_text(branch),
                text::texts(local_branches@),
                text::opt_text(recorded),
            ) {
                Ok(p) => AppState { status: old(self)@.status.asking(p), ..old(self)@ },
                Err(e) => old(self)@.with_line(status_line::StatusLineView::NotificationError(e)),
            },
    {
        match prompt::set_base_prompt(branch, local_branches, recorded) {
            Ok(p) => self.app_status.open_prompt(p),
            Err(e) => self.app_status.error_notification(e),
        }
    }

    /// Asks for the prefix of new branches.
    pub fn open_set_branch_prefix_prompt(
        &mut self,
        found: Result<Option<String>, String>,
        config: &GitHelperConfig,
    )
        requires
            old(self).wf(),
        ensures
            final(self).wf(),
            final(self).repository == old(self).repository,
            final(self)@ == (AppState {
                status: old(self)@.status.asking(
                    prompt::prefixing(
                        jobs::prefix_from(jobs::lookup_view(found), config),
                        config.branch_prefix@,
                    ),
                ),
                ..old(self)@
            }),
    {
        let prefix = jobs::current_branch_prefix(found, config);
        self.app_status.open_prompt(
            prompt::set_branch_prefix_prompt(prefix.as_str(), config),
        );
    }

    /// Whether the program can look as it did.
    pub fn accepts_context(&self, context: &RefreshViewContext) -> (r: bool)
        requires
            self.wf(),
            self@.screen is List,
        ensures
            r == can_restore(self@, self.repository, context@),
    {
        match &self.view {
            Screen::List(v) => {
                let lc = context.list_context();
                let place = match v.place_after_reset(lc) {
                    Some(c) => c,
                    None => return false,
                };
                let list = v.as_list_state();
                let ghost l = list@;
                proof {
                    list.sizes_agree();
                    assert(l.moved(place).cursor == place);
                }
                match context {
                    RefreshViewContext::Detail { .. } => {
                        if place.offset > usize::MAX - place.selected || place.current()
                            >= place.total {
                            return false;
                        }
                        let hash = list.hash_at(place.current());
                        self.repository.commit(hash).is_some()
                    },
                    _ => true,
                }
            },
            _ => false,
        }
    }

    /// Makes the program look as it did before the repository was read anew. What is still to be
    /// loaded is returned.
    pub fn init_with_context(&mut self, context: RefreshViewContext) -> (r: Reply)
        requires
            old(self).wf(),
            old(self)@.screen is List,
            can_restore(old(self)@, old(self).repository, context@),
        ensures
            final(self).wf(),
            final(self).repository == old(self).repository,
            (final(self)@, r@) == restored(old(self)@, old(self).repository, context@),
    {
        let ghost before = self@;
        match self.take_view() {
            Screen::List(v) => {
                let mut v = v;
                v.reset_commit_list_with(context.list_context());
                self.view = Screen::List(v);
            },
            _ => {},
        }
        assert(self@ == list_restored(before, context@.list_part()));
        match context {
            RefreshViewContext::List { .. } => Reply::Nothing,
            RefreshViewContext::Detail { .. } => self.open_detail(),
            RefreshViewContext::UserCommand { user_command_context, .. } => Reply::RunUserCommand(
                user_command_context.n,
            ),
            RefreshViewContext::Refs { refs_context, .. } => {
                match self.take_view() {
                    Screen::List(v) => {
                        let mut v = v;
                        v.reset_refs_with(refs_context);
                        self.view = Screen::List(v);
                    },
                    _ => {},
                }
                Reply::Nothing
            },
            RefreshViewContext::Status { .. } => self.open_status(),
        }
    }
}

/// The program with its list as it was.
pub open spec fn list_restored(s: AppState, c: context::ListContextView) -> AppState {
    match s.screen {
        screen::ScreenView::List(v) => s.with_screen(
            screen::ScreenView::List(v.with_list(list::list_reset(v.list->0, c))),
        ),
        _ => s,
    }
}

/// Whether the program can look as it did: the list can be scrolled to where it stood, and the
/// commit whose details are to be shown is there.
pub open spec fn can_restore(s: AppState, repository: &Repository, c: context::RefreshView) -> bool {
    let l = s.screen.list()->0;
    let lc = c.list_part();
    &&& lc.scroll_to_top || Move::ScrollUp.repeatable(
        list::hash_selected(l.with_height(lc.height), lc.commit_hash),
        lc.selected as int,
    )
    &&& c is Detail ==> can_take(
        list_restored(s, lc),
        repository,
        event::AppEventView::OpenDetail,
    )
}

/// The program as it looked, and what is still to be loaded.
pub open spec fn restored(s: AppState, repository: &Repository, c: context::RefreshView) -> (
    AppState,
    ReplyView,
) {
    let t = list_restored(s, c.list_part());
    match c {
        context::RefreshView::List { .. } => (t, ReplyView::Nothing),
        context::RefreshView::Detail { .. } => (t, detail_wanted(repository, t.selected())),
        context::RefreshView::UserCommand { user_command_context, .. } => (
            t,
            ReplyView::RunUserCommand(user_command_context.n),
        ),
        context::RefreshView::Refs { refs_context, .. } => (
            match t.screen {
                screen::ScreenView::List(v) => t.with_screen(
                    screen::ScreenView::List(list::refs_reset(v, refs_context)),
                ),
                _ => t,
            },
            ReplyView::Nothing,
        ),
        context::RefreshView::Status { .. } => (t, ReplyView::LoadChanges),
    }
}

/// Whatever was opened over the commits, closing it brings back the same commits, on which the same
/// one is selected.
pub proof fn closing_brings_back_the_commits(s: AppState, repository: &Repository)
    requires
        s.screen.list() is Some,
    ensures
        s.screen is Detail ==> reply_to(
            s,
            repository,
            event::AppEventView::CloseDetail,
        ).0.screen.list() == s.screen.list(),
        s.screen is Status ==> reply_to(
            s,
            repository,
            event::AppEventView::CloseStatus,
        ).0.screen.list() == s.screen.list(),
        s.screen is UserCommand ==> reply_to(
            s,
            repository,
            event::AppEventView::CloseUserCommand,
        ).0.screen.list() == s.screen.list(),
        s.screen is Refs ==> reply_to(
            s,
            repository,
            event::AppEventView::CloseRefs,
        ).0.screen.list() == s.screen.list(),
{
}

/// Closing the help brings back what was on the screen before.
pub proof fn closing_help_undoes_opening(s: AppState, repository: &Repository)
    ensures
        reply_to(
            reply_to(s, repository, event::AppEventView::OpenHelp).0,
            repository,
            event::AppEventView::CloseHelp,
        ).0 == s,
{
}

/// A refresh of the commits beside the references that finds the same repository makes the program
/// look as it did.
pub proof fn refreshing_keeps_the_screen(
    before: list::ListViewState,
    sent: event::AppEventView,
    read_anew: AppState,
    repository: &Repository,
)
    requires
        before.list is Some,
        (before.list->0).cursor.settled(),
        (before.list->0).cursor.total == (before.list->0).infos.len(),
        forall|i: int|
            0 <= i < (before.list->0).cursor.index() ==> (#[trigger] (
            before.list->0).infos[i]).commit.hash != (before.list->0).selected().commit.hash,
        ref_list::valid_path(before.refs, before.tree.selected),
        forall|p: Seq<Seq<char>>| #[trigger]
            before.tree.opened.contains(p) ==> ref_list::valid_path(before.refs, p),
        list::asks_refresh(before, Some(sent)),
        read_anew.screen is List,
        read_anew.screen.list() is Some,
        (read_anew.screen->List_0).refs == before.refs,
        (read_anew.screen.list()->0).infos == (before.list->0).infos,
        (read_anew.screen.list()->0).cursor.total == (before.list->0).cursor.total,
        (read_anew.screen.list()->0).cursor.selected == 0,
        (read_anew.screen.list()->0).cursor.offset == 0,
    ensures
        ({
            let (t, r) = restored(read_anew, repository, sent->Refresh_0);
            let v = t.screen->List_0;
            &&& t.screen is List
            &&& r is Nothing
            &&& v.list is Some
            &&& (v.list->0).cursor == (before.list->0).cursor
            &&& v.tree.selected == before.tree.selected
            &&& v.tree.opened == before.tree.opened
            &&& v.focus == before.focus
        }),
{
    let c = sent->Refresh_0->Refs_refs_context;
    list::refresh_keeps_the_place(before.list->0, read_anew.screen.list()->0);
    list::refresh_keeps_the_references(before, c, (read_anew.screen->List_0).tree);
}

/// The help, the output of a command and the references on their own get every event that a key is
/// bound to, as often as it is asked for, but for the one that ends the program and for the
/// cancelling of a number.
pub proof fn other_views_get_events(
    s: AppState,
    e: UserEvent,
    key: Key,
    protected: Seq<Seq<char>>,
    t: AppState,
    r: ReplyView,
)
    requires
        s.screen is Help || s.screen is UserCommand || s.screen is Refs,
        s.status.prompt is None,
        !(s.status.line is NotificationError),
        e != UserEvent::ForceQuit,
        e == UserEvent::Cancel ==> s.status.prefix.len() == 0,
        key_handled(s, Some(e), key, protected, t, r),
    ensures
        r == ReplyView::ToOtherView(keys::counted(s.status.prefix, e)),
        t.screen == s.screen,
        t.status.prefix.len() == 0,
{
}

/// Whether the text is typed in the prompt, but for the white space around it.
pub open spec fn is_answered(p: prompt::PromptView, front: Seq<char>, s: Seq<char>, back: Seq<char>) -> bool {
    &&& p.options.len() == 0
    &&& p.input.typed == front + s + back
    &&& forall|i: int| 0 <= i < front.len() ==> text::white(#[trigger] front[i])
    &&& forall|i: int| 0 <= i < back.len() ==> text::white(#[trigger] back[i])
    &&& s.len() > 0
    &&& !text::white(s[0])
    &&& !text::white(s.last())
}

/// What is typed at a question and entered is what is done: a branch of that name is made from the
/// base that was asked for, or switched to, the prefix is set, or the base is taken where it is a
/// protected branch and refused where it is not. The question is gone.
pub proof fn typed_answers_are_done(
    s: AppState,
    bound: Option<UserEvent>,
    key: Key,
    protected: Seq<Seq<char>>,
    t: AppState,
    r: ReplyView,
    front: Seq<char>,
    typed: Seq<char>,
    back: Seq<char>,
)
    requires
        s.status.prompt is Some,
        is_answered(s.status.prompt->0, front, typed, back),
        key.code == event::KeyCode::Enter,
        key_handled(s, bound, key, protected, t, r),
    ensures
        t.status.prompt is None,
        t.screen == s.screen,
        match (s.status.prompt->0).kind {
            prompt::PromptKindView::CreateBranchSuffix { base_branch } => r == ReplyView::Start(
                TaskView::CreateBranch { base_branch, suffix: typed },
            ),
            prompt::PromptKindView::SwitchBranch => r == ReplyView::Start(
                TaskView::SwitchBranch { branch: typed },
            ),
            prompt::PromptKindView::SetBranchPrefix => r == ReplyView::Start(
                TaskView::SetBranchPrefix { prefix: typed },
            ),
            prompt::PromptKindView::SetBase => r == ReplyView::Start(
                TaskView::SetBase { base_branch: typed },
            ),
            prompt::PromptKindView::CreateBranchBase => if protected.contains(typed) {
                r == (ReplyView::AskBranchSuffix { base_branch: typed })
            } else {
                r is Nothing && t.status.line is NotificationError
            },
            prompt::PromptKindView::ActionMenu => {
                &&& typed[0] == 'b' ==> r is AskCreateBranch
                &&& typed[0] == 's' ==> r is AskSwitchBranch
                &&& typed[0] == 't' && (s.screen is List || s.screen is Detail || s.screen is Refs
                    || s.screen is UserCommand) ==> r is LoadChanges
                &&& typed[0] == 'a' ==> r is AskSetBase
                &&& typed[0] == 'f' ==> r is AskSetBranchPrefix
                &&& typed[0] == 'p' ==> r == ReplyView::Start(TaskView::PushCurrentBranch)
                &&& typed[0] == 'm' ==> r == ReplyView::Start(TaskView::MergeBase)
                &&& typed[0] == 'i' ==> r == ReplyView::Start(TaskView::InstallHook)
                &&& typed[0] == 'r' && s.screen is Status ==> (r matches ReplyView::Send(
                    event::AppEventView::Refresh(_),
                ))
                &&& typed[0] != 'b' && typed[0] != 's' && typed[0] != 't' && typed[0] != 'a' && typed[0]
                    != 'f' && typed[0] != 'p' && typed[0] != 'm' && typed[0] != 'i' && typed[0]
                    != 'r' ==> r is Nothing && t.status.line is NotificationError
            },
        },
{
    text::trimming_takes_white_space(front, typed, back);
    assert((s.status.prompt->0).value() == typed);
}

/// What is chosen as a base is set as the base.
pub proof fn chosen_bases_are_set(
    s: AppState,
    bound: Option<UserEvent>,
    key: Key,
    protected: Seq<Seq<char>>,
    t: AppState,
    r: ReplyView,
)
    requires
        s.status.prompt is Some,
        (s.status.prompt->0).kind is SetBase,
        0 <= (s.status.prompt->0).index < (s.status.prompt->0).options.len(),
        key.code == event::KeyCode::Enter,
        key_handled(s, bound, key, protected, t, r),
    ensures
        t.status.prompt is None,
        t.screen == s.screen,
        r == ReplyView::Start(
            TaskView::SetBase {
                base_branch: (s.status.prompt->0).options[(s.status.prompt->0).index],
            },
        ),
{
}

/// While a question is asked, the keys go to it: escape takes it back and does nothing, and a
/// character is typed behind the others.
pub proof fn questions_get_the_keys(
    s: AppState,
    bound: Option<UserEvent>,
    key: Key,
    protected: Seq<Seq<char>>,
    t: AppState,
    r: ReplyView,
    c: char,
)
    requires
        s.status.prompt is Some,
        (s.status.prompt->0).options.len() == 0,
        (s.status.prompt->0).input.caret == (s.status.prompt->0).input.typed.len(),
        key_handled(s, bound, key, protected, t, r),
    ensures
        key.code == event::KeyCode::Esc ==> t.status.prompt is None && r is Nothing,
        key.code == event::KeyCode::Char(c) && key.modifiers.numbered() <= 1 && key.kind
            != event::KeyKind::Release ==> r is Nothing && (t.status.prompt matches Some(p)
            && p.input.typed == (s.status.prompt->0).input.typed.push(c) && p.kind == (
        s.status.prompt->0).kind),
        t.screen == s.screen,
        t.status.prefix == s.status.prefix,
{
    let i = (s.status.prompt->0).input;
    if key.code == event::KeyCode::Char(c) && key.modifiers.numbered() <= 1 && key.kind
        != event::KeyKind::Release {
        crate::input::typing_appends(i, c, key);
    }
}

/// Each event that asks for a task starts that task, and each that asks for a question asks it, on
/// whatever screen.
pub proof fn events_start_their_tasks(s: AppState, repository: &Repository)
    ensures
        reply_to(s, repository, event::AppEventView::PushCurrentBranch) == (
            s,
            ReplyView::Start(TaskView::PushCurrentBranch),
        ),
        reply_to(s, repository, event::AppEventView::MergeBaseIntoCurrent) == (
            s,
            ReplyView::Start(TaskView::MergeBase),
        ),
        reply_to(s, repository, event::AppEventView::InstallHook) == (
            s,
            ReplyView::Start(TaskView::InstallHook),
        ),
        reply_to(s, repository, event::AppEventView::OpenCreateBranchPrompt) == (
            s,
            ReplyView::AskCreateBranch,
        ),
        reply_to(s, repository, event::AppEventView::OpenSwitchBranchPrompt) == (
            s,
            ReplyView::AskSwitchBranch,
        ),
        reply_to(s, repository, event::AppEventView::OpenSetBasePrompt) == (
            s,
            ReplyView::AskSetBase,
        ),
        reply_to(s, repository, event::AppEventView::OpenSetBranchPrefixPrompt) == (
            s,
            ReplyView::AskSetBranchPrefix,
        ),
        reply_to(s, repository, event::AppEventView::Quit).1 == ReplyView::Quit,
        reply_to(s, repository, event::AppEventView::OpenActionMenu).0.status.prompt matches Some(p)
            && p.kind is ActionMenu,
        reply_to(s, repository, event::AppEventView::OpenActionMenu).0.screen == s.screen,
{
}

/// What is handed to the program is handed on as it came: the paths of an action, the text to copy,
/// the number of a command, the place to come back to, and the message to show.
pub proof fn events_are_handed_on(
    s: AppState,
    repository: &Repository,
    action: workflow::ActionView,
    name: Seq<char>,
    value: Seq<char>,
    n: usize,
    c: context::RefreshView,
)
    ensures
        reply_to(s, repository, event::AppEventView::RunWorkflowAction(action)) == (
            s,
            ReplyView::RunWorkflow(action),
        ),
        reply_to(s, repository, event::AppEventView::CopyToClipboard { name, value }) == (
            s,
            ReplyView::Copy { name, value },
        ),
        reply_to(s, repository, event::AppEventView::OpenUserCommand(n)) == (
            s,
            ReplyView::RunUserCommand(n),
        ),
        reply_to(s, repository, event::AppEventView::Refresh(c)) == (s, ReplyView::Refresh(c)),
        reply_to(s, repository, event::AppEventView::NotifyError(name)).0.status.line
            == status_line::StatusLineView::NotificationError(name),
        reply_to(s, repository, event::AppEventView::NotifyWarn(name)).0.status.line
            == status_line::StatusLineView::NotificationWarn(name),
        reply_to(s, repository, event::AppEventView::NotifySuccess(name)).0.status.line
            == status_line::StatusLineView::NotificationSuccess(name),
        reply_to(s, repository, event::AppEventView::NotifyInfo(name)).0.status.line
            == status_line::StatusLineView::NotificationInfo(name),
        reply_to(s, repository, event::AppEventView::ClearStatusLine).0.status.line is Blank,
{
}

/// The details of a commit are asked of git by its hash: what it changed over its first parent, or
/// all its files where it has no parent.
pub proof fn details_are_of_the_selected_commit(s: AppState, repository: &Repository)
    requires
        s.screen is List || s.screen is UserCommand,
    ensures
        ({
            let (t, r) = reply_to(s, repository, event::AppEventView::OpenDetail);
            let hash = (s.screen.list()->0).selected().commit.hash;
            let parents = repository.commits()[hash].parent_commit_hashes@.len();
            &&& t == s
            &&& r matches ReplyView::LoadDetail { commit_hash, arguments }
            &&& commit_hash == hash
            &&& parents > 0 ==> arguments == seq!["diff"@, "--name-status"@, hash + "^"@, hash]
            &&& parents == 0 ==> arguments == seq!["ls-tree"@, "--name-status"@, "-r"@, hash]
        }),
{
}

/// Beside the details, or the output of a command, another commit can be selected: the details of
/// that commit are loaded, or the command is run for it.
pub proof fn other_commits_are_shown(s: AppState, repository: &Repository, e: event::AppEventView)
    requires
        s.screen is Detail || s.screen is UserCommand,
        s.screen.list() is Some,
        (s.screen.list()->0).cursor.settled(),
        (s.screen.list()->0).cursor.total == (s.screen.list()->0).infos.len(),
        e is SelectOlderCommit || e is SelectNewerCommit,
    ensures
        ({
            let (t, r) = reply_to(s, repository, e);
            let l = s.screen.list()->0;
            let at = l.cursor.index();
            let to = t.screen.list()->0;
            &&& t.status == s.status
            &&& e is SelectOlderCommit && at + 1 < l.infos.len() ==> to.selected() == l.infos[at + 1]
            &&& e is SelectNewerCommit && at > 0 ==> to.selected() == l.infos[at - 1]
            &&& s.screen is Detail ==> (r matches ReplyView::LoadDetail { commit_hash, .. }
                && commit_hash == to.selected().commit.hash)
            &&& s.screen matches screen::ScreenView::UserCommand { number, .. } ==> r
                == ReplyView::RunUserCommand(number)
        }),
{
    let c = (s.screen.list()->0).cursor;
    c.steps_are_single();
    c.settled_is_on_item();
}

proof fn first_protected_is_taken(
    refs: Seq<git::RefView>,
    protected: Seq<Seq<char>>,
    from: int,
    i: int,
)
    requires
        0 <= from <= i <= refs.len(),
        forall|j: int|
            from <= j < i ==> !(#[trigger] refs[j] matches git::RefView::Branch { name, .. }
                && protected.contains(name)),
        i < refs.len() ==> (refs[i] matches git::RefView::Branch { name, .. } && protected.contains(
            name,
        )),
    ensures
        i < refs.len() ==> protected_from(refs, protected, from) == Some(refs[i]->Branch_name),
        i == refs.len() ==> protected_from(refs, protected, from) is None,
    decreases i - from,
{
    if from < i {
        assert(!(refs[from] matches git::RefView::Branch { name, .. } && protected.contains(name)));
        first_protected_is_taken(refs, protected, from + 1, i);
    }
}

/// A new branch is based on the first protected branch at the selected commit; where there is none,
/// on the current branch if that is protected; where it is not, on the one protected branch if there
/// is but one; and otherwise the user is asked.
pub proof fn bases_are_inferred(
    refs: Seq<git::RefView>,
    current: Option<Seq<char>>,
    protected: Seq<Seq<char>>,
    i: int,
)
    requires
        0 <= i <= refs.len(),
        forall|j: int|
            0 <= j < i ==> !(#[trigger] refs[j] matches git::RefView::Branch { name, .. }
                && protected.contains(name)),
        i < refs.len() ==> (refs[i] matches git::RefView::Branch { name, .. } && protected.contains(
            name,
        )),
    ensures
        i < refs.len() ==> inferred_base(refs, current, protected) == Some(refs[i]->Branch_name),
        i == refs.len() ==> match current {
            Some(b) if protected.contains(b) => inferred_base(refs, current, protected) == Some(b),
            _ => if protected.len() == 1 {
                inferred_base(refs, current, protected) == Some(protected[0])
            } else {
                inferred_base(refs, current, protected) is None
            },
        },
{
    first_protected_is_taken(refs, protected, 0, i);
}

/// The keys that a view binds to an event go to the view on the screen, and what the view asks for
/// is sent to the program.
pub proof fn keys_reach_the_view(
    s: AppState,
    e: UserEvent,
    key: Key,
    protected: Seq<Seq<char>>,
    t: AppState,
    r: ReplyView,
)
    requires
        s.status.prompt is None,
        !(s.status.line is NotificationError),
        s.status.prefix.len() == 0,
        s.screen is Detail,
        e != UserEvent::ForceQuit,
        key_handled(s, Some(e), key, protected, t, r),
    ensures
        e == UserEvent::SelectDown ==> r == ReplyView::Send(event::AppEventView::SelectOlderCommit),
        e == UserEvent::SelectUp ==> r == ReplyView::Send(event::AppEventView::SelectNewerCommit),
        e == UserEvent::Close ==> r == ReplyView::Send(event::AppEventView::CloseDetail),
        e == UserEvent::FullCopy ==> (r matches ReplyView::Send(
            event::AppEventView::CopyToClipboard { value, .. },
        ) && value == (s.screen->Detail_0).commit.hash),
        t.screen.list() == s.screen.list(),
{
}

/// A refresh from the details, from the output of a command or from the changes comes back to them:
/// the same commit is selected, its details are loaded, the same command is run, or the changes are
/// read again.
pub proof fn refreshing_comes_back(
    before: AppState,
    sent: Option<event::AppEventView>,
    read_anew: AppState,
    repository: &Repository,
)
    requires
        before.screen is Detail || before.screen is UserCommand || before.screen is Status,
        before.screen.list() is Some,
        ({
            let l = before.screen.list()->0;
            &&& l.cursor.settled()
            &&& l.cursor.total == l.infos.len()
            &&& forall|i: int|
                0 <= i < l.cursor.index() ==> (#[trigger] l.infos[i]).commit.hash
                    != l.selected().commit.hash
        }),
        before.screen.asks_refresh(sent),
        read_anew.screen is List,
        read_anew.screen.list() is Some,
        (read_anew.screen.list()->0).infos == (before.screen.list()->0).infos,
        (read_anew.screen.list()->0).cursor.total == (before.screen.list()->0).cursor.total,
        (read_anew.screen.list()->0).cursor.selected == 0,
        (read_anew.screen.list()->0).cursor.offset == 0,
    ensures
        sent matches Some(event::AppEventView::Refresh(c)) && {
            let (t, r) = restored(read_anew, repository, c);
            &&& t.screen.list() matches Some(l)
            &&& l.cursor == (before.screen.list()->0).cursor
            &&& before.screen is Detail ==> (r matches ReplyView::LoadDetail { commit_hash, .. }
                && commit_hash == (before.screen.list()->0).selected().commit.hash)
            &&& before.screen matches screen::ScreenView::UserCommand { number, .. } ==> r
                == ReplyView::RunUserCommand(number)
            &&& before.screen is Status ==> r is LoadChanges
        },
{
    let old_list = before.screen.list()->0;
    let new_list = read_anew.screen.list()->0;
    list::refresh_keeps_the_place(old_list, new_list);
    let c = context::context_of(old_list);
    let reset = list::list_reset(new_list, c);
    let tall = new_list.with_height(c.height);
    if !c.scroll_to_top {
        Move::ScrollUp.repeating_moves_only(list::hash_selected(tall, c.commit_hash), c.selected as int);
    }
    assert(reset.infos == old_list.infos);
}

/// What was copied is told by its name, and where copying failed, why.
pub proof fn copies_are_told(name: &str, outcome: Result<(), String>, sent: AppEvent)
    requires
        call_ensures(copy_to_clipboard, (name, outcome), sent),
    ensures
        outcome is Ok ==> (sent@ matches event::AppEventView::NotifySuccess(m) && text::holds(
            m,
            "Copied "@ + name@ + " to clipboard"@,
        )),
        outcome matches Err(e) ==> sent@ == event::AppEventView::NotifyError(e@),
{
    reveal_strlit(" to clipboard successfully");
    reveal_strlit(" to clipboard");
    let n = " to clipboard"@.len() as int;
    let end = " to clipboard successfully"@;
    assert(end.take(n) =~= " to clipboard"@);
    let none = Seq::<char>::empty();
    let told = "Copied "@ + name@ + " to clipboard"@;
    text::middles_are_held(none, told, end.skip(n));
    assert("Copied "@ + name@ + end =~= none + told + end.skip(n));
}

} // verus!
