//! The commits beside the references.

use vstd::prelude::*;
use vstd::string::*;
use crate::event;
use crate::event::{AppEvent, Key, UserEvent, UserEventWithCount};
use crate::git;
use crate::git::{CommitHash, Head, Ref};
use crate::input;
use crate::text;
use crate::view::context;
use crate::view::context::{ListRefreshViewContext, RefreshViewContext, RefsRefreshViewContext};
use crate::widget::commit_list;
use crate::widget::commit_list::CommitListState;
use crate::widget::commit_moves::Move;
use crate::widget::cursor::Cursor;
use crate::widget::ref_list;
use crate::widget::ref_list::RefListState;
use crate::widget::search::SearchState;

verus! {

/// What the keys go to.
#[derive(Debug, Clone, Copy, PartialEq, Eq, Structural)]
pub enum FocusPane {
    Sidebar,
    CommitList,
}

/// The view of the commits beside the references.
#[derive(Debug)]
pub struct ListView<'a> {
    commit_list_state: Option<CommitListState<'a>>,
    ref_list_state: RefListState,
    refs: Vec<Ref>,
    focus_pane: FocusPane,
}

/// What the view of the commits shows.
pub ghost struct ListViewState {
    pub list: Option<commit_list::ListStateView>,
    pub tree: ref_list::RefsState,
    pub refs: Seq<git::RefView>,
    pub focus: FocusPane,
}

impl ListViewState {
    pub open spec fn with_list(self, list: commit_list::ListStateView) -> ListViewState {
        ListViewState { list: Some(list), ..self }
    }

    /// The view with another tree, and with the commit of what is selected in it selected.
    pub open spec fn following(self, tree: ref_list::RefsState) -> ListViewState {
        let list = self.list->0;
        ListViewState {
            tree,
            list: Some(
                match ref_list::selected_name(tree.selected) {
                    Some(name) if list.ref_index.contains_key(name) => list.moved(
                        list.cursor.to(list.ref_index[name] as int),
                    ),
                    _ => list,
                },
            ),
            ..self
        }
    }
}

/// The view of some commits and references as it is opened: the branch that is checked out is
/// selected among the references.
pub open spec fn opened(l: commit_list::ListStateView, refs: Seq<git::RefView>) -> ListViewState {
    ListViewState {
        list: Some(l),
        tree: match l.head {
            git::HeadView::Branch { name } => ref_list::fresh().on_branch(name),
            _ => ref_list::fresh(),
        },
        refs,
        focus: FocusPane::CommitList,
    }
}

/// The move that an event asks for.
pub open spec fn move_for(e: UserEvent) -> Option<Move> {
    match e {
        UserEvent::NavigateDown | UserEvent::SelectDown => Some(Move::Next),
        UserEvent::NavigateUp | UserEvent::SelectUp => Some(Move::Prev),
        UserEvent::GoToParent => Some(Move::Parent),
        UserEvent::ScrollDown => Some(Move::ScrollDown),
        UserEvent::ScrollUp => Some(Move::ScrollUp),
        UserEvent::PageDown => Some(Move::PageDown),
        UserEvent::PageUp => Some(Move::PageUp),
        UserEvent::HalfPageDown => Some(Move::HalfPageDown),
        UserEvent::HalfPageUp => Some(Move::HalfPageUp),
        _ => None,
    }
}

/// What is sent, and nothing else done, for an event.
pub open spec fn plain_request(e: UserEvent) -> Option<event::AppEventView> {
    match e {
        UserEvent::Quit => Some(event::AppEventView::Quit),
        UserEvent::ActionMenu => Some(event::AppEventView::OpenActionMenu),
        UserEvent::CreateBranch => Some(event::AppEventView::OpenCreateBranchPrompt),
        UserEvent::SwitchBranch => Some(event::AppEventView::OpenSwitchBranchPrompt),
        UserEvent::OpenStatus => Some(event::AppEventView::OpenStatus),
        UserEvent::PushCurrent => Some(event::AppEventView::PushCurrentBranch),
        UserEvent::MergeBase => Some(event::AppEventView::MergeBaseIntoCurrent),
        UserEvent::InstallHook => Some(event::AppEventView::InstallHook),
        UserEvent::SetBase => Some(event::AppEventView::OpenSetBasePrompt),
        UserEvent::SetBranchPrefix => Some(event::AppEventView::OpenSetBranchPrefixPrompt),
        UserEvent::UserCommand(n) => Some(event::AppEventView::OpenUserCommand(n)),
        UserEvent::HelpToggle => Some(event::AppEventView::OpenHelp),
        UserEvent::Confirm => Some(event::AppEventView::OpenDetail),
        _ => None,
    }
}

/// What is sent while a query is typed.
pub open spec fn query_shown(l: commit_list::ListStateView) -> Option<event::AppEventView> {
    match l.search_state {
        SearchState::Searching { transient_message, .. } => Some(
            event::AppEventView::UpdateStatusInput(
                "/"@ + l.input.typed,
                commit_list::query_column(input::caret_column(l.input.typed.take(l.input.caret as int))),
                commit_list::toggle_message(transient_message),
            ),
        ),
        _ => None,
    }
}

/// What is sent when a search was applied.
pub open spec fn outcome_shown(l: commit_list::ListStateView) -> event::AppEventView {
    match l.search_state {
        SearchState::Applied { match_index, total_match } => {
            let message = commit_list::match_message(
                match_index as nat,
                total_match as nat,
                l.input.typed,
            );
            if total_match > 0 {
                event::AppEventView::NotifyInfo(message)
            } else {
                event::AppEventView::NotifyWarn(message)
            }
        },
        _ => event::AppEventView::ClearStatusLine,
    }
}

/// Whether the references are to look after a refresh as they do now.
pub open spec fn keeps_refs(s: ListViewState, c: context::RefsContextView) -> bool {
    &&& c.selected == s.tree.selected
    &&& c.opened.no_duplicates()
    &&& c.opened.to_set() == s.tree.opened
    &&& c.focus_sidebar == (s.focus == FocusPane::Sidebar)
}

/// Whether what is sent asks for a refresh that keeps the view.
pub open spec fn asks_refresh(s: ListViewState, sent: Option<event::AppEventView>) -> bool {
    match sent {
        Some(
            event::AppEventView::Refresh(context::RefreshView::Refs { list_context, refs_context }),
        ) => list_context == context::context_of(s.list->0) && keeps_refs(s, refs_context),
        _ => false,
    }
}

/// What is sent for the copy of a value.
pub open spec fn copy_of(name: Seq<char>, value: Seq<char>) -> Option<event::AppEventView> {
    Some(event::AppEventView::CopyToClipboard { name, value })
}

/// The list once a search is over.
pub open spec fn search_cancelled(l: commit_list::ListStateView) -> commit_list::ListStateView {
    if l.search_state is Inactive {
        l
    } else {
        (commit_list::ListStateView { search_state: SearchState::Inactive, ..l.unmatched() })
    }
}

/// The list once a search has begun.
pub open spec fn search_started(l: commit_list::ListStateView) -> commit_list::ListStateView {
    if l.search_state is Searching {
        l
    } else {
        (commit_list::ListStateView {
            search_state: SearchState::Searching {
                start_index: l.cursor.index() as usize,
                match_index: 0,
                ignore_case: l.default_ignore_case,
                fuzzy: l.default_fuzzy,
                transient_message: crate::widget::search::TransientMessage::Nothing,
            },
            ..l.unmatched()
        })
    }
}

/// The list once a search was applied.
pub open spec fn search_applied(l: commit_list::ListStateView) -> commit_list::ListStateView {
    match l.search_state {
        SearchState::Searching { match_index, .. } => commit_list::ListStateView {
            search_state: if l.input.typed.len() == 0 {
                SearchState::Inactive
            } else {
                SearchState::Applied {
                    match_index,
                    total_match: commit_list::matches_before(
                        l.matches,
                        l.matches.len() as int,
                    ) as usize,
                }
            },
            ..l
        },
        _ => l,
    }
}

/// A list that is being searched after a key.
pub open spec fn typed(l: commit_list::ListStateView, key: Key) -> commit_list::ListStateView {
    (commit_list::ListStateView {
        input: l.input.after_key(key),
        search_state: commit_list::quiet(l.search_state),
        ..l
    }).searched()
}

/// How the view answers an event while a query is typed.
pub open spec fn answers_searching(
    s: ListViewState,
    e: UserEvent,
    key: Key,
    t: ListViewState,
    sent: Option<event::AppEventView>,
) -> bool {
    let l = s.list->0;
    match e {
        UserEvent::Confirm => {
            &&& t == s.with_list(search_applied(l))
            &&& sent == Some(outcome_shown(search_applied(l)))
        },
        UserEvent::Cancel => {
            &&& t == s.with_list(search_cancelled(l))
            &&& sent == Some(event::AppEventView::ClearStatusLine)
        },
        UserEvent::IgnoreCaseToggle => {
            let m = (commit_list::ListStateView {
                search_state: commit_list::with_case_toggled(l.search_state),
                ..l
            }).searched();
            t == s.with_list(m) && sent == query_shown(m)
        },
        UserEvent::FuzzyToggle => {
            let m = (commit_list::ListStateView {
                search_state: commit_list::with_fuzzy_toggled(l.search_state),
                ..l
            }).searched();
            t == s.with_list(m) && sent == query_shown(m)
        },
        _ => t == s.with_list(typed(l, key)) && sent == query_shown(typed(l, key)),
    }
}

/// How the view answers an event where the commits have the focus and no query is typed.
pub open spec fn answers_list(
    s: ListViewState,
    e: UserEvent,
    count: int,
    t: ListViewState,
    sent: Option<event::AppEventView>,
) -> bool {
    let l = s.list->0;
    if plain_request(e) is Some {
        t == s && sent == plain_request(e)
    } else if move_for(e) is Some {
        t == s.with_list((move_for(e)->0).repeated(l, count)) && sent is None
    } else {
        match e {
            UserEvent::GoToTop => t == s.with_list(l.moved(l.cursor.at(0, 0))) && sent is None,
            UserEvent::GoToBottom => t == s.with_list(l.moved(l.cursor.last())) && sent is None,
            UserEvent::SelectTop => t == s.with_list(
                l.moved(l.cursor.at(0, l.cursor.offset as int)),
            ) && sent is None,
            UserEvent::SelectMiddle => t == s.with_list(
                l.moved(l.cursor.at(l.cursor.rows() / 2, l.cursor.offset as int)),
            ) && sent is None,
            UserEvent::SelectBottom => t == s.with_list(
                l.moved(l.cursor.at(l.cursor.rows() - 1, l.cursor.offset as int)),
            ) && sent is None,
            UserEvent::ShortCopy => t == s && sent == copy_of(
                "Commit SHA (short)"@,
                git::short_hash(l.selected().commit.hash),
            ),
            UserEvent::FullCopy => t == s && sent == copy_of(
                "Commit SHA"@,
                l.selected().commit.hash,
            ),
            UserEvent::Search => t == s.with_list(search_started(l)) && sent == query_shown(
                search_started(l),
            ),
            UserEvent::Cancel => t == s.with_list(search_cancelled(l)) && sent == Some(
                event::AppEventView::ClearStatusLine,
            ),
            UserEvent::RefList => t == (ListViewState { focus: FocusPane::Sidebar, ..s })
                && sent is None,
            UserEvent::Refresh => t == s && asks_refresh(s, sent),
            UserEvent::GoToNext if l.search_state is Applied => {
                let m = l.at_match(commit_list::next_match(l.matches, l.cursor.index()));
                t == s.with_list(m) && sent == Some(outcome_shown(m))
            },
            UserEvent::GoToPrevious if l.search_state is Applied => {
                let m = l.at_match(commit_list::prev_match(l.matches, l.cursor.index()));
                t == s.with_list(m) && sent == Some(outcome_shown(m))
            },
            _ => t == s && sent is None,
        }
    }
}

/// How the view answers an event where the references have the focus.
pub open spec fn answers_sidebar(
    s: ListViewState,
    e: UserEvent,
    count: int,
    t: ListViewState,
    sent: Option<event::AppEventView>,
) -> bool {
    match e {
        UserEvent::Quit => t == s && sent == Some(event::AppEventView::Quit),
        UserEvent::RefList | UserEvent::Cancel | UserEvent::Close => t == (ListViewState {
            focus: FocusPane::CommitList,
            ..s
        }) && sent is None,
        UserEvent::NavigateDown | UserEvent::SelectDown => t == s.following(s.tree.down_by(count))
            && sent is None,
        UserEvent::NavigateUp | UserEvent::SelectUp => t == s.following(s.tree.up_by(count))
            && sent is None,
        UserEvent::GoToTop => t == s.following(s.tree.first()) && sent is None,
        UserEvent::GoToBottom => t == s.following(s.tree.last()) && sent is None,
        UserEvent::NavigateRight => t == s.following(s.tree.unfolded()) && sent is None,
        UserEvent::NavigateLeft => t == s.following(s.tree.folded()) && sent is None,
        UserEvent::ShortCopy | UserEvent::FullCopy => t == s && sent == (if ref_list::branch_at(
            s.tree.selected,
        ) is Some {
            copy_of("Branch Name"@, ref_list::branch_at(s.tree.selected)->0)
        } else if ref_list::tag_at(s.tree.selected) is Some {
            copy_of("Tag Name"@, ref_list::tag_at(s.tree.selected)->0)
        } else {
            None
        }),
        UserEvent::OpenStatus => t == s && sent == Some(event::AppEventView::OpenStatus),
        UserEvent::HelpToggle => t == s && sent == Some(event::AppEventView::OpenHelp),
        UserEvent::Refresh => t == s && asks_refresh(s, sent),
        _ => t == s && sent is None,
    }
}

/// How the view answers an event: its state afterwards, and what it sends.
pub open spec fn answers(
    s: ListViewState,
    e: UserEvent,
    count: int,
    key: Key,
    t: ListViewState,
    sent: Option<event::AppEventView>,
) -> bool {
    if s.focus == FocusPane::Sidebar {
        answers_sidebar(s, e, count, t, sent)
    } else if (s.list->0).search_state is Searching {
        answers_searching(s, e, key, t, sent)
    } else {
        answers_list(s, e, count, t, sent)
    }
}

/// Whether the view can answer an event: what the event asks for is there.
pub open spec fn can_answer(s: ListViewState, e: UserEvent, count: int) -> bool {
    let l = s.list->0;
    &&& s.list is Some
    &&& if s.focus == FocusPane::Sidebar {
        e == UserEvent::Refresh ==> l.cursor.on_item()
    } else if l.search_state is Searching {
        e == UserEvent::Confirm || e == UserEvent::Cancel || (commit_list::searchable(l.infos)
            && l.started_inside())
    } else if move_for(e) is Some {
        (move_for(e)->0).repeatable(l, count)
    } else {
        match e {
            UserEvent::GoToBottom | UserEvent::SelectBottom => l.cursor.ready(),
            UserEvent::ShortCopy => l.cursor.on_item() && text::splits_at(
                l.selected().commit.hash,
                git::SHORT_HASH_BYTES as nat,
            ),
            UserEvent::FullCopy | UserEvent::Refresh => l.cursor.on_item(),
            UserEvent::Search => l.cursor.index() <= usize::MAX,
            UserEvent::GoToNext | UserEvent::GoToPrevious => l.search_state is Applied
                ==> l.cursor.on_item(),
            _ => true,
        }
    }
}

/// The list that a refresh leaves as it was, as far as it can.
pub open spec fn list_reset(
    l: commit_list::ListStateView,
    c: context::ListContextView,
) -> commit_list::ListStateView {
    let tall = l.with_height(c.height);
    if c.scroll_to_top {
        tall.moved(tall.cursor.at(0, 0))
    } else {
        Move::ScrollUp.repeated(hash_selected(tall, c.commit_hash), c.selected as int)
    }
}

/// The view with the references that a refresh leaves as they were, as far as they are there.
pub open spec fn refs_reset(s: ListViewState, c: context::RefsContextView) -> ListViewState {
    ListViewState {
        tree: s.tree.reset_to(s.refs, c.selected, c.opened),
        focus: if c.focus_sidebar {
            FocusPane::Sidebar
        } else {
            FocusPane::CommitList
        },
        ..s
    }
}

/// The list with the first commit with this hash selected, where there is one.
pub open spec fn hash_selected(
    l: commit_list::ListStateView,
    hash: Seq<char>,
) -> commit_list::ListStateView {
    if commit_list::has_hash(l.infos, hash) {
        l.moved(l.cursor.to(commit_list::find_hash(l.infos, hash, 0)))
    } else {
        l
    }
}

impl<'a> View for ListView<'a> {
    type V = ListViewState;

    closed spec fn view(&self) -> ListViewState {
        ListViewState {
            list: commit_list::opt_list(self.commit_list_state),
            tree: self.ref_list_state@,
            refs: git::ref_views(self.refs@),
            focus: self.focus_pane,
        }
    }
}

fn event_move(e: UserEvent) -> (r: Option<Move>)
    ensures
        r == move_for(e),
{
    match e {
        UserEvent::NavigateDown | UserEvent::SelectDown => Some(Move::Next),
        UserEvent::NavigateUp | UserEvent::SelectUp => Some(Move::Prev),
        UserEvent::GoToParent => Some(Move::Parent),
        UserEvent::ScrollDown => Some(Move::ScrollDown),
        UserEvent::ScrollUp => Some(Move::ScrollUp),
        UserEvent::PageDown => Some(Move::PageDown),
        UserEvent::PageUp => Some(Move::PageUp),
        UserEvent::HalfPageDown => Some(Move::HalfPageDown),
        UserEvent::HalfPageUp => Some(Move::HalfPageUp),
        _ => None,
    }
}

fn event_request(e: UserEvent) -> (r: Option<AppEvent>)
    ensures
        event::opt_event(r) == plain_request(e),
{
    match e {
        UserEvent::Quit => Some(AppEvent::Quit),
        UserEvent::ActionMenu => Some(AppEvent::OpenActionMenu),
        UserEvent::CreateBranch => Some(AppEvent::OpenCreateBranchPrompt),
        UserEvent::SwitchBranch => Some(AppEvent::OpenSwitchBranchPrompt),
        UserEvent::OpenStatus => Some(AppEvent::OpenStatus),
        UserEvent::PushCurrent => Some(AppEvent::PushCurrentBranch),
        UserEvent::MergeBase => Some(AppEvent::MergeBaseIntoCurrent),
        UserEvent::InstallHook => Some(AppEvent::InstallHook),
        UserEvent::SetBase => Some(AppEvent::OpenSetBasePrompt),
        UserEvent::SetBranchPrefix => Some(AppEvent::OpenSetBranchPrefixPrompt),
        UserEvent::UserCommand(n) => Some(AppEvent::OpenUserCommand(n)),
        UserEvent::HelpToggle => Some(AppEvent::OpenHelp),
        UserEvent::Confirm => Some(AppEvent::OpenDetail),
        _ => None,
    }
}

/// Asks for the copy of a value.
pub fn copy_to_clipboard(name: &str, value: &str) -> (r: AppEvent)
    ensures
        Some(r@) == copy_of(name@, value@),
{
    AppEvent::CopyToClipboard { name: name.to_string(), value: value.to_string() }
}

/// Shows the query that is being typed.
fn update_search_query(l: &CommitListState) -> (r: Option<AppEvent>)
    ensures
        event::opt_event(r) == query_shown(l@),
{
    match l.search_query_string() {
        Some(query) => Some(
            AppEvent::UpdateStatusInput(
                query,
                l.search_query_cursor_position(),
                l.transient_message_string(),
            ),
        ),
        None => None,
    }
}

/// Says what came of a search.
fn update_matched_message(l: &CommitListState) -> (r: AppEvent)
    ensures
        r@ == outcome_shown(l@),
{
    match l.matched_query_string() {
        Some((message, matched)) => if matched {
            AppEvent::NotifyInfo(message)
        } else {
            AppEvent::NotifyWarn(message)
        },
        None => AppEvent::ClearStatusLine,
    }
}

fn copy_commit_short_hash(l: &CommitListState) -> (r: AppEvent)
    requires
        l.wf(),
        l@.cursor.on_item(),
        text::splits_at(l@.selected().commit.hash, git::SHORT_HASH_BYTES as nat),
    ensures
        Some(r@) == copy_of("Commit SHA (short)"@, git::short_hash(l@.selected().commit.hash)),
{
    copy_to_clipboard(
        "Commit SHA (short)",
        l.selected_commit_hash().as_short_hash(),
    )
}

fn copy_commit_hash(l: &CommitListState) -> (r: AppEvent)
    requires
        l.wf(),
        l@.cursor.on_item(),
    ensures
        Some(r@) == copy_of("Commit SHA"@, l@.selected().commit.hash),
{
    copy_to_clipboard("Commit SHA", l.selected_commit_hash().as_str())
}

/// Asks of the list what an event wants while a query is typed.
fn search_event(l: &mut CommitListState, e: UserEvent, key: Key) -> (r: Option<AppEvent>)
    requires
        old(l).wf(),
        old(l)@.search_state is Searching,
        e == UserEvent::Confirm || e == UserEvent::Cancel || (commit_list::searchable(old(l)@.infos)
            && old(l)@.started_inside()),
    ensures
        final(l).wf(),
        forall|s: ListViewState|
            s.list == Some(old(l)@) ==> #[trigger] answers_searching(
                s,
                e,
                key,
                s.with_list(final(l)@),
                event::opt_event(r),
            ),
{
    match e {
        UserEvent::Confirm => {
            l.apply_search();
            Some(update_matched_message(l))
        },
        UserEvent::Cancel => {
            l.cancel_search();
            Some(AppEvent::ClearStatusLine)
        },
        UserEvent::IgnoreCaseToggle => {
            l.toggle_ignore_case();
            update_search_query(l)
        },
        UserEvent::FuzzyToggle => {
            l.toggle_fuzzy();
            update_search_query(l)
        },
        _ => {
            l.handle_search_input(key);
            update_search_query(l)
        },
    }
}

/// Asks of the list what an event wants that does not concern the view alone.
fn list_event(l: &mut CommitListState, e: UserEvent, count: usize) -> (r: Option<AppEvent>)
    requires
        old(l).wf(),
        !(old(l)@.search_state is Searching),
        e != UserEvent::RefList,
        e != UserEvent::Refresh,
        forall|s: ListViewState|
            s.list == Some(old(l)@) && s.focus == FocusPane::CommitList ==> #[trigger] can_answer(
                s,
                e,
                count as int,
            ),
    ensures
        final(l).wf(),
        forall|s: ListViewState|
            s.list == Some(old(l)@) ==> #[trigger] answers_list(
                s,
                e,
                count as int,
                s.with_list(final(l)@),
                event::opt_event(r),
            ),
{
    let ghost any = ListViewState {
        list: Some(l@),
        tree: ref_list::fresh(),
        refs: Seq::empty(),
        focus: FocusPane::CommitList,
    };
    assert(can_answer(any, e, count as int));
    assert(forall|s: ListViewState| s.list == Some(l@) ==> s == #[trigger] s.with_list(l@));
    match event_request(e) {
        Some(request) => return Some(request),
        None => {},
    }
    match event_move(e) {
        Some(m) => {
            l.repeat(m, count);
            return None;
        },
        None => {},
    }
    match e {
        UserEvent::GoToTop => {
            l.select_first();
            None
        },
        UserEvent::GoToBottom => {
            l.select_last();
            None
        },
        UserEvent::SelectTop => {
            l.select_high();
            None
        },
        UserEvent::SelectMiddle => {
            l.select_middle();
            None
        },
        UserEvent::SelectBottom => {
            l.select_low();
            None
        },
        UserEvent::ShortCopy => Some(copy_commit_short_hash(l)),
        UserEvent::FullCopy => Some(copy_commit_hash(l)),
        UserEvent::Search => {
            l.start_search();
            update_search_query(l)
        },
        UserEvent::Cancel => {
            l.cancel_search();
            Some(AppEvent::ClearStatusLine)
        },
        _ => {
            let applied = match l.search_state() {
                SearchState::Applied { .. } => true,
                _ => false,
            };
            if !applied {
                return None;
            }
            match e {
                UserEvent::GoToNext => {
                    l.select_next_match();
                    Some(update_matched_message(l))
                },
                UserEvent::GoToPrevious => {
                    l.select_prev_match();
                    Some(update_matched_message(l))
                },
                _ => None,
            }
        },
    }
}

impl<'a> ListView<'a> {
    pub closed spec fn wf(&self) -> bool {
        self.commit_list_state matches Some(l) ==> l.wf()
    }

    /// The view of some commits. The branch that is checked out is selected among the references.
    pub fn new(commit_list_state: CommitListState<'a>, refs: Vec<Ref>) -> (r: ListView<'a>)
        requires
            commit_list_state.wf(),
        ensures
            r.wf(),
            r@ == opened(commit_list_state@, git::ref_views(refs@)),
    {
        let mut ref_list_state = RefListState::new();
        if let Head::Branch { name } = commit_list_state.head() {
            ref_list_state.select_branch_name(name.as_str());
        }
        ListView {
            commit_list_state: Some(commit_list_state),
            ref_list_state,
            refs,
            focus_pane: FocusPane::CommitList,
        }
    }

    /// Whether the view can answer an event.
    pub fn accepts(&self, event_with_count: UserEventWithCount) -> (r: bool)
        requires
            self.wf(),
        ensures
            r == can_answer(self@, event_with_count.event, event_with_count.count as int),
    {
        let e = event_with_count.event;
        let l = match &self.commit_list_state {
            Some(l) => l,
            None => return false,
        };
        let c = l.cursor();
        let sums = c.offset <= usize::MAX - c.selected;
        let on_item = sums && c.current() < c.total;
        if self.focus_pane == FocusPane::Sidebar {
            return e != UserEvent::Refresh || on_item;
        }
        match l.search_state() {
            SearchState::Searching { start_index, .. } => {
                proof {
                    l.sizes_agree();
                }
                return e == UserEvent::Confirm || e == UserEvent::Cancel || (l.is_searchable()
                    && start_index < c.total);
            },
            _ => {},
        }
        match event_move(e) {
            Some(m) => return l.can_repeat(m, event_with_count.count),
            None => {},
        }
        match e {
            UserEvent::GoToBottom | UserEvent::SelectBottom => c.total > 0 && c.height > 0,
            UserEvent::ShortCopy => on_item && text::chars_in_bytes(
                l.selected_commit_hash().as_str(),
                git::SHORT_HASH_BYTES,
            ).is_some(),
            UserEvent::FullCopy | UserEvent::Refresh => on_item,
            UserEvent::Search => sums,
            UserEvent::GoToNext | UserEvent::GoToPrevious => match l.search_state() {
                SearchState::Applied { .. } => on_item,
                _ => true,
            },
            _ => true,
        }
    }

    /// Answers what the user asks for.
    pub fn handle_event(&mut self, event_with_count: UserEventWithCount, key: Key) -> (r: Option<
        AppEvent,
    >)
        requires
            old(self).wf(),
            can_answer(old(self)@, event_with_count.event, event_with_count.count as int),
        ensures
            final(self).wf(),
            answers(
                old(self)@,
                event_with_count.event,
                event_with_count.count as int,
                key,
                final(self)@,
                event::opt_event(r),
            ),
    {
        let event = event_with_count.event;
        let count = event_with_count.count;
        let ghost before = self@;
        if self.focus_pane == FocusPane::Sidebar {
            return self.handle_sidebar_event(event, count);
        }
        let searching = match self.as_list_state().search_state() {
            SearchState::Searching { .. } => true,
            _ => false,
        };
        if !searching {
            if event == UserEvent::RefList {
                self.focus_pane = FocusPane::Sidebar;
                return None;
            }
            if event == UserEvent::Refresh {
                return Some(self.refresh());
            }
        }
        let mut taken: Option<CommitListState<'a>> = None;
        std::mem::swap(&mut taken, &mut self.commit_list_state);
        let mut list = taken.unwrap();
        let r = if searching {
            search_event(&mut list, event, key)
        } else {
            list_event(&mut list, event, count)
        };
        self.commit_list_state = Some(list);
        assert(self@ == before.with_list(self@.list->0));
        r
    }

    pub fn take_list_state(&mut self) -> (r: CommitListState<'a>)
        requires
            old(self).wf(),
            old(self)@.list is Some,
        ensures
            final(self).wf(),
            r.wf(),
            r@ == old(self)@.list->0,
            final(self)@ == (ListViewState { list: None, ..old(self)@ }),
    {
        let mut taken: Option<CommitListState<'a>> = None;
        std::mem::swap(&mut taken, &mut self.commit_list_state);
        taken.unwrap()
    }

    /// The list of commits, where the view still has it.
    pub fn list_state(&self) -> (r: Option<&CommitListState<'a>>)
        requires
            self.wf(),
        ensures
            match r {
                Some(l) => l.wf() && self@.list == Some(l@),
                None => self@.list is None,
            },
    {
        self.commit_list_state.as_ref()
    }

    /// The list of commits, where the view still has it, of a view that is to go.
    pub fn into_list_state(self) -> (r: Option<CommitListState<'a>>)
        requires
            self.wf(),
        ensures
            match r {
                Some(l) => l.wf() && self@.list == Some(l@),
                None => self@.list is None,
            },
    {
        self.commit_list_state
    }

    pub fn as_list_state(&self) -> (r: &CommitListState<'a>)
        requires
            self.wf(),
            self@.list is Some,
        ensures
            r.wf(),
            r@ == self@.list->0,
    {
        self.commit_list_state.as_ref().unwrap()
    }

    /// The commits, to be changed.
    pub fn as_mut_list_state(&mut self) -> (r: &mut CommitListState<'a>)
        requires
            old(self).wf(),
            old(self)@.list is Some,
        ensures
            r.wf(),
            r@ == old(self)@.list->0,
            final(self)@ == old(self)@.with_list(final(r)@),
            final(r).wf() ==> final(self).wf(),
    {
        self.commit_list_state.as_mut().unwrap()
    }

    /// The tree of the references, to be drawn.
    pub fn as_mut_ref_list_state(&mut self) -> (r: &mut RefListState)
        requires
            old(self).wf(),
        ensures
            r@ == old(self)@.tree,
            final(self)@ == (ListViewState { tree: final(r)@, ..old(self)@ }),
            final(self).wf(),
    {
        &mut self.ref_list_state
    }

    pub fn refs(&self) -> (r: &Vec<Ref>)
        ensures
            git::ref_views(r@) == self@.refs,
    {
        &self.refs
    }

    pub fn focus_pane(&self) -> (r: FocusPane)
        ensures
            r == self@.focus,
    {
        self.focus_pane
    }

    /// Asks for a refresh that keeps the view.
    pub fn refresh(&self) -> (r: AppEvent)
        requires
            self.wf(),
            self@.list is Some,
            (self@.list->0).cursor.on_item(),
        ensures
            asks_refresh(self@, Some(r@)),
    {
        let list_context = ListRefreshViewContext::from_list(self.as_list_state());
        let (selected, opened) = self.ref_list_state.current_tree_status();
        let refs_context = RefsRefreshViewContext {
            selected,
            opened,
            focus_sidebar: self.focus_pane == FocusPane::Sidebar,
        };
        AppEvent::Refresh(RefreshViewContext::Refs { list_context, refs_context })
    }

    /// Selects the commit that was selected before a refresh, on the row on which it stood.
    pub fn reset_commit_list_with(&mut self, list_context: &ListRefreshViewContext)
        requires
            old(self).wf(),
            old(self)@.list is Some,
            list_context.scroll_to_top || Move::ScrollUp.repeatable(
                hash_selected(
                    (old(self)@.list->0).with_height(list_context.height),
                    list_context.commit_hash@,
                ),
                list_context.selected as int,
            ),
        ensures
            final(self).wf(),
            final(self)@ == old(self)@.with_list(list_reset(old(self)@.list->0, list_context@)),
    {
        let ghost before = self@;
        let mut taken: Option<CommitListState<'a>> = None;
        std::mem::swap(&mut taken, &mut self.commit_list_state);
        let mut list = taken.unwrap();
        list.reset_height(list_context.height);
        if list_context.scroll_to_top {
            list.select_first();
        } else {
            list.select_commit_hash(&CommitHash::from_text(list_context.commit_hash.as_str()));
            list.repeat(Move::ScrollUp, list_context.selected);
        }
        self.commit_list_state = Some(list);
        assert(self@ == before.with_list(self@.list->0));
    }

    /// Where the list will stand after a reset, where it can be scrolled there.
    pub fn place_after_reset(&self, list_context: &ListRefreshViewContext) -> (r: Option<Cursor>)
        requires
            self.wf(),
            self@.list is Some,
        ensures
            ({
                let l = self@.list->0;
                let can = list_context.scroll_to_top || Move::ScrollUp.repeatable(
                    hash_selected(l.with_height(list_context.height), list_context.commit_hash@),
                    list_context.selected as int,
                );
                match r {
                    Some(c) => can && l.moved(c) == list_reset(l, list_context@) && c.total
                        == l.cursor.total,
                    None => !can,
                }
            }),
    {
        let list = self.as_list_state();
        let ghost l = list@;
        let mut c = list.cursor();
        c.reset_height(list_context.height);
        assert(l.moved(c) == l.with_height(list_context.height));
        if list_context.scroll_to_top {
            c.select_first();
            return Some(c);
        }
        match list.place_of(list_context.commit_hash.as_str()) {
            Some(i) => {
                c.jump(i);
            },
            None => {},
        }
        assert(l.moved(c) == hash_selected(
            l.with_height(list_context.height),
            list_context.commit_hash@,
        ));
        list.place_after(c, Move::ScrollUp, list_context.selected)
    }

    /// Selects and opens the references that were selected and opened before a refresh, as far as
    /// they are there.
    pub fn reset_refs_with(&mut self, refs_context: RefsRefreshViewContext)
        requires
            old(self).wf(),
        ensures
            final(self).wf(),
            final(self)@ == refs_reset(old(self)@, refs_context@),
    {
        let focus_sidebar = refs_context.focus_sidebar;
        self.ref_list_state.reset_tree_status(
            self.refs.as_slice(),
            refs_context.selected,
            refs_context.opened,
        );
        self.focus_pane = if focus_sidebar {
            FocusPane::Sidebar
        } else {
            FocusPane::CommitList
        };
    }

    fn handle_sidebar_event(&mut self, event: UserEvent, count: usize) -> (r: Option<AppEvent>)
        requires
            old(self).wf(),
            old(self)@.list is Some,
            event == UserEvent::Refresh ==> (old(self)@.list->0).cursor.on_item(),
        ensures
            final(self).wf(),
            answers_sidebar(
                old(self)@,
                event,
                count as int,
                final(self)@,
                event::opt_event(r),
            ),
    {
        match event {
            UserEvent::Quit => Some(AppEvent::Quit),
            UserEvent::RefList | UserEvent::Cancel | UserEvent::Close => {
                self.focus_pane = FocusPane::CommitList;
                None
            },
            UserEvent::NavigateDown | UserEvent::SelectDown => {
                let ghost first = self@.tree;
                let mut i: usize = 0;
                while i < count
                    invariant
                        i <= count,
                        self.wf(),
                        self@ == (ListViewState { tree: first.down_by(i as int), ..old(self)@ }),
                    decreases count - i,
                {
                    self.ref_list_state.select_next();
                    i = i + 1;
                }
                self.update_commit_list_selected();
                None
            },
            UserEvent::NavigateUp | UserEvent::SelectUp => {
                let ghost first = self@.tree;
                let mut i: usize = 0;
                while i < count
                    invariant
                        i <= count,
                        self.wf(),
                        self@ == (ListViewState { tree: first.up_by(i as int), ..old(self)@ }),
                    decreases count - i,
                {
                    self.ref_list_state.select_prev();
                    i = i + 1;
                }
                self.update_commit_list_selected();
                None
            },
            UserEvent::GoToTop => {
                self.ref_list_state.select_first();
                self.update_commit_list_selected();
                None
            },
            UserEvent::GoToBottom => {
                self.ref_list_state.select_last();
                self.update_commit_list_selected();
                None
            },
            UserEvent::NavigateRight => {
                self.ref_list_state.open_node();
                self.update_commit_list_selected();
                None
            },
            UserEvent::NavigateLeft => {
                self.ref_list_state.close_node();
                self.update_commit_list_selected();
                None
            },
            UserEvent::ShortCopy | UserEvent::FullCopy => self.copy_ref_name(),
            UserEvent::OpenStatus => Some(AppEvent::OpenStatus),
            UserEvent::HelpToggle => Some(AppEvent::OpenHelp),
            UserEvent::Refresh => Some(self.refresh()),
            _ => None,
        }
    }

    /// Selects the commit of the selected reference.
    fn update_commit_list_selected(&mut self)
        requires
            old(self).wf(),
            old(self)@.list is Some,
        ensures
            final(self).wf(),
            final(self)@ == old(self)@.following(old(self)@.tree),
    {
        match self.ref_list_state.selected_ref_name() {
            Some(selected) => {
                let ghost before = self@;
                let mut taken: Option<CommitListState<'a>> = None;
                std::mem::swap(&mut taken, &mut self.commit_list_state);
                let mut list = taken.unwrap();
                list.select_ref(selected.as_str());
                self.commit_list_state = Some(list);
                assert(self@ == before.following(before.tree));
            },
            None => {},
        }
    }

    fn copy_ref_name(&self) -> (r: Option<AppEvent>)
        ensures
            event::opt_event(r) == (if ref_list::branch_at(self@.tree.selected) is Some {
                copy_of("Branch Name"@, ref_list::branch_at(self@.tree.selected)->0)
            } else if ref_list::tag_at(self@.tree.selected) is Some {
                copy_of("Tag Name"@, ref_list::tag_at(self@.tree.selected)->0)
            } else {
                None
            }),
    {
        match self.ref_list_state.selected_branch() {
            Some(selected) => Some(copy_to_clipboard("Branch Name", selected.as_str())),
            None => match self.ref_list_state.selected_tag() {
                Some(selected) => Some(copy_to_clipboard("Tag Name", selected.as_str())),
                None => None,
            },
        }
    }
}

/// An answer leaves the view its list, which is as long as before.
pub proof fn lists_stay(
    s: ListViewState,
    e: UserEvent,
    count: int,
    key: Key,
    t: ListViewState,
    sent: Option<event::AppEventView>,
)
    requires
        s.list is Some,
        answers(s, e, count, key, t, sent),
    ensures
        t.list is Some,
        (t.list->0).infos == (s.list->0).infos,
        t.refs == s.refs,
{
    let l = s.list->0;
    if move_for(e) is Some {
        (move_for(e)->0).repeating_moves_only(l, count);
    }
}

/// A window with rows can always be moved up.
pub proof fn tall_lists_scroll_up(l: commit_list::ListStateView, n: int)
    requires
        l.cursor.height > 0 || n <= 0,
    ensures
        Move::ScrollUp.repeatable(l, n),
        Move::ScrollUp.repeated(l, n).cursor.height == l.cursor.height,
    decreases n,
{
    if n > 0 {
        tall_lists_scroll_up(l, n - 1);
        assert forall|k: int| 0 <= k < n implies Move::ScrollUp.allowed(
            #[trigger] Move::ScrollUp.repeated(l, k),
        ) by {}
    }
}

proof fn scrolling_up_moves_by(l: commit_list::ListStateView, n: int)
    requires
        0 <= n <= l.cursor.offset,
        l.cursor.selected + n < l.cursor.height,
    ensures
        Move::ScrollUp.repeated(l, n) == l.moved(
            l.cursor.at(l.cursor.selected + n, l.cursor.offset - n),
        ),
    decreases n,
{
    if n > 0 {
        scrolling_up_moves_by(l, n - 1);
    }
}

proof fn scrolling_up_stops(l: commit_list::ListStateView, n: int)
    requires
        l.cursor.offset == 0,
    ensures
        Move::ScrollUp.repeated(l, n) == l,
    decreases n,
{
    if n > 0 {
        scrolling_up_stops(l, n - 1);
    }
}

/// A refresh that finds the same commits selects the same commit on the same row again.
pub proof fn refresh_keeps_the_place(
    before: commit_list::ListStateView,
    read_anew: commit_list::ListStateView,
)
    requires
        before.cursor.settled(),
        before.cursor.total == before.infos.len(),
        forall|i: int|
            0 <= i < before.cursor.index() ==> (#[trigger] before.infos[i]).commit.hash
                != before.selected().commit.hash,
        read_anew.infos == before.infos,
        read_anew.cursor.total == before.cursor.total,
        read_anew.cursor.selected == 0,
        read_anew.cursor.offset == 0,
    ensures
        list_reset(read_anew, context::context_of(before)).cursor == before.cursor,
{
    let c = context::context_of(before);
    let at = before.cursor.index();
    let tall = read_anew.with_height(c.height);
    if !c.scroll_to_top {
        assert(before.infos[at].commit.hash == c.commit_hash);
        commit_list::find_hash_finds(before.infos, c.commit_hash, 0, at);
        let found = hash_selected(tall, c.commit_hash);
        if before.cursor.total > before.cursor.height {
            scrolling_up_moves_by(found, c.selected as int);
        } else {
            scrolling_up_stops(found, c.selected as int);
        }
    }
}

/// A refresh that finds the same references selects and opens the same ones again.
pub proof fn refresh_keeps_the_references(
    before: ListViewState,
    c: context::RefsContextView,
    tree: ref_list::RefsState,
)
    requires
        keeps_refs(before, c),
        ref_list::valid_path(before.refs, before.tree.selected),
        forall|p: Seq<Seq<char>>| #[trigger]
            before.tree.opened.contains(p) ==> ref_list::valid_path(before.refs, p),
    ensures
        tree.reset_to(before.refs, c.selected, c.opened).selected == before.tree.selected,
        tree.reset_to(before.refs, c.selected, c.opened).opened == before.tree.opened,
{
    ref_list::reset_keeps_valid(before.refs, before.tree.selected);
    let after = tree.reset_to(before.refs, c.selected, c.opened).opened;
    assert forall|p: Seq<Seq<char>>| #[trigger] after.contains(p) <==> before.tree.opened.contains(
        p,
    ) by {
        assert(c.opened.to_set().contains(p) == c.opened.contains(p));
    }
    assert(after =~= before.tree.opened);
}

// ---------------------------------------------------------------------------------------------
// What the user gets

/// Whether the commits have the focus and no query is typed.
pub open spec fn is_browsing(s: ListViewState) -> bool {
    s.list matches Some(l) && s.focus == FocusPane::CommitList && !(l.search_state is Searching)
}

/// Whether the list is one whose window is settled, with as many matches as commits.
pub open spec fn is_settled(l: commit_list::ListStateView) -> bool {
    &&& l.cursor.settled()
    &&& l.cursor.total == l.infos.len()
    &&& l.matches.len() == l.infos.len()
    &&& l.cursor.total <= l.cursor.height ==> l.cursor.offset == 0
}

proof fn matches_are_jumped_to(l: commit_list::ListStateView, i: int)
    requires
        is_settled(l),
        0 <= i < l.infos.len(),
    ensures
        l.cursor.to(i).index() == i,
{
}

/// While a query is typed, a character goes to the end of it, and the first commit that is found by the
/// query, from where the search began and going round, is selected. Where none is, the selection stays.
pub proof fn typing_selects_what_is_found(
    s: ListViewState,
    c: char,
    key: Key,
    t: ListViewState,
    sent: Option<event::AppEventView>,
    start: int,
    ignore_case: bool,
    fuzzy: bool,
)
    requires
        s.list matches Some(l) && is_settled(l) && commit_list::searchable(l.infos)
            && l.input.caret == l.input.typed.len() && (l.search_state matches SearchState::Searching {
            start_index,
            ignore_case: ic,
            fuzzy: fz,
            ..
        } && start_index == start && ic == ignore_case && fz == fuzzy),
        0 <= start < (s.list->0).infos.len(),
        s.focus == FocusPane::CommitList,
        key.code == event::KeyCode::Char(c),
        key.modifiers.numbered() <= 1,
        key.kind != event::KeyKind::Release,
        answers(s, UserEvent::Unknown, 1, key, t, sent),
    ensures
        t.list matches Some(m) && ({
            let l = s.list->0;
            let query = l.input.typed.push(c);
            let is_hit = |i: int| commit_list::finds_commit(query, ignore_case, fuzzy, l.infos[i]);
            &&& m.input.typed == query
            &&& m.infos == l.infos
            &&& m.search_state is Searching
            &&& (forall|i: int| 0 <= i < l.infos.len() ==> !#[trigger] is_hit(i)) ==> m.cursor
                == l.cursor
            &&& (exists|i: int| 0 <= i < l.infos.len() && #[trigger] is_hit(i)) ==> {
                let at = m.cursor.index();
                &&& 0 <= at < l.infos.len()
                &&& is_hit(at)
                &&& at >= start ==> forall|j: int| start <= j < at ==> !#[trigger] is_hit(j)
                &&& at < start ==> forall|j: int|
                    start <= j < l.infos.len() || 0 <= j < at ==> !#[trigger] is_hit(j)
            }
            &&& sent matches Some(event::AppEventView::UpdateStatusInput(line, _, None)) && line
                == "/"@ + query
        }),
{
    let l = s.list->0;
    let query = l.input.typed.push(c);
    let is_hit = |i: int| commit_list::finds_commit(query, ignore_case, fuzzy, l.infos[i]);
    input::typing_appends(l.input, c, key);
    let m = commit_list::found(l.infos, query, ignore_case, fuzzy);
    assert forall|i: int| 0 <= i < l.infos.len() implies (#[trigger] m[i]).matched() == is_hit(i) by {
        commit_list::found_commits_match(l.infos, query, ignore_case, fuzzy, i);
    }
    let u = t.list->0;
    assert(u.matches == m);
    if !m[start].matched() {
        commit_list::next_match_misses_none(m, start);
        match commit_list::next_match(m, start) {
            Some(to) => {
                commit_list::next_match_comes_next(m, start, to);
                matches_are_jumped_to(l, to);
                assert(u.cursor.index() == to);
                assert(is_hit(to));
                assert forall|j: int| 0 <= j < l.infos.len() && !m[j].matched() implies !#[trigger] is_hit(
                    j,
                ) by {}
            },
            None => {
                assert forall|i: int| 0 <= i < l.infos.len() implies !#[trigger] is_hit(i) by {
                    assert(!m[i].matched());
                }
            },
        }
    } else {
        matches_are_jumped_to(l, start);
        assert(is_hit(start));
    }
}

/// A search begins with an empty query where the selection stands, with no commit matching, as the user
/// has set whether the case counts and whether it is fuzzy.
pub proof fn searches_begin(s: ListViewState, key: Key, t: ListViewState, sent: Option<event::AppEventView>)
    requires
        is_browsing(s),
        is_settled(s.list->0),
        answers(s, UserEvent::Search, 1, key, t, sent),
    ensures
        t.list matches Some(m) && ({
            let l = s.list->0;
            &&& m.input.typed.len() == 0
            &&& m.cursor == l.cursor
            &&& m.infos == l.infos
            &&& m.search_state matches SearchState::Searching {
                start_index,
                ignore_case,
                fuzzy,
                ..
            } && start_index == l.cursor.index() && ignore_case == l.default_ignore_case && fuzzy
                == l.default_fuzzy
            &&& forall|i: int| 0 <= i < m.matches.len() ==> !(#[trigger] m.matches[i]).matched()
            &&& sent matches Some(event::AppEventView::UpdateStatusInput(line, _, None)) && line
                == "/"@
        }),
{
    let l = s.list->0;
    l.cursor.settled_is_on_item();
    let m = t.list->0;
    assert(m.input.typed =~= Seq::<char>::empty());
    assert("/"@ + m.input.typed =~= "/"@);
    assert forall|i: int| 0 <= i < m.matches.len() implies !(#[trigger] m.matches[i]).matched() by {
        assert(m.matches[i] == l.matches[i].cleared());
        assert(Map::<Seq<char>, Seq<usize>>::empty().dom() =~= Set::<Seq<char>>::empty());
    }
}

/// A query that is confirmed keeps the selection, and it is said which of how many matching commits is
/// selected. An empty query ends the search.
pub proof fn searches_are_confirmed(
    s: ListViewState,
    key: Key,
    t: ListViewState,
    sent: Option<event::AppEventView>,
)
    requires
        s.list matches Some(l) && l.search_state is Searching && l.matches.len() <= usize::MAX,
        s.focus == FocusPane::CommitList,
        answers(s, UserEvent::Confirm, 1, key, t, sent),
    ensures
        t.list matches Some(m) && ({
            let l = s.list->0;
            let total = l.matches.filter(|x: crate::widget::search::SearchMatchView| x.matched()).len();
            let at = l.search_state->Searching_match_index;
            &&& m.cursor == l.cursor
            &&& m.matches == l.matches
            &&& l.input.typed.len() == 0 ==> m.search_state is Inactive && sent == Some(
                event::AppEventView::ClearStatusLine,
            )
            &&& l.input.typed.len() > 0 ==> m.search_state is Applied
            &&& l.input.typed.len() > 0 && total > 0 ==> sent == Some(
                event::AppEventView::NotifyInfo(
                    "Match "@ + crate::numerals::decimal(at as nat) + " of "@
                        + crate::numerals::decimal(total) + " (query: \""@ + l.input.typed
                        + "\")"@,
                ),
            )
            &&& l.input.typed.len() > 0 && total == 0 ==> sent == Some(
                event::AppEventView::NotifyWarn(
                    "No matches found (query: \""@ + l.input.typed + "\")"@,
                ),
            )
        }),
{
    let l = s.list->0;
    let n = l.matches.len() as int;
    commit_list::matches_are_counted(l.matches, n);
    assert(l.matches.take(n) =~= l.matches);
    let keep = |x: crate::widget::search::SearchMatchView| x.matched();
    l.matches.lemma_filter_len(keep);
}

/// A search that is cancelled is over: no commit matches, nothing is typed, and the selection stays.
pub proof fn searches_are_cancelled(
    s: ListViewState,
    key: Key,
    t: ListViewState,
    sent: Option<event::AppEventView>,
)
    requires
        s.list matches Some(l) && !(l.search_state is Inactive),
        s.focus == FocusPane::CommitList,
        answers(s, UserEvent::Cancel, 1, key, t, sent),
    ensures
        t.list matches Some(m) && {
            &&& m.search_state is Inactive
            &&& m.cursor == (s.list->0).cursor
            &&& m.input.typed.len() == 0
            &&& forall|i: int| 0 <= i < m.matches.len() ==> !(#[trigger] m.matches[i]).matched()
        },
        sent == Some(event::AppEventView::ClearStatusLine),
{
    let l = s.list->0;
    let m = t.list->0;
    assert forall|i: int| 0 <= i < m.matches.len() implies !(#[trigger] m.matches[i]).matched() by {
        assert(m.matches[i] == l.matches[i].cleared());
        assert(Map::<Seq<char>, Seq<usize>>::empty().dom() =~= Set::<Seq<char>>::empty());
    }
}

/// The toggles change whether the case counts and whether the search is fuzzy, each alone, and say so;
/// the query stays, and is searched anew.
pub proof fn searches_are_toggled(
    s: ListViewState,
    key: Key,
    t: ListViewState,
    sent: Option<event::AppEventView>,
    u: ListViewState,
    said: Option<event::AppEventView>,
)
    requires
        s.list matches Some(l) && l.search_state is Searching,
        s.focus == FocusPane::CommitList,
        answers(s, UserEvent::IgnoreCaseToggle, 1, key, t, sent),
        answers(s, UserEvent::FuzzyToggle, 1, key, u, said),
    ensures
        ({
            let l = s.list->0;
            let ignore_case = l.search_state->Searching_ignore_case;
            let fuzzy = l.search_state->Searching_fuzzy;
            &&& t.list matches Some(m) && m.input == l.input && m.matches == commit_list::found(
                l.infos,
                l.input.typed,
                !ignore_case,
                fuzzy,
            ) && (m.search_state matches SearchState::Searching { ignore_case: ic, fuzzy: fz, .. }
                && ic == !ignore_case && fz == fuzzy)
            &&& u.list matches Some(m) && m.input == l.input && m.matches == commit_list::found(
                l.infos,
                l.input.typed,
                ignore_case,
                !fuzzy,
            ) && (m.search_state matches SearchState::Searching { ignore_case: ic, fuzzy: fz, .. }
                && ic == ignore_case && fz == !fuzzy)
            &&& sent matches Some(event::AppEventView::UpdateStatusInput(_, _, Some(m))) && m
                == (if ignore_case {
                "Ignore case: OFF"@
            } else {
                "Ignore case: ON "@
            })
            &&& said matches Some(event::AppEventView::UpdateStatusInput(_, _, Some(m))) && m
                == (if fuzzy {
                "Fuzzy match: OFF"@
            } else {
                "Fuzzy match: ON "@
            })
        }),
{
}

/// From a place in an applied search, going on selects the first matching commit behind it, and going
/// back the last one before it, both going round; it is said which match that is.
pub proof fn matches_are_stepped_through(
    s: ListViewState,
    key: Key,
    t: ListViewState,
    sent: Option<event::AppEventView>,
    u: ListViewState,
    said: Option<event::AppEventView>,
)
    requires
        is_browsing(s),
        is_settled(s.list->0),
        (s.list->0).search_state is Applied,
        answers(s, UserEvent::GoToNext, 1, key, t, sent),
        answers(s, UserEvent::GoToPrevious, 1, key, u, said),
    ensures
        t.list is Some && u.list is Some,
        ({
            let l = s.list->0;
            let at = l.cursor.index();
            let m = l.matches;
            let to = (t.list->0).cursor.index();
            let back = (u.list->0).cursor.index();
            &&& (exists|i: int| 0 <= i < m.len() && i != at && (#[trigger] m[i]).matched()) ==> {
                &&& 0 <= to < m.len() && to != at && m[to].matched()
                &&& to > at ==> forall|j: int| at < j < to ==> !(#[trigger] m[j]).matched()
                &&& to < at ==> forall|j: int|
                    at < j < m.len() || 0 <= j < to ==> !(#[trigger] m[j]).matched()
                &&& 0 <= back < m.len() && back != at && m[back].matched()
                &&& back < at ==> forall|j: int| back < j < at ==> !(#[trigger] m[j]).matched()
                &&& back > at ==> forall|j: int|
                    0 <= j < at || back < j < m.len() ==> !(#[trigger] m[j]).matched()
                &&& (t.list->0).search_state matches SearchState::Applied { match_index, .. }
                    && match_index == m[to].match_index as usize
            }
            &&& (forall|i: int| 0 <= i < m.len() && i != at ==> !(#[trigger] m[i]).matched()) ==> to
                == at && back == at
        }),
{
    let l = s.list->0;
    let m = l.matches;
    let at = l.cursor.index();
    l.cursor.settled_is_on_item();
    commit_list::next_match_misses_none(m, at);
    commit_list::prev_match_misses_none(m, at);
    match commit_list::next_match(m, at) {
        Some(to) => {
            commit_list::next_match_comes_next(m, at, to);
            matches_are_jumped_to(l, to);
        },
        None => {},
    }
    match commit_list::prev_match(m, at) {
        Some(to) => {
            commit_list::previous_match_comes_before(m, at, to);
            matches_are_jumped_to(l, to);
        },
        None => {},
    }
}

proof fn repeats_go_by(l: commit_list::ListStateView, m: Move, n: int)
    requires
        is_settled(l),
        n >= 0,
        m == Move::Next || m == Move::Prev,
    ensures
        is_settled(m.repeated(l, n)),
        m.repeated(l, n).cursor.height == l.cursor.height,
        m.repeated(l, n).cursor.total == l.cursor.total,
        m.repeated(l, n).infos == l.infos,
        m == Move::Next ==> m.repeated(l, n).cursor.index() == if l.cursor.index() + n
            < l.cursor.total {
            l.cursor.index() + n
        } else {
            l.cursor.total - 1
        },
        m == Move::Prev ==> m.repeated(l, n).cursor.index() == if l.cursor.index() >= n {
            l.cursor.index() - n
        } else {
            0
        },
    decreases n,
{
    l.cursor.settled_is_on_item();
    if n > 0 {
        repeats_go_by(l, m, n - 1);
        let t = m.repeated(l, n - 1);
        t.cursor.steps_are_single();
        t.cursor.moves_keep_settled(0);
    }
}

/// Going down and up selects the commit that stands so many further on or back, up to the last and the
/// first. The top, the bottom and the page keys lead where they say.
pub proof fn moves_select_commits(
    s: ListViewState,
    e: UserEvent,
    count: int,
    key: Key,
    t: ListViewState,
    sent: Option<event::AppEventView>,
)
    requires
        is_browsing(s),
        is_settled(s.list->0),
        count >= 1,
        answers(s, e, count, key, t, sent),
    ensures
        ({
            let c = (s.list->0).cursor;
            let at = c.index();
            let last = c.total - 1;
            let to = (t.list->0).cursor.index();
            let down = |n: int|
                if at + n < last {
                    at + n
                } else {
                    last
                };
            let up = |n: int|
                if at > n {
                    at - n
                } else {
                    0
                };
            &&& t.list is Some
            &&& (t.list->0).infos == (s.list->0).infos
            &&& e == UserEvent::NavigateDown || e == UserEvent::SelectDown ==> to == down(count)
            &&& e == UserEvent::NavigateUp || e == UserEvent::SelectUp ==> to == up(count)
            &&& e == UserEvent::GoToTop ==> to == 0
            &&& e == UserEvent::GoToBottom ==> to == last
            &&& e == UserEvent::PageDown && count == 1 ==> to == down(c.height as int)
            &&& e == UserEvent::PageUp && count == 1 ==> to == up(c.height as int)
            &&& e == UserEvent::HalfPageDown && count == 1 ==> to == down(c.height as int / 2)
            &&& e == UserEvent::HalfPageUp && count == 1 ==> to == up(c.height as int / 2)
            &&& e == UserEvent::SelectTop ==> to == c.offset
            &&& e == UserEvent::SelectMiddle ==> to == c.offset + c.rows() / 2
            &&& e == UserEvent::SelectBottom ==> to == c.offset + c.rows() - 1
            &&& e == UserEvent::ScrollDown && count == 1 && c.offset + c.height < c.total ==> (
            t.list->0).cursor.offset == c.offset + 1
            &&& e == UserEvent::ScrollUp && count == 1 && c.offset > 0 ==> (t.list->0).cursor.offset
                == c.offset - 1
        }),
{
    let l = s.list->0;
    let c = l.cursor;
    c.settled_is_on_item();
    c.ends_are_reached();
    if e == UserEvent::NavigateDown || e == UserEvent::SelectDown {
        repeats_go_by(l, Move::Next, count);
    } else if e == UserEvent::NavigateUp || e == UserEvent::SelectUp {
        repeats_go_by(l, Move::Prev, count);
    } else if move_for(e) is Some {
        let m = move_for(e)->0;
        m.repeating_moves_only(l, count);
        c.scrolling_moves_by(c.height as int);
        c.scrolling_moves_by(c.height as int / 2);
        if count == 1 {
            reveal_with_fuel(Move::repeated, 2);
            assert(m.repeated(l, 1) == l.moved(m.target(l)));
        }
    }
}

/// Going to the parent selects the commit whose hash the selected one gives as its first parent, where
/// it stands further on in the list.
pub proof fn parents_are_selected(
    s: ListViewState,
    key: Key,
    t: ListViewState,
    sent: Option<event::AppEventView>,
    parent: int,
)
    requires
        is_browsing(s),
        is_settled(s.list->0),
        answers(s, UserEvent::GoToParent, 1, key, t, sent),
        (s.list->0).cursor.index() < parent < (s.list->0).infos.len(),
        (s.list->0).selected().commit.parents.len() > 0,
        (s.list->0).infos[parent].commit.hash == (s.list->0).selected().commit.parents[0],
    ensures
        t.list is Some,
        (t.list->0).selected().commit.hash == (s.list->0).selected().commit.parents[0],
{
    let l = s.list->0;
    let c = l.cursor;
    let hash = l.selected().commit.parents[0];
    reveal_with_fuel(Move::repeated, 2);
    commit_list::find_hash_finds(l.infos, hash, c.index(), parent);
    let to = commit_list::find_hash(l.infos, hash, c.index());
    commit_list::steps_move(c, to - c.index());
    assert(Move::Parent.repeated(l, 1) == l.moved(Move::Parent.target(l)));
}

/// A commit without parents stays selected when the parent is asked for.
pub proof fn roots_stay_selected(
    s: ListViewState,
    key: Key,
    t: ListViewState,
    sent: Option<event::AppEventView>,
)
    requires
        is_browsing(s),
        answers(s, UserEvent::GoToParent, 1, key, t, sent),
        (s.list->0).selected().commit.parents.len() == 0,
    ensures
        t == s,
{
    let l = s.list->0;
    reveal_with_fuel(Move::repeated, 2);
    assert(Move::Parent.repeated(l, 1) == l.moved(Move::Parent.target(l)));
    assert(l.moved(l.cursor) == l);
}

/// The hash of the selected commit is copied, whole or its first seven bytes.
pub proof fn hashes_are_copied(
    s: ListViewState,
    key: Key,
    t: ListViewState,
    short: Option<event::AppEventView>,
    full: Option<event::AppEventView>,
    k: int,
)
    requires
        is_browsing(s),
        answers(s, UserEvent::ShortCopy, 1, key, t, short),
        answers(s, UserEvent::FullCopy, 1, key, t, full),
        0 <= k <= (s.list->0).selected().commit.hash.len(),
        text::byte_count((s.list->0).selected().commit.hash.take(k)) == 7,
    ensures
        t == s,
        full matches Some(event::AppEventView::CopyToClipboard { value, .. }) && value == (
        s.list->0).selected().commit.hash,
        short matches Some(event::AppEventView::CopyToClipboard { value, .. }) && value == (
        s.list->0).selected().commit.hash.take(k),
{
    text::chars_for_is((s.list->0).selected().commit.hash, 7, k);
}

/// What the user asks for beside the commits is asked of the program, each by its own event, and the
/// view stays as it is.
pub proof fn requests_are_passed_on(
    s: ListViewState,
    e: UserEvent,
    count: int,
    key: Key,
    t: ListViewState,
    sent: Option<event::AppEventView>,
)
    requires
        is_browsing(s),
        answers(s, e, count, key, t, sent),
    ensures
        e == UserEvent::Quit ==> t == s && sent == Some(event::AppEventView::Quit),
        e == UserEvent::Confirm ==> t == s && sent == Some(event::AppEventView::OpenDetail),
        e == UserEvent::HelpToggle ==> t == s && sent == Some(event::AppEventView::OpenHelp),
        e == UserEvent::OpenStatus ==> t == s && sent == Some(event::AppEventView::OpenStatus),
        e == UserEvent::ActionMenu ==> t == s && sent == Some(event::AppEventView::OpenActionMenu),
        e == UserEvent::CreateBranch ==> t == s && sent == Some(
            event::AppEventView::OpenCreateBranchPrompt,
        ),
        e == UserEvent::SwitchBranch ==> t == s && sent == Some(
            event::AppEventView::OpenSwitchBranchPrompt,
        ),
        e == UserEvent::SetBase ==> t == s && sent == Some(event::AppEventView::OpenSetBasePrompt),
        e == UserEvent::SetBranchPrefix ==> t == s && sent == Some(
            event::AppEventView::OpenSetBranchPrefixPrompt,
        ),
        e == UserEvent::PushCurrent ==> t == s && sent == Some(
            event::AppEventView::PushCurrentBranch,
        ),
        e == UserEvent::MergeBase ==> t == s && sent == Some(
            event::AppEventView::MergeBaseIntoCurrent,
        ),
        e == UserEvent::InstallHook ==> t == s && sent == Some(event::AppEventView::InstallHook),
        e matches UserEvent::UserCommand(n) ==> t == s && sent == Some(
            event::AppEventView::OpenUserCommand(n),
        ),
        e == UserEvent::RefList ==> t.focus == FocusPane::Sidebar && t.list == s.list && t.tree
            == s.tree && sent is None,
{
}

/// Beside the references, the commit that the selected branch or tag stands for is selected with it.
/// Leaving them gives the focus back to the commits.
pub proof fn references_lead_to_commits(
    s: ListViewState,
    e: UserEvent,
    count: int,
    key: Key,
    t: ListViewState,
    sent: Option<event::AppEventView>,
    name: Seq<char>,
)
    requires
        s.focus == FocusPane::Sidebar,
        s.list matches Some(l) && is_settled(l),
        answers(s, e, count, key, t, sent),
    ensures
        e == UserEvent::Cancel || e == UserEvent::Close || e == UserEvent::RefList ==> t.focus
            == FocusPane::CommitList && t.list == s.list && t.tree == s.tree,
        e == UserEvent::NavigateDown || e == UserEvent::NavigateUp || e == UserEvent::GoToTop || e
            == UserEvent::GoToBottom || e == UserEvent::NavigateLeft || e == UserEvent::NavigateRight
            ==> {
            &&& t.focus == FocusPane::Sidebar
            &&& t.list is Some
            &&& ref_list::selected_name(t.tree.selected) == Some(name) && (
            s.list->0).ref_index.contains_key(name) && (s.list->0).ref_index[name] < (
            s.list->0).infos.len() ==> (t.list->0).cursor.index() == (s.list->0).ref_index[name]
            &&& ref_list::selected_name(t.tree.selected) is None ==> t.list == s.list
        },
        e == UserEvent::GoToTop ==> t.tree == s.tree.first(),
        e == UserEvent::GoToBottom ==> t.tree == s.tree.last(),
        e == UserEvent::NavigateRight ==> t.tree == s.tree.unfolded(),
        e == UserEvent::NavigateLeft ==> t.tree == s.tree.folded(),
{
    let l = s.list->0;
    if (s.list->0).ref_index.contains_key(name) && (s.list->0).ref_index[name] < l.infos.len() {
        matches_are_jumped_to(l, l.ref_index[name] as int);
    }
}

} // verus!
