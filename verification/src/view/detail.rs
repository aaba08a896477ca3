//! The details of a commit under the commits.

use vstd::prelude::*;
use vstd::string::*;
use crate::decode;
use crate::event;
use crate::event::{AppEvent, UserEvent, UserEventWithCount};
use crate::git;
use crate::git::changes;
use crate::git::changes::FileChange;
use crate::git::{Commit, CommitHash, Head, Ref, Repository};
use crate::names;
use crate::text;
use crate::view::context;
use crate::view::context::{ListRefreshViewContext, RefreshViewContext, RefsRefreshViewContext};
use crate::view::list;
use crate::widget::commit_detail::CommitDetailState;
use crate::widget::commit_list;
use crate::widget::commit_list::CommitListState;
use crate::widget::commit_moves::Move;
use crate::widget::ref_list;
use crate::widget::ref_list::RefListState;

verus! {

/// The view of a commit's details.
#[derive(Debug)]
pub struct DetailView<'a> {
    commit_list_state: Option<CommitListState<'a>>,
    commit_detail_state: CommitDetailState,
    commit: Commit,
    changes: Vec<FileChange>,
    commit_refs: Vec<Ref>,
    all_refs: Vec<Ref>,
    ref_list_state: RefListState,
    refs_context: Option<RefsRefreshViewContext>,
}

/// What the view of a commit's details shows.
pub ghost struct DetailViewState {
    pub list: Option<commit_list::ListStateView>,
    pub detail: CommitDetailState,
    pub commit: git::CommitView,
    pub changes: Seq<changes::FileChangeView>,
    pub commit_refs: Seq<git::RefView>,
    pub all_refs: Seq<git::RefView>,
    pub tree: ref_list::RefsState,
    pub refs_context: Option<context::RefsContextView>,
}

/// The view of a commit as it is opened: the references look as they did before, or the branch that
/// is checked out is selected among them.
pub open spec fn opened(
    l: commit_list::ListStateView,
    commit: git::CommitView,
    changes: Seq<changes::FileChangeView>,
    commit_refs: Seq<git::RefView>,
    all_refs: Seq<git::RefView>,
    refs_context: Option<context::RefsContextView>,
) -> DetailViewState {
    DetailViewState {
        list: Some(l),
        detail: CommitDetailState { height: 0, offset: 0 },
        commit,
        changes,
        commit_refs,
        all_refs,
        tree: match (refs_context, l.head) {
            (Some(c), _) => ref_list::fresh().reset_to(all_refs, c.selected, c.opened),
            (None, git::HeadView::Branch { name }) => ref_list::fresh().on_branch(name),
            (None, _) => ref_list::fresh(),
        },
        refs_context,
    }
}

/// How the view answers an event: its state afterwards, and what it sends.
pub open spec fn answer(s: DetailViewState, e: UserEvent, count: int) -> (
    DetailViewState,
    Option<event::AppEventView>,
) {
    let d = s.detail;
    let half = d.height as int / 2;
    let scrolled = |d: CommitDetailState| (DetailViewState { detail: d, ..s }, None);
    let asked = |e: event::AppEventView| (s, Some(e));
    match e {
        UserEvent::NavigateDown => scrolled(d.down_by(count, 1)),
        UserEvent::NavigateUp => scrolled(d.up_by(count, 1)),
        UserEvent::PageDown => scrolled(d.down_by(count, d.height as int)),
        UserEvent::PageUp => scrolled(d.up_by(count, d.height as int)),
        UserEvent::HalfPageDown => scrolled(d.down_by(count, half)),
        UserEvent::HalfPageUp => scrolled(d.up_by(count, half)),
        UserEvent::GoToTop => scrolled(CommitDetailState { offset: 0, ..d }),
        UserEvent::GoToBottom => scrolled(CommitDetailState { offset: usize::MAX, ..d }),
        UserEvent::SelectDown => asked(event::AppEventView::SelectOlderCommit),
        UserEvent::SelectUp => asked(event::AppEventView::SelectNewerCommit),
        UserEvent::GoToParent => asked(event::AppEventView::SelectParentCommit),
        UserEvent::ShortCopy => (
            s,
            list::copy_of("Commit SHA (short)"@, git::short_hash(s.commit.hash)),
        ),
        UserEvent::FullCopy => (s, list::copy_of("Commit SHA"@, s.commit.hash)),
        UserEvent::UserCommand(n) => asked(event::AppEventView::OpenUserCommand(n)),
        UserEvent::OpenStatus => asked(event::AppEventView::OpenStatus),
        UserEvent::HelpToggle => asked(event::AppEventView::OpenHelp),
        UserEvent::Confirm | UserEvent::Cancel | UserEvent::Close => asked(
            event::AppEventView::CloseDetail,
        ),
        UserEvent::Refresh => asked(refresh_event(s)),
        _ => (s, None),
    }
}

/// What is sent for a refresh.
pub open spec fn refresh_event(s: DetailViewState) -> event::AppEventView {
    event::AppEventView::Refresh(
        context::RefreshView::Detail {
            list_context: context::context_of(s.list->0),
            refs_context: s.refs_context,
        },
    )
}

/// Whether the view can answer an event: what the event asks for is there.
pub open spec fn can_answer(s: DetailViewState, e: UserEvent) -> bool {
    match e {
        UserEvent::ShortCopy => text::splits_at(s.commit.hash, git::SHORT_HASH_BYTES as nat),
        UserEvent::Refresh => s.list is Some && (s.list->0).cursor.on_item(),
        _ => true,
    }
}

/// The view after a move in the list.
pub open spec fn moved(s: DetailViewState, m: Move) -> DetailViewState {
    let l = s.list->0;
    DetailViewState { list: Some(l.moved(m.target(l))), ..s }
}

/// Whether a move in the list leads to a commit.
pub open spec fn leads(s: DetailViewState, m: Move) -> bool {
    &&& s.list is Some
    &&& m.allowed(s.list->0)
    &&& m.target(s.list->0).on_item()
}

impl<'a> View for DetailView<'a> {
    type V = DetailViewState;

    closed spec fn view(&self) -> DetailViewState {
        DetailViewState {
            list: commit_list::opt_list(self.commit_list_state),
            detail: self.commit_detail_state,
            commit: self.commit@,
            changes: changes::change_views(self.changes@),
            commit_refs: git::ref_views(self.commit_refs@),
            all_refs: git::ref_views(self.all_refs@),
            tree: self.ref_list_state@,
            refs_context: context::opt_refs_context(self.refs_context),
        }
    }
}

impl<'a> DetailView<'a> {
    pub closed spec fn wf(&self) -> bool {
        self.commit_list_state matches Some(l) ==> l.wf()
    }

    /// The view of a commit. The references look as they did before, or the branch that is checked
    /// out is selected among them.
    pub fn new(
        commit_list_state: CommitListState<'a>,
        commit: Commit,
        changes: Vec<FileChange>,
        commit_refs: Vec<Ref>,
        all_refs: Vec<Ref>,
        refs_context: Option<RefsRefreshViewContext>,
    ) -> (r: DetailView<'a>)
        requires
            commit_list_state.wf(),
        ensures
            r.wf(),
            r@ == opened(
                commit_list_state@,
                commit@,
                changes::change_views(changes@),
                git::ref_views(commit_refs@),
                git::ref_views(all_refs@),
                context::opt_refs_context(refs_context),
            ),
    {
        let mut ref_list_state = RefListState::new();
        match &refs_context {
            Some(c) => {
                let c = c.copy();
                ref_list_state.reset_tree_status(all_refs.as_slice(), c.selected, c.opened);
            },
            None => {
                if let Head::Branch { name } = commit_list_state.head() {
                    ref_list_state.select_branch_name(name.as_str());
                }
            },
        }
        DetailView {
            commit_list_state: Some(commit_list_state),
            commit_detail_state: CommitDetailState::default(),
            commit,
            changes,
            commit_refs,
            all_refs,
            ref_list_state,
            refs_context,
        }
    }

    /// Whether the view can answer an event.
    pub fn accepts(&self, event: UserEvent) -> (r: bool)
        requires
            self.wf(),
        ensures
            r == can_answer(self@, event),
    {
        match event {
            UserEvent::ShortCopy => text::chars_in_bytes(
                self.commit.commit_hash.as_str(),
                git::SHORT_HASH_BYTES,
            ).is_some(),
            UserEvent::Refresh => match &self.commit_list_state {
                Some(l) => {
                    let c = l.cursor();
                    c.offset <= usize::MAX - c.selected && c.current() < c.total
                },
                None => false,
            },
            _ => true,
        }
    }

    /// Answers what the user asks for.
    pub fn handle_event(&mut self, event_with_count: UserEventWithCount) -> (r: Option<AppEvent>)
        requires
            old(self).wf(),
            can_answer(old(self)@, event_with_count.event),
        ensures
            final(self).wf(),
            (final(self)@, event::opt_event(r)) == answer(
                old(self)@,
                event_with_count.event,
                event_with_count.count as int,
            ),
    {
        let count = event_with_count.count;
        match event_with_count.event {
            UserEvent::NavigateDown => {
                self.commit_detail_state.scroll_down(count);
                None
            },
            UserEvent::NavigateUp => {
                self.commit_detail_state.scroll_up(count);
                None
            },
            UserEvent::PageDown => {
                self.commit_detail_state.scroll_page_down(count);
                None
            },
            UserEvent::PageUp => {
                self.commit_detail_state.scroll_page_up(count);
                None
            },
            UserEvent::HalfPageDown => {
                self.commit_detail_state.scroll_half_page_down(count);
                None
            },
            UserEvent::HalfPageUp => {
                self.commit_detail_state.scroll_half_page_up(count);
                None
            },
            UserEvent::GoToTop => {
                self.commit_detail_state.select_first();
                None
            },
            UserEvent::GoToBottom => {
                self.commit_detail_state.select_last();
                None
            },
            UserEvent::SelectDown => Some(AppEvent::SelectOlderCommit),
            UserEvent::SelectUp => Some(AppEvent::SelectNewerCommit),
            UserEvent::GoToParent => Some(AppEvent::SelectParentCommit),
            UserEvent::ShortCopy => Some(
                list::copy_to_clipboard(
                    "Commit SHA (short)",
                    self.commit.commit_hash.as_short_hash(),
                ),
            ),
            UserEvent::FullCopy => Some(
                list::copy_to_clipboard("Commit SHA", self.commit.commit_hash.as_str()),
            ),
            UserEvent::UserCommand(n) => Some(AppEvent::OpenUserCommand(n)),
            UserEvent::OpenStatus => Some(AppEvent::OpenStatus),
            UserEvent::HelpToggle => Some(AppEvent::OpenHelp),
            UserEvent::Confirm | UserEvent::Cancel | UserEvent::Close => Some(
                AppEvent::CloseDetail,
            ),
            UserEvent::Refresh => Some(self.refresh()),
            _ => None,
        }
    }

    pub fn take_list_state(&mut self) -> (r: CommitListState<'a>)
        requires
            old(self).wf(),
            old(self)@.list is Some,
        ensures
            final(self).wf(),
            r.wf(),
            r@ == old(self)@.list->0,
            final(self)@ == (DetailViewState { list: None, ..old(self)@ }),
    {
        let mut taken: Option<CommitListState<'a>> = None;
        std::mem::swap(&mut taken, &mut self.commit_list_state);
        taken.unwrap()
    }

    /// The list of commits, where the view still has it.
    pub fn list_state(&self) -> (r: Option<&CommitListState<'a>>)
        requires
            self.wf(),
        ensures
            match r {
                Some(l) => l.wf() && self@.list == Some(l@),
                None => self@.list is None,
            },
    {
        self.commit_list_state.as_ref()
    }

    /// The list of commits, where the view still has it, of a view that is to go.
    pub fn into_list_state(self) -> (r: Option<CommitListState<'a>>)
        requires
            self.wf(),
        ensures
            match r {
                Some(l) => l.wf() && self@.list == Some(l@),
                None => self@.list is None,
            },
    {
        self.commit_list_state
    }

    pub fn as_list_state(&self) -> (r: &CommitListState<'a>)
        requires
            self.wf(),
            self@.list is Some,
        ensures
            r.wf(),
            r@ == self@.list->0,
    {
        self.commit_list_state.as_ref().unwrap()
    }

    /// The commits, to be changed.
    pub fn as_mut_list_state(&mut self) -> (r: &mut CommitListState<'a>)
        requires
            old(self).wf(),
            old(self)@.list is Some,
        ensures
            r.wf(),
            r@ == old(self)@.list->0,
            final(self)@ == (DetailViewState { list: Some(final(r)@), ..old(self)@ }),
            final(r).wf() ==> final(self).wf(),
    {
        self.commit_list_state.as_mut().unwrap()
    }

    /// The tree of the references, to be drawn.
    pub fn as_mut_ref_list_state(&mut self) -> (r: &mut RefListState)
        requires
            old(self).wf(),
        ensures
            r@ == old(self)@.tree,
            final(self)@ == (DetailViewState { tree: final(r)@, ..old(self)@ }),
            final(self).wf(),
    {
        &mut self.ref_list_state
    }

    /// How far the details are scrolled, to be fitted into their pane.
    pub fn as_mut_detail_state(&mut self) -> (r: &mut CommitDetailState)
        requires
            old(self).wf(),
        ensures
            *r == old(self)@.detail,
            final(self)@ == (DetailViewState { detail: *final(r), ..old(self)@ }),
            final(self).wf(),
    {
        &mut self.commit_detail_state
    }

    pub fn commit(&self) -> (r: &Commit)
        ensures
            r@ == self@.commit,
    {
        &self.commit
    }

    pub fn changes(&self) -> (r: &Vec<FileChange>)
        ensures
            changes::change_views(r@) == self@.changes,
    {
        &self.changes
    }

    pub fn commit_refs(&self) -> (r: &Vec<Ref>)
        ensures
            git::ref_views(r@) == self@.commit_refs,
    {
        &self.commit_refs
    }

    pub fn all_refs(&self) -> (r: &Vec<Ref>)
        ensures
            git::ref_views(r@) == self@.all_refs,
    {
        &self.all_refs
    }

    pub fn refs_context(&self) -> (r: Option<RefsRefreshViewContext>)
        ensures
            context::opt_refs_context(r) == self@.refs_context,
    {
        context::copy_refs_context(&self.refs_context)
    }

    /// Makes the references look as they did before, as far as they are there.
    pub fn set_refs_context(&mut self, refs_context: Option<RefsRefreshViewContext>)
        requires
            old(self).wf(),
        ensures
            final(self).wf(),
            final(self)@ == (DetailViewState {
                tree: match refs_context {
                    Some(c) => old(self)@.tree.reset_to(
                        old(self)@.all_refs,
                        c@.selected,
                        c@.opened,
                    ),
                    None => old(self)@.tree,
                },
                refs_context: context::opt_refs_context(refs_context),
                ..old(self)@
            }),
    {
        match &refs_context {
            Some(c) => {
                let c = c.copy();
                self.ref_list_state.reset_tree_status(
                    self.all_refs.as_slice(),
                    c.selected,
                    c.opened,
                );
            },
            None => {},
        }
        self.refs_context = refs_context;
    }

    /// Whether a move in the list leads to a commit.
    pub fn can_select(&self, m: Move) -> (r: bool)
        requires
            self.wf(),
        ensures
            r == leads(self@, m),
    {
        match &self.commit_list_state {
            Some(l) => l.leads_to_item(m),
            None => false,
        }
    }

    /// Selects the next older commit in the list, and gives its hash.
    pub fn select_older_commit(&mut self) -> (r: CommitHash)
        requires
            old(self).wf(),
            leads(old(self)@, Move::Next),
        ensures
            final(self).wf(),
            final(self)@ == moved(old(self)@, Move::Next),
            r@ == (final(self)@.list->0).selected().commit.hash,
    {
        self.select_by(Move::Next)
    }

    /// Selects the next newer commit in the list, and gives its hash.
    pub fn select_newer_commit(&mut self) -> (r: CommitHash)
        requires
            old(self).wf(),
            leads(old(self)@, Move::Prev),
        ensures
            final(self).wf(),
            final(self)@ == moved(old(self)@, Move::Prev),
            r@ == (final(self)@.list->0).selected().commit.hash,
    {
        self.select_by(Move::Prev)
    }

    /// Selects the first parent of the commit in the list, and gives its hash.
    pub fn select_parent_commit(&mut self) -> (r: CommitHash)
        requires
            old(self).wf(),
            leads(old(self)@, Move::Parent),
        ensures
            final(self).wf(),
            final(self)@ == moved(old(self)@, Move::Parent),
            r@ == (final(self)@.list->0).selected().commit.hash,
    {
        self.select_by(Move::Parent)
    }

    fn select_by(&mut self, m: Move) -> (r: CommitHash)
        requires
            old(self).wf(),
            leads(old(self)@, m),
        ensures
            final(self).wf(),
            final(self)@ == moved(old(self)@, m),
            r@ == (final(self)@.list->0).selected().commit.hash,
    {
        let ghost before = self@;
        let mut taken: Option<CommitListState<'a>> = None;
        std::mem::swap(&mut taken, &mut self.commit_list_state);
        let mut list = taken.unwrap();
        proof {
            assert(m.repeated(list@, 0) == list@);
            assert(m.repeated(list@, 1) == list@.moved(m.target(list@)));
        }
        list.repeat(m, 1);
        let hash = list.selected_commit_hash().clone();
        self.commit_list_state = Some(list);
        assert(self@ == moved(before, m));
        hash
    }

    /// Shows the commit with this hash, by what git printed of its changes.
    pub fn update_selected_commit(
        &mut self,
        repository: &Repository,
        commit_hash: &CommitHash,
        output: &str,
    )
        requires
            old(self).wf(),
            repository.wf(),
            repository.commits().contains_key(commit_hash@),
            repository.commits()[commit_hash@].parent_commit_hashes@.len() > 0 ==> forall|i: int|
                0 <= i < decode::line_list(output@).len() ==> changes::change_line(
                    #[trigger] decode::line_list(output@)[i],
                ),
        ensures
            final(self).wf(),
            final(self)@ == (DetailViewState {
                commit: repository.commits()[commit_hash@]@,
                changes: if repository.commits()[commit_hash@].parent_commit_hashes@.len() == 0 {
                    changes::additions(decode::line_list(output@))
                } else {
                    changes::changes_on(decode::line_list(output@))
                },
                commit_refs: git::ref_views(names::listed(repository.references(), commit_hash@)),
                detail: CommitDetailState { offset: 0, ..old(self)@.detail },
                ..old(self)@
            }),
    {
        let (commit, found) = repository.commit_detail(commit_hash, output);
        let refs = repository.refs(commit_hash);
        self.commit = commit;
        self.changes = found;
        self.commit_refs = git::clone_refs(&refs);
        self.commit_detail_state.select_first();
    }

    /// Asks for a refresh that keeps the view.
    pub fn refresh(&self) -> (r: AppEvent)
        requires
            self.wf(),
            self@.list is Some,
            (self@.list->0).cursor.on_item(),
        ensures
            r@ == refresh_event(self@),
    {
        let list_context = ListRefreshViewContext::from_list(self.as_list_state());
        AppEvent::Refresh(
            RefreshViewContext::Detail { list_context, refs_context: self.refs_context() },
        )
    }
}

/// What moves the text moves it by lines, by pages and by half pages, as often as was asked for and
/// not before the first line, and moves nothing else.
pub proof fn moves_scroll_the_text(s: DetailViewState, e: UserEvent, count: int)
    requires
        0 <= count,
        s.detail.offset + count * s.detail.height <= usize::MAX,
        s.detail.offset + count <= usize::MAX,
        e == UserEvent::NavigateDown || e == UserEvent::NavigateUp || e == UserEvent::PageDown || e
            == UserEvent::PageUp || e == UserEvent::HalfPageDown || e == UserEvent::HalfPageUp || e
            == UserEvent::GoToTop,
    ensures
        ({
            let (t, sent) = answer(s, e, count);
            let from = s.detail.offset as int;
            let to = t.detail.offset as int;
            let page = count * s.detail.height;
            let half = count * (s.detail.height as int / 2);
            &&& t == (DetailViewState { detail: t.detail, ..s })
            &&& t.detail.height == s.detail.height
            &&& sent is None
            &&& match e {
                UserEvent::NavigateDown => to == from + count,
                UserEvent::NavigateUp => to == from - count || (to == 0 && from < count),
                UserEvent::PageDown => to == from + page,
                UserEvent::PageUp => to == from - page || (to == 0 && from < page),
                UserEvent::HalfPageDown => to == from + half,
                UserEvent::HalfPageUp => to == from - half || (to == 0 && from < half),
                _ => to == 0,
            }
        }),
{
    let h = s.detail.height as int;
    assert(count * (h / 2) <= count * h) by (nonlinear_arith)
        requires
            0 <= count,
            0 <= h,
    ;
    assert(0 <= count * (h / 2)) by (nonlinear_arith)
        requires
            0 <= count,
            0 <= h,
    ;
    assert(count * 1 == count);
}

/// What the detail view is asked beside that, it asks of the program, each by its own event, and
/// stays as it is.
pub proof fn requests_are_passed_on(s: DetailViewState, e: UserEvent, count: int)
    ensures
        ({
            let (t, sent) = answer(s, e, count);
            &&& e == UserEvent::SelectDown <==> sent == Some(event::AppEventView::SelectOlderCommit)
            &&& e == UserEvent::SelectUp <==> sent == Some(event::AppEventView::SelectNewerCommit)
            &&& e == UserEvent::GoToParent <==> sent == Some(
                event::AppEventView::SelectParentCommit,
            )
            &&& e == UserEvent::Confirm || e == UserEvent::Cancel || e == UserEvent::Close
                <==> sent == Some(event::AppEventView::CloseDetail)
            &&& e == UserEvent::OpenStatus <==> sent == Some(event::AppEventView::OpenStatus)
            &&& e == UserEvent::HelpToggle <==> sent == Some(event::AppEventView::OpenHelp)
            &&& e matches UserEvent::UserCommand(n) ==> sent == Some(
                event::AppEventView::OpenUserCommand(n),
            )
            &&& e == UserEvent::Refresh <==> (sent matches Some(
                event::AppEventView::Refresh(context::RefreshView::Detail { .. }),
            ))
            &&& sent is Some ==> t == s
        }),
{
}

/// The hash of the commit that is shown is copied, whole or its first seven bytes.
pub proof fn hashes_are_copied(s: DetailViewState, k: int)
    requires
        0 <= k <= s.commit.hash.len(),
        text::byte_count(s.commit.hash.take(k)) == 7,
    ensures
        answer(s, UserEvent::FullCopy, 1).1 matches Some(
            event::AppEventView::CopyToClipboard { value, .. },
        ) && value == s.commit.hash,
        answer(s, UserEvent::ShortCopy, 1).1 matches Some(
            event::AppEventView::CopyToClipboard { value, .. },
        ) && value == s.commit.hash.take(k),
{
    text::chars_for_is(s.commit.hash, 7, k);
}

/// The older commit is the next one in the list, the newer one the one before it, and the parent is
/// the commit whose hash the selected one gives as its first parent.
pub proof fn neighbours_are_selected(s: DetailViewState, parent: int)
    requires
        s.list is Some,
        (s.list->0).cursor.settled(),
        (s.list->0).cursor.total == (s.list->0).infos.len(),
    ensures
        ({
            let l = s.list->0;
            let at = l.cursor.index();
            let older = moved(s, Move::Next).list->0;
            let newer = moved(s, Move::Prev).list->0;
            let above = moved(s, Move::Parent).list->0;
            &&& at + 1 < l.infos.len() ==> older.selected() == l.infos[at + 1]
            &&& at + 1 == l.infos.len() ==> older.selected() == l.selected()
            &&& at > 0 ==> newer.selected() == l.infos[at - 1]
            &&& at == 0 ==> newer.selected() == l.selected()
            &&& at < parent < l.infos.len() && l.selected().commit.parents.len() > 0
                && l.infos[parent].commit.hash == l.selected().commit.parents[0]
                ==> above.selected().commit.hash == l.selected().commit.parents[0]
            &&& l.selected().commit.parents.len() == 0 ==> above == l
        }),
{
    let l = s.list->0;
    let c = l.cursor;
    c.steps_are_single();
    c.settled_is_on_item();
    assert(l.moved(l.cursor) == l);
    if c.index() < parent < l.infos.len() && l.selected().commit.parents.len() > 0
        && l.infos[parent].commit.hash == l.selected().commit.parents[0] {
        let hash = l.selected().commit.parents[0];
        commit_list::find_hash_finds(l.infos, hash, c.index(), parent);
        let to = commit_list::find_hash(l.infos, hash, c.index());
        commit_list::steps_move(c, to - c.index());
    }
}

} // verus!
