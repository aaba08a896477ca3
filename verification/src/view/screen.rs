//! The views, of which one fills the screen.

use vstd::prelude::*;
use crate::event;
use crate::event::AppEvent;
use crate::git;
use crate::git::{CommitHash, Ref};
use crate::view::context;
use crate::view::context::{
    ListRefreshViewContext, RefreshViewContext, RefsRefreshViewContext, UserCommandRefreshViewContext,
};
use crate::view::detail;
use crate::view::detail::DetailView;
use crate::view::list;
use crate::view::list::ListView;
use crate::view::status;
use crate::view::status::StatusView;
use crate::widget::commit_list;
use crate::widget::commit_list::CommitListState;
use crate::widget::commit_moves::Move;
use crate::widget::ref_list;
use crate::widget::ref_list::RefListState;

verus! {

/// The view of what a command of the user's printed.
#[derive(Debug)]
pub struct UserCommandView<'a> {
    pub commit_list_state: Option<CommitListState<'a>>,
    pub output: String,
    pub user_command_number: usize,
}

/// The view of the references on their own.
#[derive(Debug)]
pub struct RefsView<'a> {
    pub commit_list_state: Option<CommitListState<'a>>,
    pub refs: Vec<Ref>,
    pub ref_list_state: RefListState,
}

/// What fills the screen.
#[derive(Debug)]
pub enum Screen<'a> {
    Blank,
    List(ListView<'a>),
    Detail(DetailView<'a>),
    UserCommand(UserCommandView<'a>),
    Refs(RefsView<'a>),
    Help(Box<Screen<'a>>),
    Status(StatusView<'a>),
}

pub ghost enum ScreenView {
    Blank,
    List(list::ListViewState),
    Detail(detail::DetailViewState),
    UserCommand {
        list: Option<commit_list::ListStateView>,
        output: Seq<char>,
        number: usize,
    },
    Refs {
        list: Option<commit_list::ListStateView>,
        refs: Seq<git::RefView>,
        tree: ref_list::RefsState,
    },
    Help(Box<ScreenView>),
    Status(status::StatusState),
}

/// What a screen shows.
pub open spec fn shown(s: Screen) -> ScreenView
    decreases s,
{
    match s {
        Screen::Blank => ScreenView::Blank,
        Screen::List(v) => ScreenView::List(v@),
        Screen::Detail(v) => ScreenView::Detail(v@),
        Screen::UserCommand(v) => ScreenView::UserCommand {
            list: commit_list::opt_list(v.commit_list_state),
            output: v.output@,
            number: v.user_command_number,
        },
        Screen::Refs(v) => ScreenView::Refs {
            list: commit_list::opt_list(v.commit_list_state),
            refs: git::ref_views(v.refs@),
            tree: v.ref_list_state@,
        },
        Screen::Help(b) => ScreenView::Help(Box::new(shown(*b))),
        Screen::Status(v) => ScreenView::Status(v@),
    }
}

/// Whether the parts of a screen go together.
pub open spec fn sound(s: Screen) -> bool
    decreases s,
{
    match s {
        Screen::Blank => true,
        Screen::List(v) => v.wf(),
        Screen::Detail(v) => v.wf(),
        Screen::UserCommand(v) => v.commit_list_state matches Some(l) ==> l.wf(),
        Screen::Refs(v) => v.commit_list_state matches Some(l) ==> l.wf(),
        Screen::Help(b) => sound(*b),
        Screen::Status(v) => v.wf(),
    }
}

impl ScreenView {
    /// The list of commits that the screen has.
    pub open spec fn list(self) -> Option<commit_list::ListStateView> {
        match self {
            ScreenView::List(v) => v.list,
            ScreenView::Detail(v) => v.list,
            ScreenView::UserCommand { list, .. } => list,
            ScreenView::Refs { list, .. } => list,
            ScreenView::Status(v) => v.list,
            _ => None,
        }
    }

    /// Whether each view that has to do with the commits has them.
    pub open spec fn stocked(self) -> bool
        decreases self,
    {
        match self {
            ScreenView::Blank => true,
            ScreenView::Help(b) => (*b).stocked(),
            _ => self.list() is Some,
        }
    }

    /// Whether one of the commits is selected, where the screen has them.
    pub open spec fn has_selection(self) -> bool {
        self.list() matches Some(l) ==> l.cursor.on_item()
    }

    /// Whether what is sent asks for a refresh that keeps the view.
    pub open spec fn asks_refresh(self, sent: Option<event::AppEventView>) -> bool {
        match self {
            ScreenView::Blank | ScreenView::Help(_) => sent is None,
            ScreenView::List(v) => list::asks_refresh(v, sent),
            ScreenView::Detail(v) => sent == Some(detail::refresh_event(v)),
            ScreenView::UserCommand { list, number, .. } => sent == Some(
                event::AppEventView::Refresh(
                    context::RefreshView::UserCommand {
                        list_context: context::context_of(list->0),
                        user_command_context: UserCommandRefreshViewContext { n: number },
                    },
                ),
            ),
            ScreenView::Refs { list, tree, .. } => match sent {
                Some(
                    event::AppEventView::Refresh(
                        context::RefreshView::Refs { list_context, refs_context },
                    ),
                ) => {
                    &&& list_context == context::context_of(list->0)
                    &&& refs_context.selected == tree.selected
                    &&& refs_context.opened.no_duplicates()
                    &&& refs_context.opened.to_set() == tree.opened
                    &&& refs_context.focus_sidebar
                },
                _ => false,
            },
            ScreenView::Status(v) => sent == Some(status::refresh_event(v)),
        }
    }
}

impl<'a> Screen<'a> {
    /// Whether the keys are taken as text.
    pub fn captures_text_input(&self) -> (r: bool)
        ensures
            !r,
    {
        match self {
            Screen::Status(v) => v.captures_text_input(),
            _ => false,
        }
    }

    /// The list of commits that the screen has.
    pub fn list_state(&self) -> (r: Option<&CommitListState<'a>>)
        requires
            sound(*self),
        ensures
            match r {
                Some(l) => l.wf() && shown(*self).list() == Some(l@),
                None => shown(*self).list() is None,
            },
    {
        match self {
            Screen::List(v) => v.list_state(),
            Screen::Detail(v) => v.list_state(),
            Screen::UserCommand(v) => v.commit_list_state.as_ref(),
            Screen::Refs(v) => v.commit_list_state.as_ref(),
            Screen::Status(v) => v.list_state(),
            Screen::Blank | Screen::Help(_) => None,
        }
    }

    /// Takes the list of commits from a view that is to go.
    pub fn into_list_state(self) -> (r: Option<CommitListState<'a>>)
        requires
            sound(self),
        ensures
            match r {
                Some(l) => l.wf() && shown(self).list() == Some(l@),
                None => shown(self).list() is None,
            },
    {
        match self {
            Screen::List(v) => v.into_list_state(),
            Screen::Detail(v) => v.into_list_state(),
            Screen::UserCommand(v) => v.commit_list_state,
            Screen::Refs(v) => v.commit_list_state,
            Screen::Status(v) => v.into_list_state(),
            Screen::Blank | Screen::Help(_) => None,
        }
    }

    /// Whether one of the commits is selected, where the screen has them.
    pub fn is_on_commit(&self) -> (r: bool)
        requires
            sound(*self),
        ensures
            r == shown(*self).has_selection(),
    {
        match self.list_state() {
            Some(l) => {
                let c = l.cursor();
                c.offset <= usize::MAX - c.selected && c.current() < c.total
            },
            None => true,
        }
    }

    /// The hash of the selected commit, where the commits are in sight.
    pub fn selected_commit_hash(&self) -> (r: Option<CommitHash>)
        requires
            sound(*self),
            shown(*self).has_selection(),
        ensures
            match (r, shown(*self)) {
                (
                    Some(h),
                    ScreenView::List(_)
                    | ScreenView::Detail(_)
                    | ScreenView::UserCommand { .. },
                ) => shown(*self).list() is Some && h@ == (
                shown(*self).list()->0).selected().commit.hash,
                (
                    None,
                    ScreenView::List(_)
                    | ScreenView::Detail(_)
                    | ScreenView::UserCommand { .. },
                ) => shown(*self).list() is None,
                (r, _) => r is None,
            },
    {
        match self {
            Screen::List(_) | Screen::Detail(_) | Screen::UserCommand(_) => match self.list_state() {
                Some(l) => Some(l.selected_commit_hash().clone()),
                None => None,
            },
            _ => None,
        }
    }

    /// Asks for a refresh that keeps the view.
    pub fn refresh(&self) -> (r: Option<AppEvent>)
        requires
            sound(*self),
            shown(*self).stocked(),
            shown(*self).has_selection(),
        ensures
            shown(*self).asks_refresh(event::opt_event(r)),
    {
        match self {
            Screen::Blank | Screen::Help(_) => None,
            Screen::List(v) => Some(v.refresh()),
            Screen::Detail(v) => Some(v.refresh()),
            Screen::UserCommand(v) => {
                let list_context = ListRefreshViewContext::from_list(
                    v.commit_list_state.as_ref().unwrap(),
                );
                Some(
                    AppEvent::Refresh(
                        RefreshViewContext::UserCommand {
                            list_context,
                            user_command_context: UserCommandRefreshViewContext {
                                n: v.user_command_number,
                            },
                        },
                    ),
                )
            },
            Screen::Refs(v) => {
                let list_context = ListRefreshViewContext::from_list(
                    v.commit_list_state.as_ref().unwrap(),
                );
                let (selected, opened) = v.ref_list_state.current_tree_status();
                let refs_context = RefsRefreshViewContext { selected, opened, focus_sidebar: true };
                Some(AppEvent::Refresh(RefreshViewContext::Refs { list_context, refs_context }))
            },
            Screen::Status(v) => Some(v.refresh()),
        }
    }
}

impl<'a> UserCommandView<'a> {
    /// Makes a move in the list.
    pub fn select(&mut self, m: Move)
        requires
            old(self).commit_list_state is Some,
            (old(self).commit_list_state->0).wf(),
            m.allowed((old(self).commit_list_state->0)@),
        ensures
            final(self).commit_list_state is Some,
            (final(self).commit_list_state->0).wf(),
            (final(self).commit_list_state->0)@ == ({
                let l = (old(self).commit_list_state->0)@;
                l.moved(m.target(l))
            }),
            final(self).output == old(self).output,
            final(self).user_command_number == old(self).user_command_number,
    {
        let mut taken: Option<CommitListState<'a>> = None;
        std::mem::swap(&mut taken, &mut self.commit_list_state);
        let mut list = taken.unwrap();
        proof {
            assert(m.repeated(list@, 0) == list@);
            assert(m.repeated(list@, 1) == list@.moved(m.target(list@)));
        }
        list.repeat(m, 1);
        self.commit_list_state = Some(list);
    }
}

} // verus!
