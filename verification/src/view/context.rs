//! What a view is to look like after the repository has been read anew.

use vstd::prelude::*;
use crate::text;
use crate::widget::commit_list;
use crate::widget::commit_list::CommitListState;

verus! {

/// Which commit is selected, and on which row of the window.
#[derive(Debug, PartialEq, Eq)]
pub struct ListRefreshViewContext {
    pub commit_hash: String,
    pub selected: usize,
    pub height: usize,
    pub scroll_to_top: bool,
}

pub ghost struct ListContextView {
    pub commit_hash: Seq<char>,
    pub selected: usize,
    pub height: usize,
    pub scroll_to_top: bool,
}

impl View for ListRefreshViewContext {
    type V = ListContextView;

    open spec fn view(&self) -> ListContextView {
        ListContextView {
            commit_hash: self.commit_hash@,
            selected: self.selected,
            height: self.height,
            scroll_to_top: self.scroll_to_top,
        }
    }
}

/// What is to be kept of a list: a list that stands at its very top is to stay there.
pub open spec fn context_of(v: commit_list::ListStateView) -> ListContextView {
    ListContextView {
        commit_hash: v.selected().commit.hash,
        selected: v.cursor.selected,
        height: v.cursor.height,
        scroll_to_top: v.cursor.selected == 0 && v.cursor.offset == 0,
    }
}

impl ListRefreshViewContext {
    pub fn from_list(list_state: &CommitListState) -> (r: ListRefreshViewContext)
        requires
            list_state.wf(),
            list_state@.cursor.on_item(),
        ensures
            r@ == context_of(list_state@),
    {
        let (selected, offset, height) = list_state.current_list_status();
        ListRefreshViewContext {
            commit_hash: list_state.selected_commit_hash().as_str().to_string(),
            selected,
            height,
            scroll_to_top: selected == 0 && offset == 0,
        }
    }

    pub fn copy(&self) -> (r: ListRefreshViewContext)
        ensures
            r == *self,
    {
        ListRefreshViewContext {
            commit_hash: self.commit_hash.clone(),
            selected: self.selected,
            height: self.height,
            scroll_to_top: self.scroll_to_top,
        }
    }
}

/// Which reference is selected, which are opened, and whether they have the focus.
#[derive(Debug, PartialEq, Eq)]
pub struct RefsRefreshViewContext {
    pub selected: Vec<String>,
    pub opened: Vec<Vec<String>>,
    pub focus_sidebar: bool,
}

pub ghost struct RefsContextView {
    pub selected: Seq<Seq<char>>,
    pub opened: Seq<Seq<Seq<char>>>,
    pub focus_sidebar: bool,
}

impl View for RefsRefreshViewContext {
    type V = RefsContextView;

    open spec fn view(&self) -> RefsContextView {
        RefsContextView {
            selected: text::texts(self.selected@),
            opened: text::text_lists(self.opened@),
            focus_sidebar: self.focus_sidebar,
        }
    }
}

/// A copy of lists of texts.
pub fn clone_lists(v: &Vec<Vec<String>>) -> (r: Vec<Vec<String>>)
    ensures
        text::text_lists(r@) == text::text_lists(v@),
{
    let mut r: Vec<Vec<String>> = Vec::new();
    let mut i: usize = 0;
    while i < v.len()
        invariant
            i <= v@.len(),
            r@.len() == i,
            forall|j: int| 0 <= j < i ==> text::texts((#[trigger] r@[j])@) == text::texts(v@[j]@),
        decreases v@.len() - i,
    {
        r.push(text::clone_texts(&v[i]));
        i = i + 1;
    }
    assert(text::text_lists(r@) =~= text::text_lists(v@));
    r
}

impl RefsRefreshViewContext {
    pub fn copy(&self) -> (r: RefsRefreshViewContext)
        ensures
            r@ == self@,
    {
        RefsRefreshViewContext {
            selected: text::clone_texts(&self.selected),
            opened: clone_lists(&self.opened),
            focus_sidebar: self.focus_sidebar,
        }
    }
}

/// What an optional context says.
pub open spec fn opt_refs_context(r: Option<RefsRefreshViewContext>) -> Option<RefsContextView> {
    match r {
        Some(c) => Some(c@),
        None => None,
    }
}

pub fn copy_refs_context(c: &Option<RefsRefreshViewContext>) -> (r: Option<RefsRefreshViewContext>)
    ensures
        opt_refs_context(r) == opt_refs_context(*c),
{
    match c {
        Some(c) => Some(c.copy()),
        None => None,
    }
}

/// Which row of the tree of changes is selected.
#[derive(Debug, Clone, Copy, PartialEq, Eq, Structural)]
pub struct StatusRefreshViewContext {
    pub selected: usize,
}

/// Which command of the user's was run.
#[derive(Debug, Clone, Copy, PartialEq, Eq, Structural)]
pub struct UserCommandRefreshViewContext {
    pub n: usize,
}

/// What the view is to look like.
#[derive(Debug, PartialEq, Eq)]
pub enum RefreshViewContext {
    List { list_context: ListRefreshViewContext },
    Detail { list_context: ListRefreshViewContext, refs_context: Option<RefsRefreshViewContext> },
    UserCommand {
        list_context: ListRefreshViewContext,
        user_command_context: UserCommandRefreshViewContext,
    },
    Refs { list_context: ListRefreshViewContext, refs_context: RefsRefreshViewContext },
    Status { list_context: ListRefreshViewContext, status_context: StatusRefreshViewContext },
}

pub ghost enum RefreshView {
    List { list_context: ListContextView },
    Detail { list_context: ListContextView, refs_context: Option<RefsContextView> },
    UserCommand {
        list_context: ListContextView,
        user_command_context: UserCommandRefreshViewContext,
    },
    Refs { list_context: ListContextView, refs_context: RefsContextView },
    Status { list_context: ListContextView, status_context: StatusRefreshViewContext },
}

impl View for RefreshViewContext {
    type V = RefreshView;

    open spec fn view(&self) -> RefreshView {
        match self {
            RefreshViewContext::List { list_context } => RefreshView::List {
                list_context: list_context@,
            },
            RefreshViewContext::Detail { list_context, refs_context } => RefreshView::Detail {
                list_context: list_context@,
                refs_context: opt_refs_context(*refs_context),
            },
            RefreshViewContext::UserCommand {
                list_context,
                user_command_context,
            } => RefreshView::UserCommand {
                list_context: list_context@,
                user_command_context: *user_command_context,
            },
            RefreshViewContext::Refs { list_context, refs_context } => RefreshView::Refs {
                list_context: list_context@,
                refs_context: refs_context@,
            },
            RefreshViewContext::Status { list_context, status_context } => RefreshView::Status {
                list_context: list_context@,
                status_context: *status_context,
            },
        }
    }
}

impl RefreshView {
    pub open spec fn list_part(self) -> ListContextView {
        match self {
            RefreshView::List { list_context } => list_context,
            RefreshView::Detail { list_context, .. } => list_context,
            RefreshView::UserCommand { list_context, .. } => list_context,
            RefreshView::Refs { list_context, .. } => list_context,
            RefreshView::Status { list_context, .. } => list_context,
        }
    }
}

impl RefreshViewContext {
    pub fn list_context(&self) -> (r: &ListRefreshViewContext)
        ensures
            r@ == self@.list_part(),
    {
        match self {
            RefreshViewContext::List { list_context } => list_context,
            RefreshViewContext::Detail { list_context, .. } => list_context,
            RefreshViewContext::UserCommand { list_context, .. } => list_context,
            RefreshViewContext::Refs { list_context, .. } => list_context,
            RefreshViewContext::Status { list_context, .. } => list_context,
        }
    }
}

} // verus!
