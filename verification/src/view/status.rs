//! The changes in the work tree, and what is to become of them.

use vstd::prelude::*;
use vstd::string::*;
use crate::color::{Color, ColorTheme};
use crate::decode;
use crate::event;
use crate::event::{AppEvent, Key, KeyCode, UserEvent, UserEventWithCount};
use crate::git::changes;
use crate::git::changes::StatusEntry;
use crate::git::commands;
use crate::numerals;
use crate::sets;
use crate::sets::TextSet;
use crate::span;
use crate::span::{Span, Style};
use crate::text;
use crate::view::context;
use crate::view::context::{ListRefreshViewContext, RefreshViewContext, StatusRefreshViewContext};
use crate::view::status_tree;
use crate::view::status_tree::TreeRow;
use crate::widget::commit_list;
use crate::widget::commit_list::CommitListState;
use crate::workflow;
use crate::workflow::WorkflowAction;

verus! {

/// What the keys go to.
#[derive(Debug, Clone, Copy, PartialEq, Eq, Structural)]
pub enum FocusArea {
    Files,
    DiscardButton,
    CommitButton,
}

/// How many of the files of a row are selected.
#[derive(Debug, Clone, Copy, PartialEq, Eq, Structural)]
pub enum SelectionState {
    Unselected,
    Partial,
    Full,
}

/// The view of the changes.
#[derive(Debug)]
pub struct StatusView<'a> {
    commit_list_state: Option<CommitListState<'a>>,
    entries: Vec<StatusEntry>,
    tree_rows: Vec<TreeRow>,
    selected_row: usize,
    diff_lines: Vec<String>,
    file_offset: usize,
    diff_offset: usize,
    expanded_dirs: TextSet,
    focus: FocusArea,
    selected_paths: TextSet,
}

/// What the view of the changes shows.
pub ghost struct StatusState {
    pub list: Option<commit_list::ListStateView>,
    pub entries: Seq<changes::StatusEntryView>,
    pub rows: Seq<status_tree::RowView>,
    pub selected_row: int,
    pub diff: Seq<Seq<char>>,
    pub file_offset: int,
    pub diff_offset: int,
    pub expanded: Set<Seq<char>>,
    pub focus: FocusArea,
    pub selected_paths: Set<Seq<char>>,
}

/// What a view asks for: something that the program is to do, and whether the diff of the selected
/// row is to be loaded.
#[derive(Debug)]
pub struct StatusReply {
    pub event: Option<AppEvent>,
    pub load_diff: bool,
}

/// The focus that comes next, or the one before.
pub open spec fn focus_after(current: FocusArea, reverse: bool) -> FocusArea {
    match (current, reverse) {
        (FocusArea::Files, false) => FocusArea::DiscardButton,
        (FocusArea::DiscardButton, false) => FocusArea::CommitButton,
        (FocusArea::CommitButton, false) => FocusArea::Files,
        (FocusArea::Files, true) => FocusArea::CommitButton,
        (FocusArea::DiscardButton, true) => FocusArea::Files,
        (FocusArea::CommitButton, true) => FocusArea::DiscardButton,
    }
}

pub fn next_focus(current: FocusArea, reverse: bool) -> (r: FocusArea)
    ensures
        r == focus_after(current, reverse),
{
    match (current, reverse) {
        (FocusArea::Files, false) => FocusArea::DiscardButton,
        (FocusArea::DiscardButton, false) => FocusArea::CommitButton,
        (FocusArea::CommitButton, false) => FocusArea::Files,
        (FocusArea::Files, true) => FocusArea::CommitButton,
        (FocusArea::DiscardButton, true) => FocusArea::Files,
        (FocusArea::CommitButton, true) => FocusArea::DiscardButton,
    }
}

/// Going back undoes going on, and three steps come round.
pub proof fn focus_goes_round(f: FocusArea, reverse: bool)
    ensures
        focus_after(focus_after(f, reverse), !reverse) == f,
        focus_after(focus_after(focus_after(f, reverse), reverse), reverse) == f,
        focus_after(f, reverse) != f,
{
}

pub fn is_forward_tab(key: Key) -> (r: bool)
    ensures
        r == key.is_forward(),
{
    match key.code {
        KeyCode::Tab => !key.modifiers.shift,
        _ => false,
    }
}

pub fn is_reverse_tab(key: Key) -> (r: bool)
    ensures
        r == key.is_reverse(),
{
    match key.code {
        KeyCode::BackTab => true,
        KeyCode::Tab => key.modifiers.shift,
        _ => false,
    }
}

pub fn selection_marker(state: SelectionState) -> (r: &'static str)
    ensures
        r@ == marker(state),
{
    match state {
        SelectionState::Unselected => "[ ]",
        SelectionState::Partial => "[/]",
        SelectionState::Full => "[x]",
    }
}

pub open spec fn marker(state: SelectionState) -> Seq<char> {
    match state {
        SelectionState::Unselected => "[ ]"@,
        SelectionState::Partial => "[/]"@,
        SelectionState::Full => "[x]"@,
    }
}

/// The paths of the entries with these numbers, as far as there are entries with them.
pub open spec fn paths_of(indexes: Seq<usize>, entries: Seq<changes::StatusEntryView>) -> Seq<
    Seq<char>,
>
    decreases indexes.len(),
{
    if indexes.len() == 0 {
        Seq::empty()
    } else {
        let rest = paths_of(indexes.drop_last(), entries);
        if indexes.last() < entries.len() {
            rest.push(entries[indexes.last() as int].path)
        } else {
            rest
        }
    }
}

/// The paths of the files of a row.
pub fn row_entry_paths(row: &TreeRow, entries: &Vec<StatusEntry>) -> (r: Vec<String>)
    ensures
        text::texts(r@) == paths_of(row.entry_indexes@, changes::entry_views(entries@)),
{
    let ghost all = row.entry_indexes@;
    let mut r: Vec<String> = Vec::new();
    let mut i: usize = 0;
    assert(all.take(0) =~= Seq::<usize>::empty());
    assert(text::texts(r@) =~= Seq::<Seq<char>>::empty());
    while i < row.entry_indexes.len()
        invariant
            i <= row.entry_indexes@.len(),
            all == row.entry_indexes@,
            text::texts(r@) == paths_of(all.take(i as int), changes::entry_views(entries@)),
        decreases row.entry_indexes@.len() - i,
    {
        let index = row.entry_indexes[i];
        assert(all.take(i + 1).drop_last() =~= all.take(i as int));
        if index < entries.len() {
            let path = entries[index].path.clone();
            proof {
                text::texts_push(r@, path);
            }
            r.push(path);
        }
        i = i + 1;
    }
    assert(all.take(i as int) =~= all);
    r
}

/// How many of some paths are selected.
pub open spec fn selection_of(paths: Seq<Seq<char>>, selected: Set<Seq<char>>) -> SelectionState {
    if forall|i: int| 0 <= i < paths.len() ==> !selected.contains(#[trigger] paths[i]) {
        SelectionState::Unselected
    } else if forall|i: int| 0 <= i < paths.len() ==> selected.contains(#[trigger] paths[i]) {
        SelectionState::Full
    } else {
        SelectionState::Partial
    }
}

/// How many of the files of a row are selected.
pub fn selection_state_for_row(
    row: &TreeRow,
    entries: &Vec<StatusEntry>,
    selected_paths: &TextSet,
) -> (r: SelectionState)
    requires
        selected_paths.wf(),
    ensures
        r == selection_of(
            paths_of(row.entry_indexes@, changes::entry_views(entries@)),
            selected_paths@,
        ),
{
    let paths = row_entry_paths(row, entries);
    let ghost all = text::texts(paths@);
    let mut any = false;
    let mut every = true;
    let mut i: usize = 0;
    while i < paths.len()
        invariant
            i <= paths@.len(),
            selected_paths.wf(),
            all == text::texts(paths@),
            any == exists|j: int| 0 <= j < i && selected_paths@.contains(#[trigger] all[j]),
            every == forall|j: int|
                0 <= j < i ==> selected_paths@.contains(#[trigger] all[j]),
        decreases paths@.len() - i,
    {
        assert(all[i as int] == paths@[i as int]@);
        let chosen = selected_paths.contains(paths[i].as_str());
        any = any || chosen;
        every = every && chosen;
        i = i + 1;
    }
    if !any {
        SelectionState::Unselected
    } else if every {
        SelectionState::Full
    } else {
        SelectionState::Partial
    }
}

/// The selected paths, in order.
pub fn selected_paths(selected: &TextSet) -> (r: Vec<String>)
    requires
        selected.wf(),
    ensures
        sets::ascending(text::texts(r@)),
        text::texts(r@).to_set() == selected@,
{
    selected.to_vec()
}

/// The colour for how some files are changed.
pub open spec fn change_color(
    indexes: Seq<usize>,
    entries: Seq<changes::StatusEntryView>,
    theme: ColorTheme,
) -> Color {
    if status_tree::any_entry(indexes, entries, status_tree::is_deleted()) {
        theme.status_error_fg
    } else if status_tree::any_entry(indexes, entries, status_tree::is_untracked()) {
        theme.status_success_fg
    } else {
        theme.list_ref_stash_fg
    }
}

pub fn status_color_for_indexes(
    indexes: &Vec<usize>,
    entries: &Vec<StatusEntry>,
    color_theme: &ColorTheme,
) -> (r: Color)
    ensures
        r == change_color(indexes@, changes::entry_views(entries@), *color_theme),
{
    let (deleted, untracked, _) = status_tree::sorts_of_change(indexes, entries);
    if deleted {
        color_theme.status_error_fg
    } else if untracked {
        color_theme.status_success_fg
    } else {
        color_theme.list_ref_stash_fg
    }
}

/// The directory of the first `k` parts of a path.
pub open spec fn dir_of(parts: Seq<Seq<char>>, k: int) -> Seq<char>
    decreases k,
{
    if k <= 0 {
        Seq::empty()
    } else {
        status_tree::path_in(dir_of(parts, k - 1), parts[k - 1])
    }
}

/// Whether a directory is on the way to a path.
pub open spec fn leads_to(dir: Seq<char>, path: Seq<char>) -> bool {
    let parts = text::pieces(path, '/');
    exists|k: int| 1 <= k < parts.len() && dir == #[trigger] dir_of(parts, k)
}

/// The directories on the way to the changed files.
pub open spec fn directories(entries: Seq<changes::StatusEntryView>) -> Set<Seq<char>> {
    Set::new(
        |dir: Seq<char>|
            exists|i: int| 0 <= i < entries.len() && leads_to(dir, (#[trigger] entries[i]).path),
    )
}

fn add_directories(paths: &mut TextSet, path: &str)
    requires
        old(paths).wf(),
    ensures
        final(paths).wf(),
        forall|dir: Seq<char>| #[trigger]
            final(paths)@.contains(dir) <==> old(paths)@.contains(dir) || leads_to(dir, path@),
{
    let ghost before = paths@;
    let parts = text::split(path, '/');
    let ghost pieces = text::pieces(path@, '/');
    let mut current = String::new();
    let mut k: usize = 0;
    proof {
        text::pieces_nonempty(path@, '/');
        assert(current@ =~= Seq::<char>::empty());
    }
    while k < parts.len() - 1
        invariant
            parts@.len() > 0,
            k + 1 <= parts@.len(),
            text::texts(parts@) == pieces,
            paths.wf(),
            current@ == dir_of(pieces, k as int),
            forall|dir: Seq<char>| #[trigger]
                paths@.contains(dir) <==> before.contains(dir) || exists|j: int|
                    1 <= j <= k && dir == #[trigger] dir_of(pieces, j),
        decreases parts@.len() - k,
    {
        let ghost now = paths@;
        assert(pieces[k as int] == parts@[k as int]@);
        if text::byte_len(current.as_str()) == 0 {
            current = parts[k].clone();
        } else {
            current.append("/");
            current.append(parts[k].as_str());
        }
        assert(current@ == dir_of(pieces, k + 1));
        paths.insert(current.clone());
        proof {
            assert forall|dir: Seq<char>| #[trigger] paths@.contains(dir) <==> before.contains(dir)
                || exists|j: int| 1 <= j <= k + 1 && dir == #[trigger] dir_of(pieces, j) by {
                assert(now.contains(dir) <==> before.contains(dir) || exists|j: int|
                    1 <= j <= k && dir == #[trigger] dir_of(pieces, j));
                if dir == current@ {
                    assert(dir == dir_of(pieces, k + 1));
                }
            }
        }
        k = k + 1;
    }
    proof {
        assert forall|dir: Seq<char>| #[trigger] paths@.contains(dir) <==> before.contains(dir)
            || leads_to(dir, path@) by {}
    }
}

/// The directories on the way to the changed files.
pub fn collect_directory_paths(entries: &Vec<StatusEntry>) -> (r: TextSet)
    ensures
        r.wf(),
        r@ == directories(changes::entry_views(entries@)),
{
    let ghost all = changes::entry_views(entries@);
    let mut paths = TextSet::new();
    let mut i: usize = 0;
    while i < entries.len()
        invariant
            i <= entries@.len(),
            all == changes::entry_views(entries@),
            paths.wf(),
            forall|dir: Seq<char>| #[trigger]
                paths@.contains(dir) <==> exists|j: int|
                    0 <= j < i && leads_to(dir, (#[trigger] all[j]).path),
        decreases entries@.len() - i,
    {
        let ghost now = paths@;
        add_directories(&mut paths, entries[i].path.as_str());
        proof {
            assert(all[i as int].path == entries@[i as int].path@);
            assert forall|dir: Seq<char>| #[trigger] paths@.contains(dir) <==> exists|j: int|
                0 <= j < i + 1 && leads_to(dir, (#[trigger] all[j]).path) by {
                assert(now.contains(dir) <==> exists|j: int|
                    0 <= j < i && leads_to(dir, (#[trigger] all[j]).path));
                if leads_to(dir, all[i as int].path) {
                    assert(leads_to(dir, all[i as int].path));
                }
            }
        }
        i = i + 1;
    }
    assert(paths@ =~= directories(all));
    paths
}

/// The row that stands where there are no changes.
pub open spec fn no_changes() -> status_tree::RowView {
    status_tree::RowView {
        path: Seq::empty(),
        is_dir: false,
        is_expanded: false,
        has_children: false,
        label: "No changes"@,
        entry_indexes: Seq::empty(),
    }
}

/// The rows for some changes, with some directories opened.
pub open spec fn rows_for(
    entries: Seq<changes::StatusEntryView>,
    expanded: Set<Seq<char>>,
) -> Seq<status_tree::RowView> {
    if entries.len() == 0 {
        seq![no_changes()]
    } else {
        status_tree::top_rows(status_tree::entry_paths(entries), entries, expanded)
    }
}

/// The diff of a file as lines.
pub open spec fn diff_lines_of(d: Result<Seq<char>, Seq<char>>) -> Seq<Seq<char>> {
    decode::line_list(diff_text(d))
}

/// The text of a diff, or why there is none.
pub open spec fn diff_text(d: Result<Seq<char>, Seq<char>>) -> Seq<char> {
    match d {
        Ok(s) => s,
        Err(e) => "Failed to load diff: "@ + e,
    }
}

/// The diffs of the first `k` of some files, one under the other.
pub open spec fn stacked(
    paths: Seq<Seq<char>>,
    diffs: Seq<Result<Seq<char>, Seq<char>>>,
    k: int,
) -> Seq<Seq<char>>
    decreases k,
{
    if k <= 0 {
        Seq::empty()
    } else {
        stacked(paths, diffs, k - 1) + (if k > 1 {
            seq![Seq::<char>::empty()]
        } else {
            seq![]
        }) + seq!["=== "@ + paths[k - 1] + " ==="@] + if text::trimmed(
            diff_text(diffs[k - 1]),
        ).len() == 0 {
            seq!["No diff available"@]
        } else {
            diff_lines_of(diffs[k - 1])
        }
    }
}

/// What is shown where these diffs were loaded for the selected row.
pub open spec fn shown_diff(
    s: StatusState,
    diffs: Seq<Result<Seq<char>, Seq<char>>>,
) -> Seq<Seq<char>> {
    if s.row() is None {
        seq!["No selection"@]
    } else {
        let n = diffs.len();
        let lines = if n == 1 {
            diff_lines_of(diffs[0])
        } else {
            stacked(s.diff_paths(), diffs, n as int)
        };
        if lines.len() == 0 {
            seq!["No diff available"@]
        } else {
            lines
        }
    }
}

impl StatusState {
    /// The row that is selected.
    pub open spec fn row(self) -> Option<status_tree::RowView> {
        if self.selected_row < self.rows.len() {
            Some(self.rows[self.selected_row])
        } else {
            None
        }
    }

    /// The paths of the files whose diffs belong to the selected row.
    pub open spec fn diff_paths(self) -> Seq<Seq<char>> {
        match self.row() {
            Some(row) => Seq::new(
                row.entry_indexes.len(),
                |i: int| self.entries[row.entry_indexes[i] as int].path,
            ),
            None => Seq::empty(),
        }
    }

    /// The view with the rows for its changes and opened directories.
    pub open spec fn rebuilt(self) -> StatusState {
        StatusState { rows: rows_for(self.entries, self.expanded), ..self }
    }

    /// The row with a path, or the end.
    pub open spec fn row_with(self, path: Seq<char>, from: int) -> int
        decreases self.rows.len() - from,
    {
        if from >= self.rows.len() || self.rows[from].path == path {
            from
        } else {
            self.row_with(path, from + 1)
        }
    }

    /// The last row there is, or the first where there are none.
    pub open spec fn last_row(self) -> int {
        if self.rows.len() > 0 {
            self.rows.len() - 1
        } else {
            0
        }
    }

    /// The view with the row of a path selected, or with the selection kept among the rows.
    pub open spec fn restored(self, path: Seq<char>) -> StatusState {
        let i = self.row_with(path, 0);
        StatusState {
            selected_row: if i < self.rows.len() {
                i
            } else if self.selected_row <= self.last_row() {
                self.selected_row
            } else {
                self.last_row()
            },
            ..self
        }
    }

    /// The view before the diff of its selected row is loaded.
    pub open spec fn unloaded(self) -> StatusState {
        StatusState { diff_offset: 0, ..self }
    }

    pub open spec fn down(self, n: int) -> StatusState {
        if n > 0 && self.selected_row + 1 < self.rows.len() {
            StatusState {
                selected_row: if self.selected_row + n < self.rows.len() {
                    self.selected_row + n
                } else {
                    self.rows.len() - 1
                },
                ..self
            }.unloaded()
        } else {
            self
        }
    }

    pub open spec fn up(self, n: int) -> StatusState {
        if n > 0 && self.selected_row > 0 {
            StatusState {
                selected_row: if self.selected_row >= n {
                    self.selected_row - n
                } else {
                    0
                },
                ..self
            }.unloaded()
        } else {
            self
        }
    }

    /// The view with a directory opened where it was closed, and closed where it was opened.
    pub open spec fn toggled_dir(self, path: Seq<char>) -> StatusState {
        let expanded = if self.expanded.contains(path) {
            self.expanded.remove(path)
        } else {
            self.expanded.insert(path)
        };
        (StatusState { expanded, ..self }).rebuilt().restored(path).unloaded()
    }

    /// The view with the files of the selected row selected, or not any more where all were.
    pub open spec fn toggled_selection(self) -> StatusState {
        match self.row() {
            None => self,
            Some(row) => {
                let paths = paths_of(row.entry_indexes, self.entries);
                StatusState {
                    selected_paths: if selection_of(paths, self.selected_paths) is Full {
                        self.selected_paths.difference(paths.to_set())
                    } else {
                        self.selected_paths.union(paths.to_set())
                    },
                    ..self
                }
            },
        }
    }

    pub open spec fn opens(self) -> bool {
        self.row() matches Some(row) && row.is_dir && row.has_children
    }

    pub open spec fn activated(self) -> StatusState {
        if self.opens() {
            self.toggled_dir(self.row()->0.path).toggled_selection()
        } else {
            self.toggled_selection()
        }
    }

    pub open spec fn can_expand(self) -> bool {
        self.row() matches Some(row) && row.is_dir && row.has_children && !row.is_expanded
    }

    pub open spec fn expanded_row(self) -> StatusState {
        if self.can_expand() {
            let path = self.row()->0.path;
            (StatusState { expanded: self.expanded.insert(path), ..self }).rebuilt().restored(
                path,
            ).unloaded()
        } else {
            self
        }
    }

    pub open spec fn can_collapse(self) -> bool {
        self.row() matches Some(row) && row.is_dir && row.has_children && row.is_expanded
    }

    /// The directory in which the selected row is.
    pub open spec fn parent_dir(self) -> Option<Seq<char>> {
        match self.row() {
            Some(row) => text::before_last(row.path, '/'),
            None => None,
        }
    }

    pub open spec fn collapsed_row(self) -> StatusState {
        if self.can_collapse() {
            let path = self.row()->0.path;
            (StatusState { expanded: self.expanded.remove(path), ..self }).rebuilt().restored(
                path,
            ).unloaded()
        } else {
            match self.parent_dir() {
                Some(dir) => self.restored(dir).unloaded(),
                None => self,
            }
        }
    }
}

/// The view of some changes as it is opened: all directories are opened, and the first row is
/// selected. Its diff is still to be loaded.
pub open spec fn opened(
    l: commit_list::ListStateView,
    entries: Seq<changes::StatusEntryView>,
) -> StatusState {
    StatusState {
        list: Some(l),
        entries,
        rows: rows_for(entries, directories(entries)),
        selected_row: 0,
        diff: Seq::empty(),
        file_offset: 0,
        diff_offset: 0,
        expanded: directories(entries),
        focus: FocusArea::Files,
        selected_paths: Set::empty(),
    }
}

/// What is asked for where files are to be discarded or committed. `paths` are the selected ones,
/// in order.
pub open spec fn workflow_event(commit: bool, paths: Seq<Seq<char>>) -> event::AppEventView {
    if paths.len() == 0 {
        event::AppEventView::NotifyError(
            if commit {
                "No selected paths to commit"@
            } else {
                "No selected paths to discard"@
            },
        )
    } else {
        event::AppEventView::RunWorkflowAction(
            if commit {
                workflow::ActionView::StatusCommit { paths }
            } else {
                workflow::ActionView::StatusDiscard { paths }
            },
        )
    }
}

/// Whether an event asks for the selected files to be discarded or committed.
pub open spec fn asks_workflow(
    e: Option<event::AppEventView>,
    commit: bool,
    selected: Set<Seq<char>>,
) -> bool {
    exists|paths: Seq<Seq<char>>|
        sets::ascending(paths) && paths.to_set() == selected && e == Some(
            #[trigger] workflow_event(commit, paths),
        )
}

/// What the keys that go to the files do: the view afterwards, and whether a diff is to be loaded.
pub open spec fn files_step(s: StatusState, e: UserEvent, count: int) -> (StatusState, bool) {
    match e {
        UserEvent::NavigateDown | UserEvent::SelectDown => (
            s.down(count),
            count > 0 && s.selected_row + 1 < s.rows.len(),
        ),
        UserEvent::NavigateUp | UserEvent::SelectUp => (s.up(count), count > 0 && s.selected_row > 0),
        UserEvent::GoToTop => ((StatusState { selected_row: 0, ..s }).unloaded(), true),
        UserEvent::GoToBottom => if s.rows.len() > 0 {
            ((StatusState { selected_row: s.rows.len() - 1, ..s }).unloaded(), true)
        } else {
            (s, false)
        },
        UserEvent::NavigateRight => (s.expanded_row(), s.can_expand()),
        UserEvent::NavigateLeft => (s.collapsed_row(), s.can_collapse() || s.parent_dir() is Some),
        UserEvent::Confirm | UserEvent::StatusToggle => (s.activated(), s.opens()),
        _ => (s, false),
    }
}

/// What is sent for a refresh.
pub open spec fn refresh_event(s: StatusState) -> event::AppEventView {
    event::AppEventView::Refresh(
        context::RefreshView::Status {
            list_context: context::context_of(s.list->0),
            status_context: StatusRefreshViewContext { selected: s.selected_row as usize },
        },
    )
}

/// Whether the view answers an event so: its state afterwards, what it sends, and whether a diff is
/// to be loaded.
pub open spec fn answers(
    s: StatusState,
    e: UserEvent,
    count: int,
    key: Key,
    t: StatusState,
    sent: Option<event::AppEventView>,
    load_diff: bool,
) -> bool {
    if key.is_forward() || key.is_reverse() {
        &&& t == (StatusState { focus: focus_after(s.focus, key.is_reverse()), ..s })
        &&& sent is None
        &&& !load_diff
    } else {
        match e {
            UserEvent::Quit => t == s && sent == Some(event::AppEventView::Quit) && !load_diff,
            UserEvent::Cancel | UserEvent::Close => t == s && sent == Some(
                event::AppEventView::CloseStatus,
            ) && !load_diff,
            UserEvent::HelpToggle => t == s && sent == Some(event::AppEventView::OpenHelp)
                && !load_diff,
            UserEvent::Refresh => t == s && sent == Some(refresh_event(s)) && !load_diff,
            UserEvent::StatusCommit => t == s && asks_workflow(sent, true, s.selected_paths)
                && !load_diff,
            UserEvent::StatusDiscard => t == s && asks_workflow(sent, false, s.selected_paths)
                && !load_diff,
            _ => match s.focus {
                FocusArea::Files => (t, load_diff) == files_step(s, e, count) && sent is None,
                FocusArea::DiscardButton => t == s && !load_diff && if e == UserEvent::Confirm {
                    asks_workflow(sent, false, s.selected_paths)
                } else {
                    sent is None
                },
                FocusArea::CommitButton => t == s && !load_diff && if e == UserEvent::Confirm {
                    asks_workflow(sent, true, s.selected_paths)
                } else {
                    sent is None
                },
            },
        }
    }
}

impl<'a> View for StatusView<'a> {
    type V = StatusState;

    closed spec fn view(&self) -> StatusState {
        StatusState {
            list: commit_list::opt_list(self.commit_list_state),
            entries: changes::entry_views(self.entries@),
            rows: status_tree::row_views(self.tree_rows@),
            selected_row: self.selected_row as int,
            diff: text::texts(self.diff_lines@),
            file_offset: self.file_offset as int,
            diff_offset: self.diff_offset as int,
            expanded: self.expanded_dirs@,
            focus: self.focus,
            selected_paths: self.selected_paths@,
        }
    }
}

impl<'a> StatusView<'a> {
    /// The rows are those of the changes with the opened directories.
    pub closed spec fn wf(&self) -> bool {
        &&& self.commit_list_state matches Some(l) ==> l.wf()
        &&& self.expanded_dirs.wf()
        &&& self.selected_paths.wf()
        &&& self@.rows == rows_for(self@.entries, self@.expanded)
    }

    /// The rows are those of the changes with the opened directories, and name these changes only.
    pub proof fn rows_are_current(&self)
        requires
            self.wf(),
        ensures
            self@.rows == rows_for(self@.entries, self@.expanded),
            status_tree::point_within(self@.rows, self@.entries.len() as int),
            0 <= self@.selected_row <= usize::MAX,
            self@.entries.len() <= usize::MAX,
    {
        let n = self@.entries.len() as int;
        assert(self.entries.len() == self.entries@.len());
        if n > 0 {
            let tree = status_tree::tree_of(status_tree::entry_paths(self@.entries), n);
            status_tree::trees_hold_their_paths_only(
                status_tree::entry_paths(self@.entries),
                n,
                n,
            );
            status_tree::rows_point_within(
                tree,
                tree.children.len() as int,
                Seq::empty(),
                Seq::empty(),
                true,
                (status_tree::Drawing { entries: self@.entries, expanded: self@.expanded }),
                n,
            );
        } else {
            assert(no_changes().entry_indexes.len() == 0);
        }
    }

    /// The view of some changes: all directories are opened, and the first row is selected. Its
    /// diff is still to be loaded.
    pub fn new(commit_list_state: CommitListState<'a>, entries: Vec<StatusEntry>) -> (r: StatusView<
        'a,
    >)
        requires
            commit_list_state.wf(),
        ensures
            r.wf(),
            r@ == opened(commit_list_state@, changes::entry_views(entries@)),
    {
        let expanded_dirs = collect_directory_paths(&entries);
        let mut view = StatusView {
            commit_list_state: Some(commit_list_state),
            entries,
            tree_rows: Vec::new(),
            selected_row: 0,
            diff_lines: Vec::new(),
            file_offset: 0,
            diff_offset: 0,
            expanded_dirs,
            focus: FocusArea::Files,
            selected_paths: TextSet::new(),
        };
        view.rebuild_tree_rows();
        assert(view@.diff =~= Seq::<Seq<char>>::empty());
        view
    }

    /// Answers what the user asks for.
    pub fn handle_event(&mut self, event_with_count: UserEventWithCount, key: Key) -> (r:
        StatusReply)
        requires
            old(self).wf(),
            event_with_count.event == UserEvent::Refresh && !key.is_forward() && !key.is_reverse()
                ==> old(self)@.list is Some && (old(self)@.list->0).cursor.on_item(),
        ensures
            final(self).wf(),
            answers(
                old(self)@,
                event_with_count.event,
                event_with_count.count as int,
                key,
                final(self)@,
                event::opt_event(r.event),
                r.load_diff,
            ),
    {
        if is_forward_tab(key) || is_reverse_tab(key) {
            self.cycle_focus(is_reverse_tab(key));
            return StatusReply { event: None, load_diff: false };
        }
        match event_with_count.event {
            UserEvent::Quit => StatusReply { event: Some(AppEvent::Quit), load_diff: false },
            UserEvent::Cancel | UserEvent::Close => StatusReply {
                event: Some(AppEvent::CloseStatus),
                load_diff: false,
            },
            UserEvent::HelpToggle => StatusReply {
                event: Some(AppEvent::OpenHelp),
                load_diff: false,
            },
            UserEvent::Refresh => StatusReply { event: Some(self.refresh()), load_diff: false },
            UserEvent::StatusCommit => StatusReply {
                event: Some(self.commit_selected()),
                load_diff: false,
            },
            UserEvent::StatusDiscard => StatusReply {
                event: Some(self.discard_selected()),
                load_diff: false,
            },
            _ => self.handle_focus_event(event_with_count),
        }
    }

    /// The list of commits, which the view gives back.
    pub fn take_list_state(&mut self) -> (r: CommitListState<'a>)
        requires
            old(self).wf(),
            old(self)@.list is Some,
        ensures
            final(self).wf(),
            r.wf(),
            r@ == old(self)@.list->0,
            final(self)@ == (StatusState { list: None, ..old(self)@ }),
    {
        let mut taken: Option<CommitListState<'a>> = None;
        std::mem::swap(&mut taken, &mut self.commit_list_state);
        taken.unwrap()
    }

    /// The list of commits, where the view still has it.
    pub fn list_state(&self) -> (r: Option<&CommitListState<'a>>)
        requires
            self.wf(),
        ensures
            match r {
                Some(l) => l.wf() && self@.list == Some(l@),
                None => self@.list is None,
            },
    {
        self.commit_list_state.as_ref()
    }

    /// The list of commits, where the view still has it, of a view that is to go.
    pub fn into_list_state(self) -> (r: Option<CommitListState<'a>>)
        requires
            self.wf(),
        ensures
            match r {
                Some(l) => l.wf() && self@.list == Some(l@),
                None => self@.list is None,
            },
    {
        self.commit_list_state
    }

    pub fn as_list_state(&self) -> (r: &CommitListState<'a>)
        requires
            self.wf(),
            self@.list is Some,
        ensures
            r.wf(),
            r@ == self@.list->0,
    {
        self.commit_list_state.as_ref().unwrap()
    }

    pub fn captures_text_input(&self) -> (r: bool)
        ensures
            !r,
    {
        false
    }

    /// Selects the row that was selected before the changes were read anew. Its diff is still to be
    /// loaded.
    pub fn reset_status_with(&mut self, ctx: StatusRefreshViewContext)
        requires
            old(self).wf(),
        ensures
            final(self).wf(),
            final(self)@ == old(self)@.reset_to(ctx.selected as int),
    {
        if self.entries.len() == 0 {
            self.selected_row = 0;
            self.file_offset = 0;
        } else {
            let last = if self.tree_rows.len() > 0 {
                self.tree_rows.len() - 1
            } else {
                0
            };
            self.selected_row = if ctx.selected <= last {
                ctx.selected
            } else {
                last
            };
            self.file_offset = if self.selected_row > 0 {
                self.selected_row - 1
            } else {
                0
            };
        }
        self.rebuild_tree_rows();
        if self.selected_row >= self.tree_rows.len() {
            self.selected_row = if self.tree_rows.len() > 0 {
                self.tree_rows.len() - 1
            } else {
                0
            };
        }
        self.diff_offset = 0;
    }

    pub fn refresh(&self) -> (r: AppEvent)
        requires
            self.wf(),
            self@.list is Some,
            (self@.list->0).cursor.on_item(),
        ensures
            r@ == refresh_event(self@),
    {
        let list_context = ListRefreshViewContext::from_list(self.as_list_state());
        let status_context = StatusRefreshViewContext { selected: self.selected_row };
        AppEvent::Refresh(RefreshViewContext::Status { list_context, status_context })
    }

    fn handle_focus_event(&mut self, event_with_count: UserEventWithCount) -> (r: StatusReply)
        requires
            old(self).wf(),
        ensures
            final(self).wf(),
            ({
                let s = old(self)@;
                let e = event_with_count.event;
                let sent = event::opt_event(r.event);
                match s.focus {
                    FocusArea::Files => (final(self)@, r.load_diff) == files_step(
                        s,
                        e,
                        event_with_count.count as int,
                    ) && sent is None,
                    FocusArea::DiscardButton => final(self)@ == s && !r.load_diff && if e
                        == UserEvent::Confirm {
                        asks_workflow(sent, false, s.selected_paths)
                    } else {
                        sent is None
                    },
                    FocusArea::CommitButton => final(self)@ == s && !r.load_diff && if e
                        == UserEvent::Confirm {
                        asks_workflow(sent, true, s.selected_paths)
                    } else {
                        sent is None
                    },
                }
            }),
    {
        let e = event_with_count.event;
        match self.focus {
            FocusArea::Files => {
                let load_diff = self.handle_files_event(e, event_with_count.count);
                StatusReply { event: None, load_diff }
            },
            FocusArea::DiscardButton => {
                if e == UserEvent::Confirm {
                    StatusReply { event: Some(self.discard_selected()), load_diff: false }
                } else {
                    StatusReply { event: None, load_diff: false }
                }
            },
            FocusArea::CommitButton => {
                if e == UserEvent::Confirm {
                    StatusReply { event: Some(self.commit_selected()), load_diff: false }
                } else {
                    StatusReply { event: None, load_diff: false }
                }
            },
        }
    }

    fn handle_files_event(&mut self, e: UserEvent, count: usize) -> (r: bool)
        requires
            old(self).wf(),
        ensures
            final(self).wf(),
            (final(self)@, r) == files_step(old(self)@, e, count as int),
    {
        match e {
            UserEvent::NavigateDown | UserEvent::SelectDown => self.select_next(count),
            UserEvent::NavigateUp | UserEvent::SelectUp => self.select_prev(count),
            UserEvent::GoToTop => {
                self.selected_row = 0;
                self.diff_offset = 0;
                true
            },
            UserEvent::GoToBottom => {
                if self.tree_rows.len() > 0 {
                    self.selected_row = self.tree_rows.len() - 1;
                    self.diff_offset = 0;
                    true
                } else {
                    false
                }
            },
            UserEvent::NavigateRight => self.expand_selected_dir(),
            UserEvent::NavigateLeft => self.collapse_selected_dir(),
            UserEvent::Confirm | UserEvent::StatusToggle => self.activate_selected(),
            _ => false,
        }
    }

    fn cycle_focus(&mut self, reverse: bool)
        requires
            old(self).wf(),
        ensures
            final(self).wf(),
            final(self)@ == (StatusState {
                focus: focus_after(old(self)@.focus, reverse),
                ..old(self)@
            }),
    {
        self.focus = next_focus(self.focus, reverse);
    }

    /// Selects the row some rows down, and says whether the selection has moved.
    fn select_next(&mut self, count: usize) -> (r: bool)
        requires
            old(self).wf(),
        ensures
            final(self).wf(),
            final(self)@ == old(self)@.down(count as int),
            r == (count > 0 && old(self)@.selected_row + 1 < old(self)@.rows.len()),
    {
        let rows = self.tree_rows.len();
        if count == 0 || rows == 0 || self.selected_row >= rows - 1 {
            return false;
        }
        let left = rows - 1 - self.selected_row;
        self.selected_row = if count <= left {
            self.selected_row + count
        } else {
            rows - 1
        };
        self.diff_offset = 0;
        true
    }

    /// Selects the row some rows up, and says whether the selection has moved.
    fn select_prev(&mut self, count: usize) -> (r: bool)
        requires
            old(self).wf(),
        ensures
            final(self).wf(),
            final(self)@ == old(self)@.up(count as int),
            r == (count > 0 && old(self)@.selected_row > 0),
    {
        if count == 0 || self.selected_row == 0 {
            return false;
        }
        self.selected_row = if self.selected_row >= count {
            self.selected_row - count
        } else {
            0
        };
        self.diff_offset = 0;
        true
    }

    /// Opens or closes the selected directory, and selects its files or the selected file.
    fn activate_selected(&mut self) -> (r: bool)
        requires
            old(self).wf(),
        ensures
            final(self).wf(),
            final(self)@ == old(self)@.activated(),
            r == old(self)@.opens(),
    {
        if self.selected_row >= self.tree_rows.len() {
            return false;
        }
        let i = self.selected_row;
        assert(self@.rows[i as int] == self.tree_rows@[i as int]@);
        let opens = self.tree_rows[i].is_dir && self.tree_rows[i].has_children;
        if opens {
            let path = self.tree_rows[i].path.clone();
            self.toggle_dir_expanded(path);
        }
        self.toggle_selected();
        opens
    }

    fn toggle_selected(&mut self)
        requires
            old(self).wf(),
        ensures
            final(self).wf(),
            final(self)@ == old(self)@.toggled_selection(),
    {
        if self.selected_row >= self.tree_rows.len() {
            return;
        }
        let i = self.selected_row;
        let ghost before = self@;
        assert(before.rows[i as int] == self.tree_rows@[i as int]@);
        let paths = row_entry_paths(&self.tree_rows[i], &self.entries);
        let ghost all = text::texts(paths@);
        let state = selection_state_for_row(
            &self.tree_rows[i],
            &self.entries,
            &self.selected_paths,
        );
        let full = match state {
            SelectionState::Full => true,
            _ => false,
        };
        let mut k: usize = 0;
        proof {
            assert(all.take(0).to_set() =~= Set::<Seq<char>>::empty());
            assert(before.selected_paths.difference(Set::empty()) =~= before.selected_paths);
            assert(before.selected_paths.union(Set::empty()) =~= before.selected_paths);
        }
        while k < paths.len()
            invariant
                k <= paths@.len(),
                self.wf(),
                all == text::texts(paths@),
                self@ == (StatusState { selected_paths: self@.selected_paths, ..before }),
                full ==> self@.selected_paths == before.selected_paths.difference(
                    all.take(k as int).to_set(),
                ),
                !full ==> self@.selected_paths == before.selected_paths.union(
                    all.take(k as int).to_set(),
                ),
            decreases paths@.len() - k,
        {
            let ghost now = self@.selected_paths;
            let ghost path = paths@[k as int]@;
            proof {
                let a = all.take(k as int);
                let b = all.take(k + 1);
                assert(b =~= a.push(path));
                assert(b.to_set() =~= a.to_set().insert(path)) by {
                    assert forall|p: Seq<char>| b.contains(p) <==> a.contains(p) || p == path by {
                        if a.contains(p) {
                            let j = choose|j: int| 0 <= j < a.len() && a[j] == p;
                            assert(b[j] == p);
                        }
                        assert(b[k as int] == path);
                        if b.contains(p) {
                            let j = choose|j: int| 0 <= j < b.len() && b[j] == p;
                            if j < k {
                                assert(a[j] == p);
                            }
                        }
                    }
                }
            }
            if full {
                self.selected_paths.remove(paths[k].as_str());
                assert(self@.selected_paths =~= before.selected_paths.difference(
                    all.take(k + 1).to_set(),
                ));
            } else {
                self.selected_paths.insert(paths[k].clone());
                assert(self@.selected_paths =~= before.selected_paths.union(
                    all.take(k + 1).to_set(),
                ));
            }
            k = k + 1;
        }
        assert(all.take(k as int) =~= all);
    }

    fn discard_selected(&self) -> (r: AppEvent)
        requires
            self.wf(),
        ensures
            asks_workflow(Some(r@), false, self@.selected_paths),
    {
        let paths = selected_paths(&self.selected_paths);
        let ghost all = text::texts(paths@);
        let r = if paths.len() == 0 {
            AppEvent::NotifyError("No selected paths to discard".to_string())
        } else {
            AppEvent::RunWorkflowAction(WorkflowAction::StatusDiscard { paths })
        };
        assert(r@ == workflow_event(false, all));
        r
    }

    fn commit_selected(&self) -> (r: AppEvent)
        requires
            self.wf(),
        ensures
            asks_workflow(Some(r@), true, self@.selected_paths),
    {
        let paths = selected_paths(&self.selected_paths);
        let ghost all = text::texts(paths@);
        let r = if paths.len() == 0 {
            AppEvent::NotifyError("No selected paths to commit".to_string())
        } else {
            AppEvent::RunWorkflowAction(WorkflowAction::StatusCommit { paths })
        };
        assert(r@ == workflow_event(true, all));
        r
    }

    pub fn has_selected_entries(&self) -> (r: bool)
        ensures
            r == (self@.selected_paths != Set::<Seq<char>>::empty()),
    {
        !self.selected_paths.is_empty()
    }

    fn rebuild_tree_rows(&mut self)
        requires
            old(self).commit_list_state matches Some(l) ==> l.wf(),
            old(self).expanded_dirs.wf(),
            old(self).selected_paths.wf(),
        ensures
            final(self).wf(),
            final(self)@ == old(self)@.rebuilt(),
            final(self).commit_list_state == old(self).commit_list_state,
            final(self).entries == old(self).entries,
    {
        let ghost before = self@;
        let mut rows: Vec<TreeRow> = Vec::new();
        assert(status_tree::row_views(rows@) =~= Seq::<status_tree::RowView>::empty());
        if self.entries.len() == 0 {
            let row = TreeRow {
                path: String::new(),
                is_dir: false,
                is_expanded: false,
                has_children: false,
                label: "No changes".to_string(),
                entry_indexes: Vec::new(),
            };
            assert(row@.path =~= Seq::<char>::empty());
            assert(row@.entry_indexes =~= Seq::<usize>::empty());
            assert(status_tree::row_views(rows@.push(row)) =~= seq![row@]);
            rows.push(row);
        } else {
            let root = status_tree::build_tree(&self.entries);
            proof {
                status_tree::trees_hold_their_paths_only(
                    status_tree::entry_paths(before.entries),
                    before.entries.len() as int,
                    before.entries.len() as int,
                );
                status_tree::whole_trees_are_drawable(
                    status_tree::tree_view(root),
                    ""@,
                    self.expanded_dirs@,
                    before.entries.len() as int,
                );
                status_tree::tree_children(root);
                reveal_strlit("");
                assert(""@ =~= Seq::<char>::empty());
            }
            status_tree::build_tree_rows(
                &mut rows,
                &root,
                "",
                "",
                true,
                &self.entries,
                &self.expanded_dirs,
            );
            assert(status_tree::row_views(rows@) =~= rows_for(before.entries, before.expanded));
        }
        self.tree_rows = rows;
    }

    /// The entries whose diffs are to be loaded for the selected row.
    pub fn diff_entries(&self) -> (r: Vec<&StatusEntry>)
        requires
            self.wf(),
        ensures
            r@.len() == self@.diff_paths().len(),
            forall|i: int|
                0 <= i < r@.len() ==> (#[trigger] r@[i])@
                    == self@.entries[self@.row()->0.entry_indexes[i] as int],
    {
        let mut r: Vec<&StatusEntry> = Vec::new();
        proof {
            self.rows_are_current();
        }
        if self.selected_row >= self.tree_rows.len() {
            return r;
        }
        let row = &self.tree_rows[self.selected_row];
        assert(self@.rows[self.selected_row as int] == row@);
        let mut i: usize = 0;
        while i < row.entry_indexes.len()
            invariant
                i <= row.entry_indexes@.len(),
                r@.len() == i,
                self.selected_row < self.tree_rows@.len(),
                self@.rows[self.selected_row as int] == row@,
                status_tree::point_within(self@.rows, self@.entries.len() as int),
                forall|j: int|
                    0 <= j < i ==> (#[trigger] r@[j])@
                        == self@.entries[row.entry_indexes@[j] as int],
            decreases row.entry_indexes@.len() - i,
        {
            let index = row.entry_indexes[i];
            assert(self@.rows[self.selected_row as int].entry_indexes[i as int]
                < self@.entries.len());
            r.push(&self.entries[index]);
            i = i + 1;
        }
        r
    }

    /// Shows the diffs that were loaded for the selected row, one for each of its files.
    pub fn set_diffs(&mut self, diffs: Vec<Result<String, String>>)
        requires
            old(self).wf(),
            diffs@.len() == old(self)@.diff_paths().len(),
        ensures
            final(self).wf(),
            final(self)@ == (StatusState {
                diff: shown_diff(old(self)@, changes::outcome_views(diffs@)),
                diff_offset: 0,
                ..old(self)@
            }),
    {
        let ghost before = self@;
        let ghost want = shown_diff(before, changes::outcome_views(diffs@));
        let mut lines: Vec<String> = Vec::new();
        assert(text::texts(lines@) =~= Seq::<Seq<char>>::empty());
        if self.selected_row >= self.tree_rows.len() {
            lines.push("No selection".to_string());
            assert(text::texts(lines@) =~= want);
        } else {
            assert(before.rows[self.selected_row as int] == self.tree_rows@[self.selected_row as int]@);
            if diffs.len() == 1 {
                lines = decode::lines(diff_content(&diffs[0]).as_str());
            } else {
                lines = self.stack_diffs(&diffs);
            }
            if lines.len() == 0 {
                lines.push("No diff available".to_string());
                assert(text::texts(lines@) =~= seq!["No diff available"@]);
            }
        }
        self.diff_lines = lines;
        self.diff_offset = 0;
    }

    /// The diffs of the files of the selected row, one under the other.
    fn stack_diffs(&self, diffs: &Vec<Result<String, String>>) -> (r: Vec<String>)
        requires
            self.wf(),
            self@.row() is Some,
            diffs@.len() == self@.diff_paths().len(),
        ensures
            text::texts(r@) == stacked(
                self@.diff_paths(),
                changes::outcome_views(diffs@),
                diffs@.len() as int,
            ),
    {
        let entries = self.diff_entries();
        let ghost paths = self@.diff_paths();
        let ghost all = changes::outcome_views(diffs@);
        let mut lines: Vec<String> = Vec::new();
        let mut i: usize = 0;
        assert(text::texts(lines@) =~= Seq::<Seq<char>>::empty());
        while i < diffs.len()
            invariant
                i <= diffs@.len(),
                entries@.len() == diffs@.len(),
                paths.len() == diffs@.len(),
                all == changes::outcome_views(diffs@),
                forall|j: int|
                    0 <= j < entries@.len() ==> (#[trigger] entries@[j])@.path == paths[j],
                text::texts(lines@) == stacked(paths, all, i as int),
            decreases diffs@.len() - i,
        {
            let ghost now = text::texts(lines@);
            if i > 0 {
                let blank = String::new();
                proof {
                    text::texts_push(lines@, blank);
                    assert(blank@ =~= Seq::<char>::empty());
                }
                lines.push(blank);
            }
            let mut head = "=== ".to_string();
            head.append(entries[i].path.as_str());
            head.append(" ===");
            assert(head@ == "=== "@ + paths[i as int] + " ==="@) by {
                assert(entries@[i as int]@.path == paths[i as int]);
            }
            proof {
                text::texts_push(lines@, head);
            }
            lines.push(head);
            let diff = diff_content(&diffs[i]);
            assert(diff@ == diff_text(all[i as int]));
            let mut more = if text::byte_len(text::trim(diff.as_str()).as_str()) == 0 {
                let mut none: Vec<String> = Vec::new();
                none.push("No diff available".to_string());
                assert(text::texts(none@) =~= seq!["No diff available"@]);
                none
            } else {
                decode::lines(diff.as_str())
            };
            proof {
                text::texts_add(lines@, more@);
            }
            lines.append(&mut more);
            assert(text::texts(lines@) =~= stacked(paths, all, i + 1));
            i = i + 1;
        }
        lines
    }

    fn toggle_dir_expanded(&mut self, path: String)
        requires
            old(self).wf(),
        ensures
            final(self).wf(),
            final(self)@ == old(self)@.toggled_dir(path@),
    {
        let ghost before = self@;
        if !self.expanded_dirs.insert(path.clone()) {
            self.expanded_dirs.remove(path.as_str());
            assert(self.expanded_dirs@ =~= before.expanded.remove(path@));
        }
        self.rebuild_tree_rows();
        self.restore_selected_path(path.as_str());
        self.diff_offset = 0;
    }

    /// Opens the selected directory, and says whether it was closed.
    fn expand_selected_dir(&mut self) -> (r: bool)
        requires
            old(self).wf(),
        ensures
            final(self).wf(),
            final(self)@ == old(self)@.expanded_row(),
            r == old(self)@.can_expand(),
    {
        if self.selected_row >= self.tree_rows.len() {
            return false;
        }
        let row = &self.tree_rows[self.selected_row];
        assert(self@.rows[self.selected_row as int] == row@);
        if !(row.is_dir && row.has_children) || row.is_expanded {
            return false;
        }
        let path = row.path.clone();
        self.expanded_dirs.insert(path.clone());
        self.rebuild_tree_rows();
        self.restore_selected_path(path.as_str());
        self.diff_offset = 0;
        true
    }

    /// Closes the selected directory, or goes to the directory in which the selected row is, and
    /// says whether there was one.
    fn collapse_selected_dir(&mut self) -> (r: bool)
        requires
            old(self).wf(),
        ensures
            final(self).wf(),
            final(self)@ == old(self)@.collapsed_row(),
            r == (old(self)@.can_collapse() || old(self)@.parent_dir() is Some),
    {
        if self.selected_row >= self.tree_rows.len() {
            return false;
        }
        let row = &self.tree_rows[self.selected_row];
        assert(self@.rows[self.selected_row as int] == row@);
        if row.is_dir && row.has_children && row.is_expanded {
            let path = row.path.clone();
            self.expanded_dirs.remove(path.as_str());
            self.rebuild_tree_rows();
            self.restore_selected_path(path.as_str());
            self.diff_offset = 0;
            return true;
        }
        match text::front_before_last(row.path.as_str(), '/') {
            Some(parent_path) => {
                self.restore_selected_path(parent_path.as_str());
                self.diff_offset = 0;
                true
            },
            None => false,
        }
    }

    fn restore_selected_path(&mut self, path: &str)
        requires
            old(self).wf(),
        ensures
            final(self).wf(),
            final(self)@ == old(self)@.restored(path@),
    {
        let mut i: usize = 0;
        while i < self.tree_rows.len() && !text::same(self.tree_rows[i].path.as_str(), path)
            invariant
                i <= self.tree_rows@.len(),
                self@ == old(self)@,
                self.wf(),
                self@.row_with(path@, 0) == self@.row_with(path@, i as int),
            decreases self.tree_rows@.len() - i,
        {
            assert(self@.rows[i as int] == self.tree_rows@[i as int]@);
            i = i + 1;
        }
        if i < self.tree_rows.len() {
            assert(self@.rows[i as int] == self.tree_rows@[i as int]@);
            self.selected_row = i;
        } else {
            let last = if self.tree_rows.len() > 0 {
                self.tree_rows.len() - 1
            } else {
                0
            };
            if self.selected_row > last {
                self.selected_row = last;
            }
        }
    }
}

/// The text of a diff, or why there is none.
fn diff_content(diff: &Result<String, String>) -> (r: String)
    ensures
        r@ == diff_text(commands::text_outcome(*diff)),
{
    match diff {
        Ok(s) => s.clone(),
        Err(e) => text::concat("Failed to load diff: ", e.as_str()),
    }
}

impl StatusState {
    /// The view after the changes were read anew.
    pub open spec fn reset_to(self, selected: int) -> StatusState {
        let row = if self.entries.len() == 0 {
            0
        } else if selected <= self.last_row() {
            selected
        } else {
            self.last_row()
        };
        let s = (StatusState {
            selected_row: row,
            file_offset: if self.entries.len() > 0 && row > 0 {
                row - 1
            } else {
                0
            },
            ..self
        }).rebuilt();
        (StatusState {
            selected_row: if s.selected_row >= s.rows.len() {
                s.last_row()
            } else {
                s.selected_row
            },
            ..s
        }).unloaded()
    }
}

// ---------------------------------------------------------------------------------------------
// Drawing

/// How many rows a framed area of a height has room for.
pub open spec fn rows_inside(area_height: int) -> int {
    if area_height >= 2 {
        area_height - 2
    } else {
        0
    }
}

/// How many of `total` lines are seen from an offset on in a window.
pub open spec fn seen(total: int, offset: int, visible: int) -> nat {
    if offset >= total {
        0
    } else if total - offset <= visible {
        (total - offset) as nat
    } else {
        visible as nat
    }
}

/// The line of a row.
pub open spec fn tree_line(s: StatusState, i: int, theme: ColorTheme) -> span::SpanView {
    let row = s.rows[i];
    let is_cursor = i == s.cursor_row();
    let state = selection_of(paths_of(row.entry_indexes, s.entries), s.selected_paths);
    let mark = if row.entry_indexes.len() == 0 {
        "   "@
    } else {
        marker(state)
    };
    span::SpanView {
        content: (if is_cursor {
            "›"@
        } else {
            " "@
        }) + " "@ + mark + " "@ + row.label,
        style: Style {
            fg: if is_cursor {
                Some(files_frame_color(s.focus, theme))
            } else if row.entry_indexes.len() > 0 {
                Some(change_color(row.entry_indexes, s.entries, theme))
            } else {
                None
            },
            bg: if is_cursor {
                Some(
                    if s.focus == FocusArea::Files {
                        theme.ref_selected_bg
                    } else {
                        theme.bg
                    },
                )
            } else {
                None
            },
            bold: row.is_dir || state != SelectionState::Unselected,
        },
    }
}

/// The colour of the frame around the files.
pub open spec fn files_frame_color(focus: FocusArea, theme: ColorTheme) -> Color {
    if focus == FocusArea::Files {
        theme.ref_selected_fg
    } else {
        theme.divider_fg
    }
}

/// The lines of the rows that are seen.
pub open spec fn tree_lines(s: StatusState, visible: int, theme: ColorTheme) -> Seq<span::SpanView> {
    Seq::new(
        seen(s.rows.len() as int, s.file_offset, visible),
        |k: int| tree_line(s, s.file_offset + k, theme),
    )
}

/// How a line of a diff is drawn.
pub open spec fn diff_style(line: Seq<char>, theme: ColorTheme) -> Style {
    if text::begins(line, "+"@) && !text::begins(line, "+++"@) {
        span::colored(theme.status_success_fg, false)
    } else if text::begins(line, "-"@) && !text::begins(line, "---"@) {
        span::colored(theme.status_error_fg, false)
    } else if text::begins(line, "@@"@) {
        span::colored(theme.detail_label_fg, false)
    } else {
        span::plain()
    }
}

/// The lines of the diff that are seen.
pub open spec fn diff_window(s: StatusState, visible: int, theme: ColorTheme) -> Seq<span::SpanView> {
    Seq::new(
        seen(s.diff.len() as int, s.diff_offset, visible),
        |k: int|
            span::SpanView {
                content: s.diff[s.diff_offset + k],
                style: diff_style(s.diff[s.diff_offset + k], theme),
            },
    )
}

impl StatusState {
    /// The row on which the cursor is drawn.
    pub open spec fn cursor_row(self) -> int {
        if self.selected_row <= self.last_row() {
            self.selected_row
        } else {
            self.last_row()
        }
    }

    /// The view with the rows moved so that the cursor is among those that are seen.
    pub open spec fn scrolled(self, visible: int) -> StatusState {
        StatusState {
            file_offset: if self.cursor_row() < self.file_offset {
                self.cursor_row()
            } else if visible > 0 && self.cursor_row() >= self.file_offset + visible {
                self.cursor_row() - (visible - 1)
            } else {
                self.file_offset
            },
            ..self
        }
    }

    /// The view with the diff moved back to where it fills the window.
    pub open spec fn diff_scrolled(self, visible: int) -> StatusState {
        let most = if self.diff.len() >= visible {
            self.diff.len() - visible
        } else {
            0
        };
        StatusState {
            diff_offset: if self.diff_offset <= most {
                self.diff_offset
            } else {
                most
            },
            ..self
        }
    }

    /// What stands above the diff.
    pub open spec fn diff_heading(self) -> Seq<char> {
        if self.rows.len() == 0 {
            "Diff"@
        } else {
            let row = self.rows[self.cursor_row()];
            "Diff "@ + row.path + " ("@ + numerals::decimal(row.entry_indexes.len()) + ")"@
        }
    }
}

/// How a line of a diff is drawn.
pub fn style_diff_line(line: &str, color_theme: &ColorTheme) -> (r: Span)
    ensures
        r@ == (span::SpanView { content: line@, style: diff_style(line@, *color_theme) }),
{
    let style = if text::starts_with(line, "+") && !text::starts_with(line, "+++") {
        Style::colored(color_theme.status_success_fg, false)
    } else if text::starts_with(line, "-") && !text::starts_with(line, "---") {
        Style::colored(color_theme.status_error_fg, false)
    } else if text::starts_with(line, "@@") {
        Style::colored(color_theme.detail_label_fg, false)
    } else {
        Style::plain()
    };
    Span::styled(line.to_string(), style)
}

/// The colours of a button: of its label, and of its frame.
#[derive(Debug, Clone, Copy, PartialEq, Eq, Structural)]
pub struct ButtonColors {
    pub label: Color,
    pub frame: Color,
}

/// The colours of a button.
pub fn button_colors(
    focused: bool,
    enabled: bool,
    enabled_fg: Color,
    color_theme: &ColorTheme,
) -> (r: ButtonColors)
    ensures
        r == (ButtonColors {
            label: if enabled {
                enabled_fg
            } else {
                color_theme.divider_fg
            },
            frame: if focused {
                color_theme.ref_selected_fg
            } else {
                color_theme.divider_fg
            },
        }),
{
    ButtonColors {
        label: if enabled {
            enabled_fg
        } else {
            color_theme.divider_fg
        },
        frame: if focused {
            color_theme.ref_selected_fg
        } else {
            color_theme.divider_fg
        },
    }
}

fn inside(area_height: u16) -> (r: usize)
    ensures
        r == rows_inside(area_height as int),
{
    if area_height >= 2 {
        (area_height - 2) as usize
    } else {
        0
    }
}

impl<'a> StatusView<'a> {
    fn drawn_row(&self) -> (r: usize)
        ensures
            r == self@.cursor_row(),
    {
        if self.tree_rows.len() == 0 {
            0
        } else if self.selected_row < self.tree_rows.len() {
            self.selected_row
        } else {
            self.tree_rows.len() - 1
        }
    }

    /// The rows that are seen in a framed area of this height, after the view was moved so that the
    /// cursor is among them.
    pub fn render_file_tree(&mut self, area_height: u16, color_theme: &ColorTheme) -> (r: Vec<Span>)
        requires
            old(self).wf(),
        ensures
            final(self).wf(),
            final(self)@ == old(self)@.scrolled(rows_inside(area_height as int)),
            span::span_views(r@) == tree_lines(
                final(self)@,
                rows_inside(area_height as int),
                *color_theme,
            ),
    {
        let visible_height = inside(area_height);
        let selected_row = self.drawn_row();
        if selected_row < self.file_offset {
            self.file_offset = selected_row;
        } else if visible_height > 0 && selected_row - self.file_offset >= visible_height {
            self.file_offset = selected_row - (visible_height - 1);
        }
        let mut lines: Vec<Span> = Vec::new();
        let mut i: usize = self.file_offset;
        while i < self.tree_rows.len() && i - self.file_offset < visible_height
            invariant
                self.wf(),
                self@ == old(self)@.scrolled(visible_height as int),
                self.file_offset <= i,
                i <= self.tree_rows@.len() || i == self.file_offset,
                lines@.len() == i - self.file_offset,
                lines@.len() <= visible_height,
                selected_row == self@.cursor_row(),
                forall|k: int|
                    0 <= k < lines@.len() ==> (#[trigger] lines@[k])@ == tree_line(
                        self@,
                        self.file_offset + k,
                        *color_theme,
                    ),
            decreases self.tree_rows@.len() - i,
        {
            let line = self.render_row(i, i == selected_row, color_theme);
            lines.push(line);
            i = i + 1;
        }
        assert(span::span_views(lines@) =~= tree_lines(
            self@,
            visible_height as int,
            *color_theme,
        ));
        lines
    }

    fn render_row(&self, i: usize, is_cursor: bool, color_theme: &ColorTheme) -> (r: Span)
        requires
            self.wf(),
            i < self@.rows.len(),
            is_cursor == (i == self@.cursor_row()),
        ensures
            r@ == tree_line(self@, i as int, *color_theme),
    {
        let row = &self.tree_rows[i];
        assert(self@.rows[i as int] == row@);
        let state = selection_state_for_row(row, &self.entries, &self.selected_paths);
        let mark = if row.entry_indexes.len() == 0 {
            "   "
        } else {
            selection_marker(state)
        };
        let mut content = if is_cursor {
            "›".to_string()
        } else {
            " ".to_string()
        };
        content.append(" ");
        content.append(mark);
        content.append(" ");
        content.append(row.label.as_str());
        let in_files = self.focus == FocusArea::Files;
        let fg = if is_cursor {
            Some(
                if in_files {
                    color_theme.ref_selected_fg
                } else {
                    color_theme.divider_fg
                },
            )
        } else if row.entry_indexes.len() > 0 {
            Some(status_color_for_indexes(&row.entry_indexes, &self.entries, color_theme))
        } else {
            None
        };
        let bg = if is_cursor {
            Some(
                if in_files {
                    color_theme.ref_selected_bg
                } else {
                    color_theme.bg
                },
            )
        } else {
            None
        };
        let selected = match state {
            SelectionState::Unselected => false,
            _ => true,
        };
        Span::styled(content, Style { fg, bg, bold: row.is_dir || selected })
    }

    /// What stands above the files.
    pub fn file_tree_title(&self) -> (r: String)
        ensures
            r@ == "Changes ["@ + numerals::decimal(self@.entries.len()) + "]"@,
    {
        let mut r = "Changes [".to_string();
        r.append(numerals::to_decimal(self.entries.len()).as_str());
        r.append("]");
        r
    }

    /// The colour of the frame around the files.
    pub fn file_tree_color(&self, color_theme: &ColorTheme) -> (r: Color)
        ensures
            r == files_frame_color(self@.focus, *color_theme),
    {
        if self.focus == FocusArea::Files {
            color_theme.ref_selected_fg
        } else {
            color_theme.divider_fg
        }
    }

    /// The lines of the diff that are seen in a framed area of this height, after the diff was moved
    /// back to where it fills the area.
    pub fn render_diff(&mut self, area_height: u16, color_theme: &ColorTheme) -> (r: Vec<Span>)
        requires
            old(self).wf(),
        ensures
            final(self).wf(),
            final(self)@ == old(self)@.diff_scrolled(rows_inside(area_height as int)),
            span::span_views(r@) == diff_window(
                final(self)@,
                rows_inside(area_height as int),
                *color_theme,
            ),
    {
        let visible_height = inside(area_height);
        let total = self.diff_lines.len();
        let most = if total >= visible_height {
            total - visible_height
        } else {
            0
        };
        if self.diff_offset > most {
            self.diff_offset = most;
        }
        let mut lines: Vec<Span> = Vec::new();
        let mut i: usize = self.diff_offset;
        while i < self.diff_lines.len() && i - self.diff_offset < visible_height
            invariant
                self.wf(),
                self@ == old(self)@.diff_scrolled(visible_height as int),
                self.diff_offset <= i <= self.diff_lines@.len(),
                lines@.len() == i - self.diff_offset,
                lines@.len() <= visible_height,
                forall|k: int|
                    0 <= k < lines@.len() ==> (#[trigger] lines@[k])@ == (span::SpanView {
                        content: self@.diff[self.diff_offset + k],
                        style: diff_style(self@.diff[self.diff_offset + k], *color_theme),
                    }),
            decreases self.diff_lines@.len() - i,
        {
            assert(self@.diff[i as int] == self.diff_lines@[i as int]@);
            lines.push(style_diff_line(self.diff_lines[i].as_str(), color_theme));
            i = i + 1;
        }
        assert(span::span_views(lines@) =~= diff_window(
            self@,
            visible_height as int,
            *color_theme,
        ));
        lines
    }

    /// What stands above the diff.
    pub fn diff_title(&self) -> (r: String)
        ensures
            r@ == self@.diff_heading(),
    {
        if self.tree_rows.len() == 0 {
            return "Diff".to_string();
        }
        let row = &self.tree_rows[self.drawn_row()];
        assert(self@.rows[self@.cursor_row()] == row@);
        let mut r = "Diff ".to_string();
        r.append(row.path.as_str());
        r.append(" (");
        r.append(numerals::to_decimal(row.entry_indexes.len()).as_str());
        r.append(")");
        r
    }

    /// The colours of the two buttons: of the one that discards, and of the one that commits.
    pub fn render_action_bar(&self, color_theme: &ColorTheme) -> (r: (ButtonColors, ButtonColors))
        ensures
            ({
                let enabled = self@.selected_paths != Set::<Seq<char>>::empty();
                let framed = |focused: bool|
                    if focused {
                        color_theme.ref_selected_fg
                    } else {
                        color_theme.divider_fg
                    };
                r == (
                    (ButtonColors {
                        label: if enabled {
                            color_theme.status_error_fg
                        } else {
                            color_theme.divider_fg
                        },
                        frame: framed(self@.focus == FocusArea::DiscardButton),
                    }),
                    (ButtonColors {
                        label: if enabled {
                            color_theme.status_success_fg
                        } else {
                            color_theme.divider_fg
                        },
                        frame: framed(self@.focus == FocusArea::CommitButton),
                    }),
                )
            }),
    {
        let enabled = self.has_selected_entries();
        (
            button_colors(
                self.focus == FocusArea::DiscardButton,
                enabled,
                color_theme.status_error_fg,
                color_theme,
            ),
            button_colors(
                self.focus == FocusArea::CommitButton,
                enabled,
                color_theme.status_success_fg,
                color_theme,
            ),
        )
    }
}

// ---------------------------------------------------------------------------------------------
// Laws

/// Where the window has room for a row, the cursor is on a row that is seen.
pub proof fn cursor_is_seen(s: StatusState, visible: int)
    requires
        visible > 0,
        s.rows.len() > 0,
        s.selected_row >= 0,
        s.file_offset >= 0,
    ensures
        ({
            let t = s.scrolled(visible);
            &&& t.file_offset >= 0
            &&& t.file_offset <= t.cursor_row() < t.file_offset + seen(
                t.rows.len() as int,
                t.file_offset,
                visible,
            )
        }),
{
}

/// Selecting a row selects all its files, or none where all were.
pub proof fn selecting_takes_all_or_none(s: StatusState)
    requires
        s.row() is Some,
    ensures
        ({
            let paths = paths_of(s.row()->0.entry_indexes, s.entries);
            let t = s.toggled_selection();
            selection_of(paths, t.selected_paths) == if selection_of(paths, s.selected_paths)
                is Full || paths.len() == 0 {
                SelectionState::Unselected
            } else {
                SelectionState::Full
            }
        }),
{
    let paths = paths_of(s.row()->0.entry_indexes, s.entries);
    let t = s.toggled_selection();
    assert forall|i: int| 0 <= i < paths.len() implies paths.to_set().contains(
        #[trigger] paths[i],
    ) by {}
    if paths.len() > 0 {
        assert(paths.to_set().contains(paths[0]));
    }
}

/// Selecting a row of which nothing was selected, and selecting it again, changes nothing.
pub proof fn selecting_twice_undoes(s: StatusState)
    requires
        s.row() is Some,
        selection_of(paths_of(s.row()->0.entry_indexes, s.entries), s.selected_paths)
            is Unselected,
    ensures
        s.toggled_selection().toggled_selection() == s,
{
    selecting_takes_all_or_none(s);
    let paths = paths_of(s.row()->0.entry_indexes, s.entries);
    let t = s.toggled_selection();
    assert(t.row() == s.row());
    if paths.len() > 0 {
        assert(t.toggled_selection().selected_paths =~= s.selected_paths);
    } else {
        assert(t.selected_paths =~= s.selected_paths);
        assert(t.toggled_selection().selected_paths =~= s.selected_paths);
    }
}

/// Going down and up again by as many rows comes back, where there are as many rows below.
pub proof fn up_undoes_down(s: StatusState, n: int)
    requires
        0 <= n,
        0 <= s.selected_row,
        s.selected_row + n < s.rows.len(),
    ensures
        s.down(n).up(n).selected_row == s.selected_row,
{
}

/// The first row with a path that some row has.
proof fn row_with_finds(s: StatusState, path: Seq<char>, from: int, j: int)
    requires
        0 <= from <= j < s.rows.len(),
        s.rows[j].path == path,
    ensures
        from <= s.row_with(path, from) <= j,
        s.rows[s.row_with(path, from)].path == path,
    decreases j - from,
{
    if s.rows[from].path != path {
        row_with_finds(s, path, from + 1, j);
    }
}

/// Opening or closing the selected row keeps it selected, and doing so twice gives the same rows
/// again. No path of a change begins with a slash.
pub proof fn folding_keeps_the_selection(s: StatusState)
    requires
        s.rows == rows_for(s.entries, s.expanded),
        0 <= s.selected_row < s.rows.len(),
        forall|i: int|
            0 <= i < s.entries.len() ==> !text::begins((#[trigger] s.entries[i]).path, "/"@),
    ensures
        ({
            let path = s.rows[s.selected_row].path;
            let t = s.toggled_dir(path);
            &&& t.row() matches Some(row)
            &&& row.path == path
            &&& t.expanded.contains(path) != s.expanded.contains(path)
            &&& t.toggled_dir(path).rows == s.rows
        }),
{
    let path = s.rows[s.selected_row].path;
    let t = s.toggled_dir(path);
    let expanded = if s.expanded.contains(path) {
        s.expanded.remove(path)
    } else {
        s.expanded.insert(path)
    };
    let mid = (StatusState { expanded, ..s }).rebuilt();
    if s.entries.len() == 0 {
        row_with_finds(mid, path, 0, s.selected_row);
    } else {
        let paths = status_tree::entry_paths(s.entries);
        let j = status_tree::folding_keeps_row(
            paths,
            s.entries,
            s.expanded,
            expanded,
            s.selected_row,
        );
        row_with_finds(mid, path, 0, j);
    }
    let again = if expanded.contains(path) {
        expanded.remove(path)
    } else {
        expanded.insert(path)
    };
    assert(again =~= s.expanded);
}

proof fn dirs_are_joined(parts: Seq<Seq<char>>, k: int)
    requires
        1 <= k <= parts.len(),
        parts[0].len() > 0,
    ensures
        dir_of(parts, k) == text::joined(parts.take(k), seq!['/']),
        dir_of(parts, k).len() > 0,
    decreases k,
{
    reveal_strlit("/");
    assert("/"@ =~= seq!['/']);
    let front = parts.take(k);
    assert(front.last() == parts[k - 1]);
    if k == 1 {
        assert(dir_of(parts, 0) == Seq::<char>::empty());
        assert(front[0] == parts[0]);
    } else {
        dirs_are_joined(parts, k - 1);
        assert(front.drop_last() =~= parts.take(k - 1));
    }
}

/// At first each changed file has a row of its own, with its path.
pub proof fn every_change_is_shown(
    l: commit_list::ListStateView,
    entries: Seq<changes::StatusEntryView>,
    x: int,
) -> (i: int)
    requires
        status_tree::are_paths(status_tree::entry_paths(entries)),
        0 <= x < entries.len(),
    ensures
        0 <= i < opened(l, entries).rows.len(),
        opened(l, entries).rows[i].path == entries[x].path,
        !opened(l, entries).rows[i].is_dir,
        opened(l, entries).rows[i].entry_indexes == seq![x as usize],
{
    let path = entries[x].path;
    assert(status_tree::entry_paths(entries)[x] == path);
    let expanded = directories(entries);
    assert forall|dir: Seq<char>| #[trigger]
        text::begins(path, dir + seq!['/']) implies expanded.contains(dir) by {
        let head = dir + seq!['/'];
        let tail = path.skip(head.len() as int);
        assert(path.subrange(0, head.len() as int) == head);
        assert(path =~= head + tail);
        let parts = text::pieces(path, '/');
        let names = text::pieces(dir, '/');
        text::pieces_add_up(dir, tail, '/');
        text::pieces_nonempty(dir, '/');
        text::pieces_nonempty(tail, '/');
        text::pieces_join_back(dir, '/');
        let k = names.len() as int;
        assert(parts.take(k) =~= names);
        if dir.len() == 0 {
            assert(path[0] == head[0]);
        }
        if names[0].len() == 0 {
            if k == 1 {
                assert(text::joined(names, seq!['/']) == names[0]);
            } else {
                status_tree::first_piece_is_empty(dir, '/');
                assert(path[0] == head[0]);
            }
        }
        assert(parts[0] == names[0]);
        dirs_are_joined(parts, k);
        assert(dir == dir_of(parts, k));
        assert(leads_to(dir, path));
    }
    status_tree::every_file_has_a_row(entries, expanded, x)
}

/// Asked to commit or to discard, the view hands on the selected files, each once and no others,
/// and nothing where none is selected.
pub proof fn selected_files_are_handed_on(
    s: StatusState,
    e: UserEvent,
    count: int,
    key: Key,
    t: StatusState,
    sent: Option<event::AppEventView>,
    load_diff: bool,
    commit: bool,
)
    requires
        answers(s, e, count, key, t, sent, load_diff),
        key.code != KeyCode::Tab && key.code != KeyCode::BackTab,
        if commit {
            e == UserEvent::StatusCommit || (e == UserEvent::Confirm && s.focus
                == FocusArea::CommitButton)
        } else {
            e == UserEvent::StatusDiscard || (e == UserEvent::Confirm && s.focus
                == FocusArea::DiscardButton)
        },
    ensures
        t == s,
        !load_diff,
        (forall|p: Seq<char>| !s.selected_paths.contains(p)) ==> sent matches Some(
            event::AppEventView::NotifyError(_),
        ),
        (exists|p: Seq<char>| s.selected_paths.contains(p)) ==> (sent matches Some(
            event::AppEventView::RunWorkflowAction(action),
        ) && match action {
            workflow::ActionView::StatusCommit { paths } => commit && paths.no_duplicates()
                && forall|p: Seq<char>| paths.contains(p) <==> s.selected_paths.contains(p),
            workflow::ActionView::StatusDiscard { paths } => !commit && paths.no_duplicates()
                && forall|p: Seq<char>| paths.contains(p) <==> s.selected_paths.contains(p),
            _ => false,
        }),
{
    let paths = choose|paths: Seq<Seq<char>>|
        sets::ascending(paths) && paths.to_set() == s.selected_paths && sent == Some(
            #[trigger] workflow_event(commit, paths),
        );
    assert(asks_workflow(sent, commit, s.selected_paths));
    assert forall|p: Seq<char>| paths.contains(p) <==> s.selected_paths.contains(p) by {
        assert(paths.to_set().contains(p) <==> s.selected_paths.contains(p));
    }
    assert forall|i: int, j: int| 0 <= i < j < paths.len() implies paths[i] != paths[j] by {
        crate::order::precedes_irreflexive(paths[i]);
    }
    if paths.len() > 0 {
        assert(paths.contains(paths[0]));
    }
}

proof fn paths_of_are(indexes: Seq<usize>, entries: Seq<changes::StatusEntryView>, p: Seq<char>)
    ensures
        paths_of(indexes, entries).contains(p) <==> exists|i: int|
            0 <= i < indexes.len() && #[trigger] indexes[i] < entries.len()
                && entries[indexes[i] as int].path == p,
    decreases indexes.len(),
{
    if indexes.len() > 0 {
        let front = indexes.drop_last();
        let rest = paths_of(front, entries);
        let all = paths_of(indexes, entries);
        paths_of_are(front, entries, p);
        let here = indexes.last() < entries.len() && entries[indexes.last() as int].path == p;
        assert(all.contains(p) <==> rest.contains(p) || here) by {
            if rest.contains(p) {
                let i = choose|i: int| 0 <= i < rest.len() && rest[i] == p;
                assert(all[i] == p);
            }
            if here {
                assert(all[rest.len() as int] == p);
            }
            if all.contains(p) {
                let i = choose|i: int| 0 <= i < all.len() && all[i] == p;
                if i < rest.len() {
                    assert(rest[i] == p);
                }
            }
        }
        if rest.contains(p) {
            let i = choose|i: int|
                0 <= i < front.len() && #[trigger] front[i] < entries.len()
                    && entries[front[i] as int].path == p;
            assert(indexes[i] == front[i]);
        }
        if exists|i: int|
            0 <= i < indexes.len() && #[trigger] indexes[i] < entries.len()
                && entries[indexes[i] as int].path == p {
            let i = choose|i: int|
                0 <= i < indexes.len() && #[trigger] indexes[i] < entries.len()
                    && entries[indexes[i] as int].path == p;
            if i < front.len() {
                assert(front[i] == indexes[i]);
            }
        }
    }
}

proof fn toggling_takes(s: StatusState, q: Seq<char>)
    requires
        s.row() is Some,
    ensures
        ({
            let paths = paths_of(s.row()->0.entry_indexes, s.entries);
            let all = forall|p: Seq<char>| #[trigger]
                paths.contains(p) ==> s.selected_paths.contains(p);
            s.toggled_selection().selected_paths.contains(q) <==> if paths.contains(q) {
                !all
            } else {
                s.selected_paths.contains(q)
            }
        }),
{
    let paths = paths_of(s.row()->0.entry_indexes, s.entries);
    let full = selection_of(paths, s.selected_paths) is Full;
    let all = forall|p: Seq<char>| #[trigger] paths.contains(p) ==> s.selected_paths.contains(p);
    assert(paths.to_set().contains(q) <==> paths.contains(q));
    if paths.contains(q) {
        if all {
            assert(s.selected_paths.contains(paths[0])) by {
                assert(paths.contains(paths[0]));
            }
            assert forall|i: int| 0 <= i < paths.len() implies s.selected_paths.contains(
                #[trigger] paths[i],
            ) by {
                assert(paths.contains(paths[i]));
            }
            assert(full);
        } else {
            let p = choose|p: Seq<char>| #[trigger]
                paths.contains(p) && !s.selected_paths.contains(p);
            let i = choose|i: int| 0 <= i < paths.len() && paths[i] == p;
            assert(!s.selected_paths.contains(paths[i]));
            assert(!full);
        }
    }
}

/// Toggled, the row of a file selects that file where it was not selected, lets it go where it
/// was, and touches no other.
pub proof fn files_are_toggled(
    s: StatusState,
    e: UserEvent,
    count: int,
    key: Key,
    t: StatusState,
    sent: Option<event::AppEventView>,
    load_diff: bool,
    q: Seq<char>,
)
    requires
        answers(s, e, count, key, t, sent, load_diff),
        key.code != KeyCode::Tab && key.code != KeyCode::BackTab,
        e == UserEvent::StatusToggle || e == UserEvent::Confirm,
        s.focus == FocusArea::Files,
        s.entries.len() > 0,
        s.rows == rows_for(s.entries, s.expanded),
        status_tree::are_paths(status_tree::entry_paths(s.entries)),
        0 <= s.selected_row < s.rows.len(),
        !s.rows[s.selected_row].is_dir,
    ensures
        t.selected_paths.contains(q) <==> (if q == s.rows[s.selected_row].path {
            !s.selected_paths.contains(q)
        } else {
            s.selected_paths.contains(q)
        }),
        t.rows == s.rows,
        t.selected_row == s.selected_row,
        sent is None,
{
    let x = status_tree::file_rows_are_files(s.entries, s.expanded, s.selected_row);
    let row = s.rows[s.selected_row];
    let paths = paths_of(row.entry_indexes, s.entries);
    assert forall|p: Seq<char>| #[trigger] paths.contains(p) <==> p == row.path by {
        paths_of_are(row.entry_indexes, s.entries, p);
        assert(row.entry_indexes[0] == x as usize);
    }
    toggling_takes(s, q);
    assert(paths.contains(row.path));
}

/// Toggled, the row of a directory selects all changed files below the directory, or lets them all
/// go where all were selected, touches no other file, and opens or closes the directory.
pub proof fn directories_are_toggled(
    s: StatusState,
    e: UserEvent,
    count: int,
    key: Key,
    t: StatusState,
    sent: Option<event::AppEventView>,
    load_diff: bool,
    q: Seq<char>,
)
    requires
        answers(s, e, count, key, t, sent, load_diff),
        key.code != KeyCode::Tab && key.code != KeyCode::BackTab,
        e == UserEvent::StatusToggle || e == UserEvent::Confirm,
        s.focus == FocusArea::Files,
        s.entries.len() > 0,
        s.rows == rows_for(s.entries, s.expanded),
        status_tree::are_paths(status_tree::entry_paths(s.entries)),
        0 <= s.selected_row < s.rows.len(),
        s.rows[s.selected_row].is_dir,
        s.rows[s.selected_row].has_children,
    ensures
        ({
            let dir = s.rows[s.selected_row].path;
            let below = |i: int|
                0 <= i < s.entries.len() && text::begins(s.entries[i].path, dir + seq!['/']);
            let all = forall|i: int| #[trigger]
                below(i) ==> s.selected_paths.contains(s.entries[i].path);
            &&& t.selected_paths.contains(q) <==> if exists|i: int| #[trigger]
                below(i) && s.entries[i].path == q {
                !all
            } else {
                s.selected_paths.contains(q)
            }
            &&& t.expanded.contains(q) <==> if q == dir {
                !s.expanded.contains(q)
            } else {
                s.expanded.contains(q)
            }
            &&& t.row() matches Some(row)
            &&& row.path == dir
        }),
        sent is None,
        load_diff,
{
    let row = s.rows[s.selected_row];
    let dir = row.path;
    let below = |i: int|
        0 <= i < s.entries.len() && text::begins(s.entries[i].path, dir + seq!['/']);
    let all = forall|i: int| #[trigger]
        below(i) ==> s.selected_paths.contains(s.entries[i].path);
    let entry_paths = status_tree::entry_paths(s.entries);
    status_tree::slashes_come_later(entry_paths);
    assert forall|i: int| 0 <= i < s.entries.len() implies !text::begins(
        (#[trigger] s.entries[i]).path,
        "/"@,
    ) by {
        assert(entry_paths[i] == s.entries[i].path);
    }
    folding_keeps_the_selection(s);
    let u = s.toggled_dir(dir);
    let k = u.selected_row;
    assert(0 <= k) by {
        row_with_stays(
            (StatusState {
                expanded: if s.expanded.contains(dir) {
                    s.expanded.remove(dir)
                } else {
                    s.expanded.insert(dir)
                },
                ..s
            }).rebuilt(),
            dir,
            0,
        );
    }
    status_tree::rows_with_one_path_are_alike(
        s.entries,
        s.expanded,
        u.expanded,
        s.selected_row,
        k,
    );
    let paths = paths_of(row.entry_indexes, s.entries);
    assert forall|p: Seq<char>| #[trigger] paths.contains(p) <==> exists|i: int| #[trigger]
        below(i) && s.entries[i].path == p by {
        paths_of_are(row.entry_indexes, s.entries, p);
        if paths.contains(p) {
            let j = choose|j: int|
                0 <= j < row.entry_indexes.len() && #[trigger] row.entry_indexes[j]
                    < s.entries.len() && s.entries[row.entry_indexes[j] as int].path == p;
            let i = row.entry_indexes[j] as int;
            assert(row.entry_indexes.contains(i as usize));
            status_tree::directory_rows_hold_what_is_below(
                s.entries,
                s.expanded,
                s.selected_row,
                i,
            );
            assert(below(i));
        }
        if exists|i: int| #[trigger] below(i) && s.entries[i].path == p {
            let i = choose|i: int| #[trigger] below(i) && s.entries[i].path == p;
            status_tree::directory_rows_hold_what_is_below(
                s.entries,
                s.expanded,
                s.selected_row,
                i,
            );
            let j = choose|j: int|
                0 <= j < row.entry_indexes.len() && row.entry_indexes[j] == i as usize;
            assert(row.entry_indexes[j] < s.entries.len());
        }
    }
    toggling_takes(u, q);
    let every = forall|p: Seq<char>| #[trigger] paths.contains(p) ==> s.selected_paths.contains(p);
    if every {
        assert forall|i: int| #[trigger] below(i) implies s.selected_paths.contains(
            s.entries[i].path,
        ) by {
            assert(paths.contains(s.entries[i].path));
        }
    } else {
        let p = choose|p: Seq<char>| #[trigger]
            paths.contains(p) && !s.selected_paths.contains(p);
        let i = choose|i: int| #[trigger] below(i) && s.entries[i].path == p;
        assert(!all);
    }
}

proof fn row_with_stays(s: StatusState, path: Seq<char>, from: int)
    requires
        0 <= from,
    ensures
        from <= s.row_with(path, from),
    decreases s.rows.len() - from,
{
    if from < s.rows.len() && s.rows[from].path != path {
        row_with_stays(s, path, from + 1);
    }
}

/// Tab goes from the files to the discard button, from there to the commit button, and from there
/// to the files; back tab, and tab with shift, go the other way round. Nothing else changes.
pub proof fn tabs_go_round(
    s: StatusState,
    e: UserEvent,
    count: int,
    key: Key,
    t: StatusState,
    sent: Option<event::AppEventView>,
    load_diff: bool,
)
    requires
        answers(s, e, count, key, t, sent, load_diff),
        key.code == KeyCode::Tab || key.code == KeyCode::BackTab,
    ensures
        ({
            let back = key.code == KeyCode::BackTab || key.modifiers.shift;
            let (from, to) = if back {
                (t.focus, s.focus)
            } else {
                (s.focus, t.focus)
            };
            ||| from == FocusArea::Files && to == FocusArea::DiscardButton
            ||| from == FocusArea::DiscardButton && to == FocusArea::CommitButton
            ||| from == FocusArea::CommitButton && to == FocusArea::Files
        }),
        t == (StatusState { focus: t.focus, ..s }),
        sent is None,
        !load_diff,
{
}

/// What leaves the view, or asks for help or for fresh changes, is passed on wherever the keys go,
/// and leaves the view as it is.
pub proof fn leaving_is_passed_on(
    s: StatusState,
    e: UserEvent,
    count: int,
    key: Key,
    t: StatusState,
    sent: Option<event::AppEventView>,
    load_diff: bool,
)
    requires
        answers(s, e, count, key, t, sent, load_diff),
        key.code != KeyCode::Tab && key.code != KeyCode::BackTab,
    ensures
        e == UserEvent::Quit <==> sent == Some(event::AppEventView::Quit),
        e == UserEvent::Cancel || e == UserEvent::Close <==> sent == Some(
            event::AppEventView::CloseStatus,
        ),
        e == UserEvent::HelpToggle <==> sent == Some(event::AppEventView::OpenHelp),
        e == UserEvent::Refresh <==> (sent matches Some(
            event::AppEventView::Refresh(context::RefreshView::Status { .. }),
        )),
        sent is Some ==> t == s && !load_diff,
{
}

/// The keys that move go over the rows of the files: by the number of rows that was given, no
/// further than the first and the last, and the diff of the row they come to is loaded.
pub proof fn moves_select_rows(
    s: StatusState,
    e: UserEvent,
    count: int,
    key: Key,
    t: StatusState,
    sent: Option<event::AppEventView>,
    load_diff: bool,
)
    requires
        answers(s, e, count, key, t, sent, load_diff),
        key.code != KeyCode::Tab && key.code != KeyCode::BackTab,
        s.focus == FocusArea::Files,
        0 <= s.selected_row < s.rows.len(),
        count >= 0,
        e == UserEvent::NavigateDown || e == UserEvent::SelectDown || e == UserEvent::NavigateUp
            || e == UserEvent::SelectUp || e == UserEvent::GoToTop || e == UserEvent::GoToBottom,
    ensures
        ({
            let last = s.rows.len() - 1;
            match e {
                UserEvent::NavigateDown | UserEvent::SelectDown => if s.selected_row + count
                    <= last {
                    t.selected_row == s.selected_row + count
                } else {
                    t.selected_row == last
                },
                UserEvent::NavigateUp | UserEvent::SelectUp => if count <= s.selected_row {
                    t.selected_row == s.selected_row - count
                } else {
                    t.selected_row == 0
                },
                UserEvent::GoToTop => t.selected_row == 0,
                _ => t.selected_row == last,
            }
        }),
        t.selected_row != s.selected_row ==> load_diff && t.diff_offset == 0,
        t == (StatusState { selected_row: t.selected_row, diff_offset: t.diff_offset, ..s }),
        sent is None,
{
}

proof fn restored_finds(s: StatusState, path: Seq<char>, j: int)
    requires
        0 <= j < s.rows.len(),
        s.rows[j].path == path,
    ensures
        s.restored(path).row() matches Some(row) && row.path == path,
{
    row_with_finds(s, path, 0, j);
}

/// The key to the right opens the directory of the row, and leaves alone what is open already or
/// is no directory. The cursor stays with the directory.
pub proof fn right_opens(
    s: StatusState,
    count: int,
    key: Key,
    t: StatusState,
    sent: Option<event::AppEventView>,
    load_diff: bool,
)
    requires
        answers(s, UserEvent::NavigateRight, count, key, t, sent, load_diff),
        key.code != KeyCode::Tab && key.code != KeyCode::BackTab,
        s.focus == FocusArea::Files,
        s.rows == rows_for(s.entries, s.expanded),
        s.entries.len() > 0,
        status_tree::are_paths(status_tree::entry_paths(s.entries)),
        0 <= s.selected_row < s.rows.len(),
    ensures
        ({
            let row = s.rows[s.selected_row];
            if row.is_dir && row.has_children && !row.is_expanded {
                &&& t.expanded == s.expanded.insert(row.path)
                &&& t.rows == rows_for(s.entries, t.expanded)
                &&& t.row() matches Some(now)
                &&& now.path == row.path
                &&& load_diff
            } else {
                t == s && !load_diff
            }
        }),
        t.selected_paths == s.selected_paths,
        sent is None,
{
    let row = s.rows[s.selected_row];
    let paths = status_tree::entry_paths(s.entries);
    status_tree::slashes_come_later(paths);
    if row.is_dir && row.has_children && !row.is_expanded {
        let after = s.expanded.insert(row.path);
        let j = status_tree::folding_keeps_row(
            paths,
            s.entries,
            s.expanded,
            after,
            s.selected_row,
        );
        restored_finds((StatusState { expanded: after, ..s }).rebuilt(), row.path, j);
    }
}

/// The key to the left closes the directory of the row where it is open. From any other row it goes
/// up to the directory that the row is in.
pub proof fn left_closes(
    s: StatusState,
    count: int,
    key: Key,
    t: StatusState,
    sent: Option<event::AppEventView>,
    load_diff: bool,
    dir: Seq<char>,
    name: Seq<char>,
    j: int,
)
    requires
        answers(s, UserEvent::NavigateLeft, count, key, t, sent, load_diff),
        key.code != KeyCode::Tab && key.code != KeyCode::BackTab,
        s.focus == FocusArea::Files,
        s.rows == rows_for(s.entries, s.expanded),
        s.entries.len() > 0,
        status_tree::are_paths(status_tree::entry_paths(s.entries)),
        0 <= s.selected_row < s.rows.len(),
    ensures
        ({
            let row = s.rows[s.selected_row];
            if row.is_dir && row.has_children && row.is_expanded {
                &&& t.expanded == s.expanded.remove(row.path)
                &&& t.rows == rows_for(s.entries, t.expanded)
                &&& t.row() matches Some(now)
                &&& now.path == row.path
                &&& load_diff
            } else {
                &&& t.expanded == s.expanded
                &&& t.rows == s.rows
                &&& !row.path.contains('/') ==> t == s && !load_diff
                &&& row.path == dir + seq!['/'] + name && !name.contains('/') && 0 <= j
                    < s.rows.len() && s.rows[j].path == dir ==> (t.row() matches Some(now)
                    && now.path == dir && load_diff)
            }
        }),
        t.selected_paths == s.selected_paths,
        sent is None,
{
    let row = s.rows[s.selected_row];
    let paths = status_tree::entry_paths(s.entries);
    status_tree::slashes_come_later(paths);
    if row.is_dir && row.has_children && row.is_expanded {
        let after = s.expanded.remove(row.path);
        let k = status_tree::folding_keeps_row(
            paths,
            s.entries,
            s.expanded,
            after,
            s.selected_row,
        );
        restored_finds((StatusState { expanded: after, ..s }).rebuilt(), row.path, k);
    } else {
        if !row.path.contains('/') {
            text::plain_texts_are_one_piece(row.path, '/');
        }
        if row.path == dir + seq!['/'] + name && !name.contains('/') && 0 <= j < s.rows.len()
            && s.rows[j].path == dir {
            text::plain_texts_are_one_piece(name, '/');
            text::pieces_add_up(dir, name, '/');
            text::pieces_nonempty(dir, '/');
            text::pieces_join_back(dir, '/');
            assert(text::pieces(row.path, '/').drop_last() =~= text::pieces(dir, '/'));
            restored_finds(s, dir, j);
        }
    }
}

proof fn stacked_holds(
    paths: Seq<Seq<char>>,
    diffs: Seq<Result<Seq<char>, Seq<char>>>,
    k: int,
    i: int,
    line: Seq<char>,
)
    requires
        0 <= i < k,
        line == "=== "@ + paths[i] + " ==="@ || (text::trimmed(diff_text(diffs[i])).len() > 0
            && diff_lines_of(diffs[i]).contains(line)),
    ensures
        stacked(paths, diffs, k).contains(line),
    decreases k,
{
    let front = stacked(paths, diffs, k - 1);
    let gap = if k > 1 {
        seq![Seq::<char>::empty()]
    } else {
        seq![]
    };
    let head = seq!["=== "@ + paths[k - 1] + " ==="@];
    let own = if text::trimmed(diff_text(diffs[k - 1])).len() == 0 {
        seq!["No diff available"@]
    } else {
        diff_lines_of(diffs[k - 1])
    };
    let all = stacked(paths, diffs, k);
    assert(all == front + gap + head + own);
    if i < k - 1 {
        stacked_holds(paths, diffs, k - 1, i, line);
        let j = choose|j: int| 0 <= j < front.len() && front[j] == line;
        assert(all[j] == line);
    } else if line == "=== "@ + paths[i] + " ==="@ {
        assert(all[(front + gap).len() as int] == line);
    } else {
        let j = choose|j: int| 0 <= j < own.len() && own[j] == line;
        assert(all[(front + gap + head).len() + j] == line);
    }
}

/// Every line of every diff that was loaded for the row is shown, under the path of its file where
/// the row has several files.
pub proof fn loaded_diffs_are_shown(
    s: StatusState,
    diffs: Seq<Result<Seq<char>, Seq<char>>>,
    i: int,
    lines: Seq<Seq<char>>,
    k: int,
    c: char,
)
    requires
        0 <= s.selected_row < s.rows.len(),
        diffs.len() == s.rows[s.selected_row].entry_indexes.len(),
        0 <= i < diffs.len(),
        0 <= k < lines.len(),
        forall|j: int|
            0 <= j < lines.len() ==> !(#[trigger] lines[j]).contains('\n') && !lines[j].contains(
                '\r',
            ),
        diffs[i] == Ok::<Seq<char>, Seq<char>>(text::joined(lines, seq!['\n']) + seq!['\n']),
        (text::joined(lines, seq!['\n'])).contains(c) && !text::white(c),
    ensures
        shown_diff(s, diffs).contains(lines[k]),
        diffs.len() > 1 ==> shown_diff(s, diffs).contains(
            "=== "@ + s.entries[s.rows[s.selected_row].entry_indexes[i] as int].path + " ==="@,
        ),
{
    let whole = text::joined(lines, seq!['\n']) + seq!['\n'];
    let at = choose|at: int|
        0 <= at < text::joined(lines, seq!['\n']).len() && text::joined(lines, seq!['\n'])[at] == c;
    assert(whole[at] == c);
    text::dark_texts_stay(whole, c);
    assert forall|j: int| 0 <= j < lines.len() implies (#[trigger] lines[j]).len() == 0
        || lines[j].last() != '\r' by {
        if lines[j].len() > 0 {
            assert(lines[j][lines[j].len() - 1] == lines[j].last());
        }
    }
    decode::lines_are_read(lines, lines);
    assert(diff_lines_of(diffs[i])[k] == lines[k]);
    let paths = s.diff_paths();
    if diffs.len() > 1 {
        stacked_holds(paths, diffs, diffs.len() as int, i, lines[k]);
        stacked_holds(
            paths,
            diffs,
            diffs.len() as int,
            i,
            "=== "@ + paths[i] + " ==="@,
        );
    }
}

/// Where a diff could not be loaded, why not is shown.
pub proof fn failed_diffs_are_told(
    s: StatusState,
    diffs: Seq<Result<Seq<char>, Seq<char>>>,
    i: int,
    why: Seq<char>,
)
    requires
        0 <= s.selected_row < s.rows.len(),
        diffs.len() == s.rows[s.selected_row].entry_indexes.len(),
        0 <= i < diffs.len(),
        diffs[i] == Err::<Seq<char>, Seq<char>>(why),
        !why.contains('\n'),
    ensures
        shown_diff(s, diffs).contains("Failed to load diff: "@ + why),
{
    let line = "Failed to load diff: "@ + why;
    reveal_strlit("Failed to load diff: ");
    assert(line[0] == 'F');
    if line.contains('\n') {
        let j = choose|j: int| 0 <= j < line.len() && line[j] == '\n';
        let n = "Failed to load diff: "@.len();
        assert(j >= n);
        assert(why[j - n] == '\n');
    }
    text::dark_texts_stay(line, 'F');
    text::plain_texts_are_one_piece(line, '\n');
    assert(diff_lines_of(diffs[i])[0] == line);
    if diffs.len() > 1 {
        stacked_holds(s.diff_paths(), diffs, diffs.len() as int, i, line);
    }
}

/// A line that a diff adds, takes away or heads a hunk with stands out in its color. The two lines
/// that name the files do not, nor does any other.
pub proof fn changed_lines_stand_out(line: Seq<char>, theme: ColorTheme)
    requires
        line.len() > 2,
    ensures
        line[0] == '+' && !(line[1] == '+' && line[2] == '+') ==> diff_style(line, theme).fg == Some(
            theme.status_success_fg,
        ),
        line[0] == '-' && !(line[1] == '-' && line[2] == '-') ==> diff_style(line, theme).fg == Some(
            theme.status_error_fg,
        ),
        line[0] == '@' && line[1] == '@' ==> diff_style(line, theme).fg == Some(
            theme.detail_label_fg,
        ),
        line[0] == '+' && line[1] == '+' && line[2] == '+' ==> diff_style(line, theme).fg is None,
        line[0] == '-' && line[1] == '-' && line[2] == '-' ==> diff_style(line, theme).fg is None,
        line[0] != '+' && line[0] != '-' && line[0] != '@' ==> diff_style(line, theme).fg is None,
{
    reveal_strlit("+");
    reveal_strlit("+++");
    reveal_strlit("-");
    reveal_strlit("---");
    reveal_strlit("@@");
    assert(text::begins(line, "+"@) <==> line[0] == '+') by {
        assert(line.subrange(0, 1)[0] == line[0]);
        if line[0] == '+' {
            assert(line.subrange(0, 1) =~= "+"@);
        }
    }
    assert(text::begins(line, "-"@) <==> line[0] == '-') by {
        assert(line.subrange(0, 1)[0] == line[0]);
        if line[0] == '-' {
            assert(line.subrange(0, 1) =~= "-"@);
        }
    }
    assert(text::begins(line, "+++"@) <==> line[0] == '+' && line[1] == '+' && line[2] == '+') by {
        let front = line.subrange(0, 3);
        assert(front[0] == line[0] && front[1] == line[1] && front[2] == line[2]);
        if line[0] == '+' && line[1] == '+' && line[2] == '+' {
            assert(front =~= "+++"@);
        }
    }
    assert(text::begins(line, "---"@) <==> line[0] == '-' && line[1] == '-' && line[2] == '-') by {
        let front = line.subrange(0, 3);
        assert(front[0] == line[0] && front[1] == line[1] && front[2] == line[2]);
        if line[0] == '-' && line[1] == '-' && line[2] == '-' {
            assert(front =~= "---"@);
        }
    }
    assert(text::begins(line, "@@"@) <==> line[0] == '@' && line[1] == '@') by {
        let front = line.subrange(0, 2);
        assert(front[0] == line[0] && front[1] == line[1]);
        if line[0] == '@' && line[1] == '@' {
            assert(front =~= "@@"@);
        }
    }
}

/// The cursor is drawn at the selected row and at no other, and each row is marked by how many of
/// its files are selected: all, none, or some.
pub proof fn rows_are_marked(s: StatusState, i: int, theme: ColorTheme)
    requires
        0 <= i < s.rows.len(),
        0 <= s.selected_row < s.rows.len(),
        s.rows[i].entry_indexes.len() > 0,
        status_tree::point_within(s.rows, s.entries.len() as int),
    ensures
        ({
            let row = s.rows[i];
            let file = |j: int| s.entries[row.entry_indexes[j] as int].path;
            let all = forall|j: int|
                0 <= j < row.entry_indexes.len() ==> s.selected_paths.contains(#[trigger] file(j));
            let none = forall|j: int|
                0 <= j < row.entry_indexes.len() ==> !s.selected_paths.contains(#[trigger] file(j));
            tree_line(s, i, theme).content == (if i == s.selected_row {
                "› "@
            } else {
                "  "@
            }) + (if all {
                "[x]"@
            } else if none {
                "[ ]"@
            } else {
                "[/]"@
            }) + " "@ + row.label
        }),
{
    let row = s.rows[i];
    let file = |j: int| s.entries[row.entry_indexes[j] as int].path;
    let n = row.entry_indexes.len();
    let paths = paths_of(row.entry_indexes, s.entries);
    assert forall|j: int| 0 <= j < n implies paths.contains(#[trigger] file(j)) by {
        assert(s.rows[i].entry_indexes[j] < s.entries.len());
        assert(row.entry_indexes[j] < s.entries.len());
        paths_of_are(row.entry_indexes, s.entries, file(j));
    }
    assert forall|k: int|
        #![trigger paths[k]]
        0 <= k < paths.len() implies exists|j: int| 0 <= j < n && #[trigger] file(j) == paths[k] by {
        assert(paths.contains(paths[k]));
        paths_of_are(row.entry_indexes, s.entries, paths[k]);
        let j = choose|j: int|
            0 <= j < n && #[trigger] row.entry_indexes[j] < s.entries.len()
                && s.entries[row.entry_indexes[j] as int].path == paths[k];
        assert(file(j) == paths[k]);
    }
    let all = forall|j: int| 0 <= j < n ==> s.selected_paths.contains(#[trigger] file(j));
    let none = forall|j: int| 0 <= j < n ==> !s.selected_paths.contains(#[trigger] file(j));
    let every = forall|k: int|
        0 <= k < paths.len() ==> s.selected_paths.contains(#[trigger] paths[k]);
    let no = forall|k: int|
        0 <= k < paths.len() ==> !s.selected_paths.contains(#[trigger] paths[k]);
    assert(paths.contains(file(0)));
    assert(paths.len() > 0);
    if every && !all {
        let j = choose|j: int| 0 <= j < n && !s.selected_paths.contains(#[trigger] file(j));
        let k = choose|k: int| 0 <= k < paths.len() && paths[k] == file(j);
        assert(s.selected_paths.contains(paths[k]));
    }
    if no && !none {
        let j = choose|j: int| 0 <= j < n && s.selected_paths.contains(#[trigger] file(j));
        let k = choose|k: int| 0 <= k < paths.len() && paths[k] == file(j);
        assert(!s.selected_paths.contains(paths[k]));
    }
    assert(every == all);
    assert(no == none);
    assert(s.selected_paths.contains(paths[0]) || !s.selected_paths.contains(paths[0]));
    reveal_strlit("›");
    reveal_strlit(" ");
    reveal_strlit("› ");
    reveal_strlit("  ");
    assert("›"@ + " "@ =~= "› "@);
    assert(" "@ + " "@ =~= "  "@);
}

/// A refresh of the changes comes back to the row that was selected, or to the last one where there
/// are no longer as many.
pub proof fn refreshing_keeps_the_row(s: StatusState, selected: int)
    requires
        s.rows == rows_for(s.entries, s.expanded),
        s.entries.len() > 0,
        s.rows.len() > 0,
        selected >= 0,
    ensures
        selected < s.rows.len() ==> s.reset_to(selected).selected_row == selected,
        selected >= s.rows.len() ==> s.reset_to(selected).selected_row == s.rows.len() - 1,
        s.reset_to(selected).rows == s.rows,
        s.reset_to(selected).entries == s.entries,
        s.reset_to(selected).selected_paths == s.selected_paths,
{
}

/// What is asked of a refresh names the selected commit and the selected row.
pub proof fn refreshes_name_the_place(s: StatusState)
    requires
        s.list is Some,
        0 <= s.selected_row <= usize::MAX,
    ensures
        refresh_event(s) matches event::AppEventView::Refresh(
            context::RefreshView::Status { list_context, status_context },
        ) && list_context.commit_hash == (s.list->0).selected().commit.hash
            && status_context.selected == s.selected_row,
{
}

/// A deleted file stands out as such before a new one, and a new one before one that is changed.
pub proof fn changes_have_their_colors(
    x: usize,
    entries: Seq<changes::StatusEntryView>,
    theme: ColorTheme,
)
    requires
        x < entries.len(),
    ensures
        change_color(seq![x], entries, theme) == (if entries[x as int].deleted {
            theme.status_error_fg
        } else if entries[x as int].untracked {
            theme.status_success_fg
        } else {
            theme.list_ref_stash_fg
        }),
{
    let one = seq![x];
    assert(one[0] == x);
    if entries[x as int].deleted {
        assert(status_tree::any_entry(one, entries, status_tree::is_deleted()));
    }
    if entries[x as int].untracked {
        assert(status_tree::any_entry(one, entries, status_tree::is_untracked()));
    }
}

} // verus!
