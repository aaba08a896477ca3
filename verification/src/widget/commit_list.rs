//! The list of commits: what is selected in it, and what a search finds in it.

use std::rc::Rc;
use tui_input::Input;
use vstd::prelude::*;
use vstd::string::*;
use crate::color::{Color, ColorTheme};
use crate::git;
use crate::git::{CommitHash, Head};
use crate::input;
use crate::event::Key;
use crate::names::NameMap;
use crate::numerals;
use crate::span;
use crate::span::Span;
use crate::text;
use crate::widget::branch_visual::BranchVisuals;
use crate::widget::commit_row;
use crate::widget::commit_row::CommitInfo;
use crate::widget::cursor::Cursor;
use crate::widget::search;
use crate::widget::search::{SearchMatch, SearchMatcher, SearchState, TransientMessage};

verus! {

/// The list of commits.
#[derive(Debug)]
pub struct CommitListState<'a> {
    commits: Vec<CommitInfo<'a>>,
    commit_hash_set: NameMap<()>,
    graph_cell_width: u16,
    head: &'a Head,
    branch_visuals: Rc<BranchVisuals>,
    ref_name_to_commit_index_map: NameMap<usize>,
    search_state: SearchState,
    search_input: Input,
    search_matches: Vec<SearchMatch>,
    cursor: Cursor,
    default_ignore_case: bool,
    default_fuzzy: bool,
}

/// What a list of commits shows.
pub ghost struct ListStateView {
    pub infos: Seq<commit_row::InfoView>,
    pub graph_cell_width: u16,
    pub head: git::HeadView,
    pub visuals: BranchVisuals,
    pub ref_index: Map<Seq<char>, usize>,
    pub search_state: SearchState,
    pub input: input::InputView,
    pub matches: Seq<search::SearchMatchView>,
    pub cursor: Cursor,
    pub default_ignore_case: bool,
    pub default_fuzzy: bool,
}

/// What a list of commits with their references says.
pub open spec fn info_views(v: Seq<CommitInfo>) -> Seq<commit_row::InfoView> {
    Seq::new(v.len(), |i: int| v[i]@)
}

/// What a list of matches says.
pub open spec fn match_views(v: Seq<SearchMatch>) -> Seq<search::SearchMatchView> {
    Seq::new(v.len(), |i: int| v[i]@)
}

/// Whether one of the commits has this hash.
pub open spec fn has_hash(infos: Seq<commit_row::InfoView>, hash: Seq<char>) -> bool {
    exists|i: int| 0 <= i < infos.len() && (#[trigger] infos[i]).commit.hash == hash
}

/// The first commit from `from` on with this hash, or the end.
pub open spec fn find_hash(infos: Seq<commit_row::InfoView>, hash: Seq<char>, from: int) -> int
    decreases infos.len() - from,
{
    if from >= infos.len() || infos[from].commit.hash == hash {
        from
    } else {
        find_hash(infos, hash, from + 1)
    }
}

pub proof fn find_hash_finds(infos: Seq<commit_row::InfoView>, hash: Seq<char>, from: int, i: int)
    requires
        0 <= from <= i < infos.len(),
        infos[i].commit.hash == hash,
    ensures
        from <= find_hash(infos, hash, from) <= i,
        infos[find_hash(infos, hash, from)].commit.hash == hash,
    decreases infos.len() - from,
{
    if infos[from].commit.hash != hash {
        find_hash_finds(infos, hash, from + 1, i);
    }
}

/// Where the first parent of a commit stands, looked for from the commit on, or the end. There is
/// none where the commit has no parent or the parent is not in the list.
pub open spec fn parent_of(infos: Seq<commit_row::InfoView>, at: int) -> Option<int> {
    let parents = infos[at].commit.parents;
    if parents.len() > 0 && has_hash(infos, parents[0]) {
        Some(find_hash(infos, parents[0], at))
    } else {
        None
    }
}

/// The place `k` steps after `from`, in a circle of `n`.
pub open spec fn around(from: int, k: int, n: int) -> int {
    if from + k < n {
        from + k
    } else {
        from + k - n
    }
}

/// The first match, `k` or more steps after `from`, in the circle of the commits.
pub open spec fn match_ahead(m: Seq<search::SearchMatchView>, from: int, k: int) -> Option<int>
    decreases m.len() - k,
{
    if k >= m.len() {
        None
    } else if m[around(from, k, m.len() as int)].matched() {
        Some(around(from, k, m.len() as int))
    } else {
        match_ahead(m, from, k + 1)
    }
}

/// The first match, `k` or more steps before `from`, in the circle of the commits.
pub open spec fn match_behind(m: Seq<search::SearchMatchView>, from: int, k: int) -> Option<int>
    decreases m.len() - k,
{
    if k >= m.len() {
        None
    } else if m[around(from, m.len() - k, m.len() as int)].matched() {
        Some(around(from, m.len() - k, m.len() as int))
    } else {
        match_behind(m, from, k + 1)
    }
}

/// The match after a commit, which comes round to the commits before it.
pub open spec fn next_match(m: Seq<search::SearchMatchView>, from: int) -> Option<int> {
    match_ahead(m, from, 1)
}

/// The match before a commit, which comes round to the commits after it.
pub open spec fn prev_match(m: Seq<search::SearchMatchView>, from: int) -> Option<int> {
    match_behind(m, from, 1)
}

/// How many of the first `n` commits match.
pub open spec fn matches_before(m: Seq<search::SearchMatchView>, n: int) -> int
    decreases n,
{
    if n <= 0 {
        0
    } else {
        matches_before(m, n - 1) + if m[n - 1].matched() {
            1int
        } else {
            0
        }
    }
}

/// What of each commit matches, the matching commits numbered from one.
pub open spec fn found(
    infos: Seq<commit_row::InfoView>,
    query: Seq<char>,
    ignore_case: bool,
    fuzzy: bool,
) -> Seq<search::SearchMatchView> {
    let m = search::matcher_for(query, ignore_case, fuzzy);
    let bare = Seq::new(
        infos.len(),
        |i: int|
            search::match_of(
                m,
                infos[i].commit.subject,
                infos[i].commit.author_name,
                infos[i].commit.hash,
                infos[i].refs,
            ),
    );
    Seq::new(
        infos.len(),
        |i: int|
            if bare[i].matched() {
                bare[i].numbered(matches_before(bare, i) + 1)
            } else {
                bare[i]
            },
    )
}

/// Whether each hash is long enough to be searched.
pub open spec fn searchable(infos: Seq<commit_row::InfoView>) -> bool {
    forall|i: int|
        0 <= i < infos.len() ==> text::splits_at(
            (#[trigger] infos[i]).commit.hash,
            git::SHORT_HASH_BYTES as nat,
        )
}

impl ListStateView {
    pub open spec fn moved(self, cursor: Cursor) -> ListStateView {
        ListStateView { cursor, ..self }
    }

    /// The list in a window of another height.
    pub open spec fn with_height(self, height: usize) -> ListStateView {
        self.moved(Cursor { height, ..self.cursor })
    }

    /// The list with a match selected.
    pub open spec fn at_match(self, i: Option<int>) -> ListStateView {
        match i {
            Some(i) => ListStateView {
                cursor: self.cursor.to(i),
                search_state: self.search_state.at_match(self.matches[i].match_index as usize),
                ..self
            },
            None => self,
        }
    }

    /// The match that a search from a commit on comes to.
    pub open spec fn match_from(self, start: int) -> Option<int> {
        if self.matches[start].matched() {
            Some(start)
        } else {
            next_match(self.matches, start)
        }
    }

    /// The list with its matches found anew, and the first from where the search began selected.
    pub open spec fn searched(self) -> ListStateView {
        match self.search_state {
            SearchState::Searching { start_index, ignore_case, fuzzy, .. } => {
                let s = ListStateView {
                    matches: found(self.infos, self.input.typed, ignore_case, fuzzy),
                    ..self
                };
                s.at_match(s.match_from(start_index as int))
            },
            _ => self,
        }
    }

    /// The list without matches.
    pub open spec fn unmatched(self) -> ListStateView {
        ListStateView {
            matches: Seq::new(self.matches.len(), |i: int| self.matches[i].cleared()),
            input: self.input.emptied(),
            ..self
        }
    }

    /// Whether a search that is under way began at a commit of the list.
    pub open spec fn started_inside(self) -> bool {
        self.search_state matches SearchState::Searching { start_index, .. } ==> start_index
            < self.infos.len()
    }

    pub open spec fn selected(self) -> commit_row::InfoView {
        self.infos[self.cursor.index()]
    }
}

impl<'a> View for CommitListState<'a> {
    type V = ListStateView;

    closed spec fn view(&self) -> ListStateView {
        ListStateView {
            infos: info_views(self.commits@),
            graph_cell_width: self.graph_cell_width,
            head: self.head@,
            visuals: *self.branch_visuals,
            ref_index: self.ref_name_to_commit_index_map@,
            search_state: self.search_state,
            input: input::held(self.search_input),
            matches: match_views(self.search_matches@),
            cursor: self.cursor,
            default_ignore_case: self.default_ignore_case,
            default_fuzzy: self.default_fuzzy,
        }
    }
}

/// What an optional list shows.
pub open spec fn opt_list(l: Option<CommitListState>) -> Option<ListStateView> {
    match l {
        Some(l) => Some(l@),
        None => None,
    }
}

fn hash_set(commits: &Vec<CommitInfo>) -> (r: NameMap<()>)
    ensures
        r.wf(),
        forall|hash: Seq<char>| #[trigger]
            r@.contains_key(hash) <==> has_hash(info_views(commits@), hash),
{
    let ghost all = info_views(commits@);
    let mut r: NameMap<()> = NameMap::new();
    let mut i: usize = 0;
    while i < commits.len()
        invariant
            i <= commits@.len(),
            all == info_views(commits@),
            r.wf(),
            forall|hash: Seq<char>| #[trigger]
                r@.contains_key(hash) <==> has_hash(all.take(i as int), hash),
        decreases commits@.len() - i,
    {
        let ghost before = r@;
        let ghost own = all[i as int].commit.hash;
        r.insert(commits[i].commit.commit_hash.as_str(), ());
        proof {
            let now = all.take(i as int);
            let next = all.take(i + 1);
            assert forall|hash: Seq<char>| #[trigger] r@.contains_key(hash) <==> has_hash(
                next,
                hash,
            ) by {
                assert(before.contains_key(hash) <==> has_hash(now, hash));
                if has_hash(now, hash) {
                    let j = choose|j: int|
                        0 <= j < now.len() && (#[trigger] now[j]).commit.hash == hash;
                    assert(next[j].commit.hash == hash);
                }
                assert(next[i as int].commit.hash == own);
                if has_hash(next, hash) {
                    let j = choose|j: int|
                        0 <= j < next.len() && (#[trigger] next[j]).commit.hash == hash;
                    if j < i {
                        assert(now[j].commit.hash == hash);
                    }
                }
            }
        }
        i = i + 1;
    }
    assert(all.take(i as int) =~= all);
    r
}

impl<'a> CommitListState<'a> {
    /// The parts of the list go together.
    pub closed spec fn wf(&self) -> bool {
        &&& self.commit_hash_set.wf()
        &&& forall|hash: Seq<char>| #[trigger]
            self.commit_hash_set@.contains_key(hash) <==> has_hash(info_views(self.commits@), hash)
        &&& self.ref_name_to_commit_index_map.wf()
        &&& self.branch_visuals.wf()
        &&& self.search_matches@.len() == self.commits@.len()
        &&& forall|i: int|
            0 <= i < self.search_matches@.len() ==> (#[trigger] self.search_matches@[i]).refs.wf()
        &&& self.cursor.total == self.commits@.len()
        &&& input::caret(self.search_input) <= input::typed(self.search_input).len()
    }

    /// What goes together agrees in size.
    pub proof fn sizes_agree(&self)
        requires
            self.wf(),
        ensures
            self@.cursor.total == self@.infos.len(),
            self@.matches.len() == self@.infos.len(),
            self@.input.caret <= self@.input.typed.len(),
    {
    }

    pub fn new(
        commits: Vec<CommitInfo<'a>>,
        graph_cell_width: u16,
        head: &'a Head,
        branch_visuals: Rc<BranchVisuals>,
        ref_name_to_commit_index_map: NameMap<usize>,
        default_ignore_case: bool,
        default_fuzzy: bool,
    ) -> (r: CommitListState<'a>)
        requires
            branch_visuals.wf(),
            ref_name_to_commit_index_map.wf(),
        ensures
            r.wf(),
            r@ == (ListStateView {
                infos: info_views(commits@),
                graph_cell_width,
                head: head@,
                visuals: *branch_visuals,
                ref_index: ref_name_to_commit_index_map@,
                search_state: SearchState::Inactive,
                input: input::filled(Seq::empty()),
                matches: Seq::new(commits@.len(), |i: int| search::no_match()),
                cursor: (Cursor { selected: 0, offset: 0, total: commits@.len() as usize, height: 0 }),
                default_ignore_case,
                default_fuzzy,
            }),
    {
        let total = commits.len();
        let commit_hash_set = hash_set(&commits);
        let mut search_matches: Vec<SearchMatch> = Vec::new();
        let mut i: usize = 0;
        while i < total
            invariant
                i <= total,
                search_matches@.len() == i,
                forall|j: int|
                    0 <= j < i ==> (#[trigger] search_matches@[j]).refs.wf()
                        && search_matches@[j]@ == search::no_match(),
            decreases total - i,
        {
            search_matches.push(SearchMatch::default());
            i = i + 1;
        }
        let r = CommitListState {
            commits,
            commit_hash_set,
            graph_cell_width,
            head,
            branch_visuals,
            ref_name_to_commit_index_map,
            search_state: SearchState::Inactive,
            search_input: input::empty_input(),
            search_matches,
            cursor: Cursor::new(total),
            default_ignore_case,
            default_fuzzy,
        };
        assert(r@.matches =~= Seq::new(total as nat, |i: int| search::no_match()));
        assert(r@.input.typed =~= Seq::<char>::empty());
        r
    }

    /// The width of the graph with a column of space to its right.
    pub fn graph_area_cell_width(&self) -> (r: u16)
        requires
            self@.graph_cell_width < u16::MAX,
        ensures
            r == self@.graph_cell_width + 1,
    {
        self.graph_cell_width + 1
    }

    pub fn branch_visuals(&self) -> (r: Rc<BranchVisuals>)
        ensures
            *r == self@.visuals,
    {
        self.branch_visuals.clone()
    }

    pub fn head(&self) -> (r: &Head)
        ensures
            r@ == self@.head,
    {
        self.head
    }

    /// Where the selection stands.
    pub fn cursor(&self) -> (r: Cursor)
        ensures
            r == self@.cursor,
    {
        self.cursor
    }

    pub fn select_next(&mut self)
        requires
            old(self).wf(),
            old(self)@.cursor.ready(),
            old(self)@.cursor.index() <= usize::MAX,
        ensures
            final(self).wf(),
            final(self)@ == old(self)@.moved(old(self)@.cursor.next()),
    {
        self.cursor.select_next();
    }

    /// Selects the first parent of the selected commit, where it is in the list further on.
    pub fn select_parent(&mut self)
        requires
            old(self).wf(),
            old(self)@.cursor.on_item(),
            parent_of(old(self)@.infos, old(self)@.cursor.index()) matches Some(i) ==> old(
                self,
            )@.cursor.ready() && i < old(self)@.infos.len(),
        ensures
            final(self).wf(),
            final(self)@ == match parent_of(old(self)@.infos, old(self)@.cursor.index()) {
                Some(i) => old(self)@.moved(
                    steps(old(self)@.cursor, i - old(self)@.cursor.index()),
                ),
                None => old(self)@,
            },
    {
        let ghost before = self@;
        let ghost first = before.cursor;
        let target = match self.selected_commit_parent_hash() {
            Some(h) => h.clone(),
            None => return,
        };
        if !self.commit_hash_set.contains(target.as_str()) {
            return;
        }
        let ghost goal = find_hash(before.infos, target@, first.index());
        let ghost mut n: int = 0;
        proof {
            steps_move(first, 0);
            find_hash_least(before.infos, target@, first.index());
        }
        while !text::same(target.as_str(), self.selected_commit_hash().as_str())
            invariant
                self.wf(),
                before.infos.len() == first.total,
                first.ready(),
                0 <= n,
                first.index() + n <= goal < before.infos.len(),
                self@ == before.moved(steps(first, n)),
                steps(first, n).ready(),
                steps(first, n).index() == first.index() + n,
                goal == find_hash(before.infos, target@, first.index()),
                before.infos[goal].commit.hash == target@,
                forall|j: int|
                    first.index() <= j < goal ==> (#[trigger] before.infos[j]).commit.hash
                        != target@,
            ensures
                self.wf(),
                self@ == before.moved(steps(first, n)),
                first.index() + n == goal,
            decreases goal - n,
        {
            proof {
                assert(before.infos[first.index() + n].commit.hash != target@);
                steps_move(first, n + 1);
            }
            self.select_next();
            proof {
                n = n + 1;
            }
        }
    }

    pub fn selected_commit_parent_hash(&self) -> (r: Option<&CommitHash>)
        requires
            self.wf(),
            self@.cursor.on_item(),
        ensures
            match r {
                Some(h) => self@.selected().commit.parents.len() > 0 && h@
                    == self@.selected().commit.parents[0],
                None => self@.selected().commit.parents.len() == 0,
            },
    {
        let parents = &self.commits[self.cursor.current()].commit.parent_commit_hashes;
        if parents.len() == 0 {
            None
        } else {
            Some(&parents[0])
        }
    }

    pub fn select_prev(&mut self)
        requires
            old(self).wf(),
        ensures
            final(self).wf(),
            final(self)@ == old(self)@.moved(old(self)@.cursor.prev()),
    {
        self.cursor.select_prev();
    }

    pub fn select_first(&mut self)
        requires
            old(self).wf(),
        ensures
            final(self).wf(),
            final(self)@ == old(self)@.moved(old(self)@.cursor.at(0, 0)),
    {
        self.cursor.select_first();
    }

    pub fn select_last(&mut self)
        requires
            old(self).wf(),
            old(self)@.cursor.ready(),
        ensures
            final(self).wf(),
            final(self)@ == old(self)@.moved(old(self)@.cursor.last()),
    {
        self.cursor.select_last();
    }

    pub fn scroll_down(&mut self)
        requires
            old(self).wf(),
            old(self)@.cursor.offset + old(self)@.cursor.height <= usize::MAX,
        ensures
            final(self).wf(),
            final(self)@ == old(self)@.moved(old(self)@.cursor.down_one()),
    {
        self.cursor.scroll_down();
    }

    pub fn scroll_up(&mut self)
        requires
            old(self).wf(),
            old(self)@.cursor.height > 0 || old(self)@.cursor.offset == 0,
        ensures
            final(self).wf(),
            final(self)@ == old(self)@.moved(old(self)@.cursor.up_one()),
    {
        self.cursor.scroll_up();
    }

    pub fn scroll_down_page(&mut self)
        requires
            old(self).wf(),
            old(self)@.cursor.has_room(old(self)@.cursor.height as int),
        ensures
            final(self).wf(),
            final(self)@ == old(self)@.moved(
                old(self)@.cursor.down_by(old(self)@.cursor.height as int),
            ),
    {
        self.cursor.scroll_down_page();
    }

    pub fn scroll_up_page(&mut self)
        requires
            old(self).wf(),
        ensures
            final(self).wf(),
            final(self)@ == old(self)@.moved(
                old(self)@.cursor.up_by(old(self)@.cursor.height as int),
            ),
    {
        self.cursor.scroll_up_page();
    }

    pub fn scroll_down_half(&mut self)
        requires
            old(self).wf(),
            old(self)@.cursor.has_room(old(self)@.cursor.height as int / 2),
        ensures
            final(self).wf(),
            final(self)@ == old(self)@.moved(
                old(self)@.cursor.down_by(old(self)@.cursor.height as int / 2),
            ),
    {
        self.cursor.scroll_down_half();
    }

    pub fn scroll_up_half(&mut self)
        requires
            old(self).wf(),
        ensures
            final(self).wf(),
            final(self)@ == old(self)@.moved(
                old(self)@.cursor.up_by(old(self)@.cursor.height as int / 2),
            ),
    {
        self.cursor.scroll_up_half();
    }

    pub fn select_high(&mut self)
        requires
            old(self).wf(),
        ensures
            final(self).wf(),
            final(self)@ == old(self)@.moved(
                old(self)@.cursor.at(0, old(self)@.cursor.offset as int),
            ),
    {
        self.cursor.select_high();
    }

    pub fn select_middle(&mut self)
        requires
            old(self).wf(),
        ensures
            final(self).wf(),
            final(self)@ == old(self)@.moved(
                old(self)@.cursor.at(
                    old(self)@.cursor.rows() / 2,
                    old(self)@.cursor.offset as int,
                ),
            ),
    {
        self.cursor.select_middle();
    }

    pub fn select_low(&mut self)
        requires
            old(self).wf(),
            old(self)@.cursor.ready(),
        ensures
            final(self).wf(),
            final(self)@ == old(self)@.moved(
                old(self)@.cursor.at(
                    old(self)@.cursor.rows() - 1,
                    old(self)@.cursor.offset as int,
                ),
            ),
    {
        self.cursor.select_low();
    }

    pub fn select_next_match(&mut self)
        requires
            old(self).wf(),
            old(self)@.cursor.on_item(),
        ensures
            final(self).wf(),
            final(self)@ == old(self)@.at_match(
                next_match(old(self)@.matches, old(self)@.cursor.index()),
            ),
    {
        self.select_next_match_index(self.cursor.current());
    }

    pub fn select_prev_match(&mut self)
        requires
            old(self).wf(),
            old(self)@.cursor.on_item(),
        ensures
            final(self).wf(),
            final(self)@ == old(self)@.at_match(
                prev_match(old(self)@.matches, old(self)@.cursor.index()),
            ),
    {
        self.select_prev_match_index(self.cursor.current());
    }

    pub fn selected_commit_hash(&self) -> (r: &CommitHash)
        requires
            self.wf(),
            self@.cursor.on_item(),
        ensures
            r@ == self@.selected().commit.hash,
    {
        &self.commits[self.cursor.current()].commit.commit_hash
    }

    /// The hash of a commit of the list.
    pub fn hash_at(&self, i: usize) -> (r: &CommitHash)
        requires
            i < self@.infos.len(),
        ensures
            r@ == self@.infos[i as int].commit.hash,
    {
        assert(self@.infos[i as int] == self.commits@[i as int]@);
        &self.commits[i].commit.commit_hash
    }

    pub fn selected_commit_graph_color(&self) -> (r: Color)
        requires
            self.wf(),
            self@.cursor.on_item(),
        ensures
            r == self@.selected().color,
    {
        self.commits[self.cursor.current()].graph_color
    }

    /// The selected row, the first item of the window and its height.
    pub fn current_list_status(&self) -> (r: (usize, usize, usize))
        ensures
            r == (self@.cursor.selected, self@.cursor.offset, self@.cursor.height),
    {
        (self.cursor.selected, self.cursor.offset, self.cursor.height)
    }

    pub fn reset_height(&mut self, height: usize)
        requires
            old(self).wf(),
        ensures
            final(self).wf(),
            final(self)@ == old(self)@.moved(Cursor { height, ..old(self)@.cursor }),
    {
        self.cursor.reset_height(height);
    }

    /// Fits the list into a window of some rows.
    pub fn update_state(&mut self, height: usize)
        requires
            old(self).wf(),
            height > 0,
            old(self)@.cursor.index() < usize::MAX,
        ensures
            final(self).wf(),
            final(self)@ == old(self)@.moved(old(self)@.cursor.fitted(height)),
    {
        self.cursor.fit(height);
    }

    /// Selects the commit that a reference stands for, where it is known.
    pub fn select_ref(&mut self, ref_name: &str)
        requires
            old(self).wf(),
        ensures
            final(self).wf(),
            final(self)@ == if old(self)@.ref_index.contains_key(ref_name@) {
                old(self)@.moved(
                    old(self)@.cursor.to(old(self)@.ref_index[ref_name@] as int),
                )
            } else {
                old(self)@
            },
    {
        match self.ref_name_to_commit_index_map.get(ref_name) {
            Some(index) => {
                let index = *index;
                self.cursor.jump(index);
            },
            None => {},
        }
    }

    /// Selects the first commit with this hash, where there is one.
    pub fn select_commit_hash(&mut self, commit_hash: &CommitHash)
        requires
            old(self).wf(),
        ensures
            final(self).wf(),
            final(self)@ == if has_hash(old(self)@.infos, commit_hash@) {
                old(self)@.moved(
                    old(self)@.cursor.to(find_hash(old(self)@.infos, commit_hash@, 0)),
                )
            } else {
                old(self)@
            },
    {
        match self.place_of(commit_hash.as_str()) {
            Some(i) => {
                self.cursor.jump(i);
            },
            None => {},
        }
    }

    /// Where the first commit with a hash stands.
    pub fn place_of(&self, hash: &str) -> (r: Option<usize>)
        requires
            self.wf(),
        ensures
            match r {
                Some(i) => has_hash(self@.infos, hash@) && i == find_hash(self@.infos, hash@, 0)
                    && i < self@.infos.len(),
                None => !has_hash(self@.infos, hash@),
            },
    {
        if !self.commit_hash_set.contains(hash) {
            return None;
        }
        let ghost infos = self@.infos;
        let mut i: usize = 0;
        while i < self.commits.len()
            invariant
                i <= self.commits@.len(),
                infos == self@.infos,
                has_hash(infos, hash@),
                find_hash(infos, hash@, 0) == find_hash(infos, hash@, i as int),
                forall|j: int| 0 <= j < i ==> (#[trigger] infos[j]).commit.hash != hash@,
            decreases self.commits@.len() - i,
        {
            assert(infos[i as int] == self.commits@[i as int]@);
            if text::same(self.commits[i].commit.commit_hash.as_str(), hash) {
                return Some(i);
            }
            i = i + 1;
        }
        None
    }

    pub fn search_state(&self) -> (r: SearchState)
        ensures
            r == self@.search_state,
    {
        self.search_state
    }

    /// Begins a search at the selected commit, where none is under way.
    pub fn start_search(&mut self)
        requires
            old(self).wf(),
            old(self)@.cursor.index() <= usize::MAX,
        ensures
            final(self).wf(),
            final(self)@ == if old(self)@.search_state is Searching {
                old(self)@
            } else {
                (ListStateView {
                    search_state: SearchState::Searching {
                        start_index: old(self)@.cursor.index() as usize,
                        match_index: 0,
                        ignore_case: old(self)@.default_ignore_case,
                        fuzzy: old(self)@.default_fuzzy,
                        transient_message: TransientMessage::Nothing,
                    },
                    ..old(self)@.unmatched()
                })
            },
    {
        let searching = match self.search_state {
            SearchState::Searching { .. } => true,
            _ => false,
        };
        if !searching {
            self.search_state = SearchState::Searching {
                start_index: self.cursor.current(),
                match_index: 0,
                ignore_case: self.default_ignore_case,
                fuzzy: self.default_fuzzy,
                transient_message: TransientMessage::Nothing,
            };
            self.forget_query();
        }
    }

    /// Takes a key into the query, where a search is under way, and selects what is found.
    pub fn handle_search_input(&mut self, key: Key)
        requires
            old(self).wf(),
            old(self)@.search_state is Searching ==> searchable(old(self)@.infos),
            old(self)@.started_inside(),
        ensures
            final(self).wf(),
            ({
                let typed = ListStateView {
                    input: if old(self)@.search_state is Searching {
                        old(self)@.input.after_key(key)
                    } else {
                        old(self)@.input
                    },
                    search_state: quiet(old(self)@.search_state),
                    ..old(self)@
                };
                final(self)@ == typed.searched()
            }),
    {
        if let SearchState::Searching {
            start_index,
            match_index,
            ignore_case,
            fuzzy,
            transient_message: _,
        } = self.search_state {
            self.search_state = SearchState::Searching {
                start_index,
                match_index,
                ignore_case,
                fuzzy,
                transient_message: TransientMessage::Nothing,
            };
            input::handle_key(&mut self.search_input, key);
            self.update_search_matches(ignore_case, fuzzy);
            self.select_current_or_next_match_index(start_index);
        }
    }

    /// Ends the typing of a query. A search for nothing is over; another keeps its matches.
    pub fn apply_search(&mut self)
        requires
            old(self).wf(),
        ensures
            final(self).wf(),
            final(self)@ == match old(self)@.search_state {
                SearchState::Searching { match_index, .. } => ListStateView {
                    search_state: if old(self)@.input.typed.len() == 0 {
                        SearchState::Inactive
                    } else {
                        SearchState::Applied {
                            match_index,
                            total_match: matches_before(
                                old(self)@.matches,
                                old(self)@.matches.len() as int,
                            ) as usize,
                        }
                    },
                    ..old(self)@
                },
                _ => old(self)@,
            },
    {
        if let SearchState::Searching { match_index, .. } = self.search_state {
            if text::byte_len(input::value_of(&self.search_input)) == 0 {
                self.search_state = SearchState::Inactive;
            } else {
                let total_match = self.count_matches();
                self.search_state = SearchState::Applied { match_index, total_match };
            }
        }
    }

    fn count_matches(&self) -> (r: usize)
        requires
            self.wf(),
        ensures
            r == matches_before(self@.matches, self@.matches.len() as int),
    {
        let ghost all = self@.matches;
        let mut n: usize = 0;
        let mut i: usize = 0;
        while i < self.search_matches.len()
            invariant
                i <= self.search_matches@.len(),
                self.wf(),
                all == self@.matches,
                n == matches_before(all, i as int),
                n <= i,
            decreases self.search_matches@.len() - i,
        {
            assert(all[i as int] == self.search_matches@[i as int]@);
            if self.search_matches[i].matched() {
                n = n + 1;
            }
            i = i + 1;
        }
        n
    }

    /// Ends a search, and forgets its query and its matches.
    pub fn cancel_search(&mut self)
        requires
            old(self).wf(),
        ensures
            final(self).wf(),
            final(self)@ == if old(self)@.search_state is Inactive {
                old(self)@
            } else {
                (ListStateView { search_state: SearchState::Inactive, ..old(self)@.unmatched() })
            },
    {
        let inactive = match self.search_state {
            SearchState::Inactive => true,
            _ => false,
        };
        if !inactive {
            self.search_state = SearchState::Inactive;
            self.forget_query();
        }
    }

    /// Switches whether the search tells upper from lower case, and searches anew.
    pub fn toggle_ignore_case(&mut self)
        requires
            old(self).wf(),
            old(self)@.search_state is Searching ==> searchable(old(self)@.infos),
            old(self)@.started_inside(),
        ensures
            final(self).wf(),
            final(self)@ == (ListStateView {
                search_state: with_case_toggled(old(self)@.search_state),
                ..old(self)@
            }).searched(),
    {
        if let SearchState::Searching {
            start_index,
            match_index,
            ignore_case,
            fuzzy,
            transient_message: _,
        } = self.search_state {
            let ignore_case = !ignore_case;
            self.search_state = SearchState::Searching {
                start_index,
                match_index,
                ignore_case,
                fuzzy,
                transient_message: if ignore_case {
                    TransientMessage::IgnoreCaseOn
                } else {
                    TransientMessage::IgnoreCaseOff
                },
            };
            self.update_search_matches(ignore_case, fuzzy);
            self.select_current_or_next_match_index(start_index);
        }
    }

    /// Switches whether the search is fuzzy, and searches anew.
    pub fn toggle_fuzzy(&mut self)
        requires
            old(self).wf(),
            old(self)@.search_state is Searching ==> searchable(old(self)@.infos),
            old(self)@.started_inside(),
        ensures
            final(self).wf(),
            final(self)@ == (ListStateView {
                search_state: with_fuzzy_toggled(old(self)@.search_state),
                ..old(self)@
            }).searched(),
    {
        if let SearchState::Searching {
            start_index,
            match_index,
            ignore_case,
            fuzzy,
            transient_message: _,
        } = self.search_state {
            let fuzzy = !fuzzy;
            self.search_state = SearchState::Searching {
                start_index,
                match_index,
                ignore_case,
                fuzzy,
                transient_message: if fuzzy {
                    TransientMessage::FuzzyOn
                } else {
                    TransientMessage::FuzzyOff
                },
            };
            self.update_search_matches(ignore_case, fuzzy);
            self.select_current_or_next_match_index(start_index);
        }
    }

    /// The query that is being typed, after a slash.
    pub fn search_query_string(&self) -> (r: Option<String>)
        ensures
            text::opt_text(r) == if self@.search_state is Searching {
                Some("/"@ + self@.input.typed)
            } else {
                None
            },
    {
        match self.search_state {
            SearchState::Searching { .. } => Some(
                text::concat("/", input::value_of(&self.search_input)),
            ),
            _ => None,
        }
    }

    /// What came of the search that was applied, and whether it found anything.
    pub fn matched_query_string(&self) -> (r: Option<(String, bool)>)
        ensures
            match (self@.search_state, r) {
                (SearchState::Applied { match_index, total_match }, Some((msg, any))) => {
                    &&& any == (total_match > 0)
                    &&& msg@ == match_message(match_index as nat, total_match as nat, self@.input.typed)
                },
                (SearchState::Applied { .. }, None) => false,
                (_, r) => r is None,
            },
    {
        match self.search_state {
            SearchState::Applied { match_index, total_match } => {
                let query = input::value_of(&self.search_input);
                if total_match == 0 {
                    let mut msg = "No matches found (query: \"".to_string();
                    msg.append(query);
                    msg.append("\")");
                    Some((msg, false))
                } else {
                    let mut msg = "Match ".to_string();
                    msg.append(numerals::to_decimal(match_index).as_str());
                    msg.append(" of ");
                    msg.append(numerals::to_decimal(total_match).as_str());
                    msg.append(" (query: \"");
                    msg.append(query);
                    msg.append("\")");
                    Some((msg, true))
                }
            },
            _ => None,
        }
    }

    /// The column of the caret in the query, where the terminal can have one there.
    pub fn search_query_cursor_position(&self) -> (r: Option<u16>)
        ensures
            r == query_column(input::caret_column(self@.input.typed.take(self@.input.caret as int))),
    {
        cursor_position(input::column_of(&self.search_input))
    }

    /// What a toggle just did.
    pub fn transient_message_string(&self) -> (r: Option<String>)
        ensures
            text::opt_text(r) == match self@.search_state {
                SearchState::Searching { transient_message, .. } => toggle_message(
                    transient_message,
                ),
                _ => None,
            },
    {
        match self.search_state {
            SearchState::Searching { transient_message, .. } => match transient_message {
                TransientMessage::Nothing => None,
                TransientMessage::IgnoreCaseOn => Some("Ignore case: ON ".to_string()),
                TransientMessage::IgnoreCaseOff => Some("Ignore case: OFF".to_string()),
                TransientMessage::FuzzyOn => Some("Fuzzy match: ON ".to_string()),
                TransientMessage::FuzzyOff => Some("Fuzzy match: OFF".to_string()),
            },
            _ => None,
        }
    }

    /// Finds what of each commit matches the query.
    fn update_search_matches(&mut self, ignore_case: bool, fuzzy: bool)
        requires
            old(self).wf(),
            searchable(old(self)@.infos),
        ensures
            final(self).wf(),
            final(self)@ == (ListStateView {
                matches: found(old(self)@.infos, old(self)@.input.typed, ignore_case, fuzzy),
                ..old(self)@
            }),
    {
        let ghost before = self@;
        let ghost start = *self;
        let matcher = SearchMatcher::new(input::value_of(&self.search_input), ignore_case, fuzzy);
        let ghost bare = Seq::new(
            before.infos.len(),
            |i: int|
                search::match_of(
                    matcher@,
                    before.infos[i].commit.subject,
                    before.infos[i].commit.author_name,
                    before.infos[i].commit.hash,
                    before.infos[i].refs,
                ),
        );
        let ghost all = found(before.infos, before.input.typed, ignore_case, fuzzy);
        let n = self.commits.len();
        let mut count: usize = 0;
        let mut i: usize = 0;
        while i < n
            invariant
                i <= n,
                n == before.infos.len(),
                self.wf(),
                searchable(before.infos),
                matcher@ == search::matcher_for(before.input.typed, ignore_case, fuzzy),
                self@ == (ListStateView { matches: self@.matches, ..before }),
                bare.len() == n,
                forall|j: int|
                    0 <= j < n ==> #[trigger] bare[j] == search::match_of(
                        matcher@,
                        before.infos[j].commit.subject,
                        before.infos[j].commit.author_name,
                        before.infos[j].commit.hash,
                        before.infos[j].refs,
                    ),
                count == matches_before(bare, i as int),
                matches_before(bare, i as int) <= i,
                all.len() == n,
                forall|j: int|
                    0 <= j < n ==> #[trigger] all[j] == if bare[j].matched() {
                        bare[j].numbered(matches_before(bare, j) + 1)
                    } else {
                        bare[j]
                    },
                forall|j: int| 0 <= j < i ==> self@.matches[j] == #[trigger] all[j],
            decreases n - i,
        {
            let ghost now = self@;
            let mut m = SearchMatch::default();
            std::mem::swap(&mut self.search_matches[i], &mut m);
            assert(before.infos[i as int] == self.commits@[i as int]@);
            m.set(self.commits[i].commit, &self.commits[i].refs, &matcher);
            assert(m@ == bare[i as int]);
            if m.matched() {
                count = count + 1;
                m.match_index = count;
                assert(m@ == bare[i as int].numbered(matches_before(bare, i as int) + 1)) by {
                    assert(m@.refs =~= bare[i as int].refs);
                }
            }
            let ghost set = m@;
            assert(set == all[i as int]);
            std::mem::swap(&mut self.search_matches[i], &mut m);
            proof {
                assert(self@.matches[i as int] == set);
                assert forall|j: int| 0 <= j < i implies self@.matches[j] == #[trigger] all[j] by {
                    assert(self@.matches[j] == now.matches[j]);
                }
            }
            i = i + 1;
        }
        assert(self@.matches =~= all);
    }

    /// Empties the query and clears the matches.
    fn forget_query(&mut self)
        requires
            old(self).wf(),
        ensures
            final(self).wf(),
            final(self)@ == old(self)@.unmatched(),
    {
        let ghost before = self@;
        input::reset(&mut self.search_input);
        assert(self@.input.typed =~= Seq::<char>::empty());
        self.clear_search_matches();
        assert(self@.matches =~= before.unmatched().matches);
    }

    fn clear_search_matches(&mut self)
        requires
            old(self).wf(),
        ensures
            final(self).wf(),
            final(self)@ == (ListStateView { matches: final(self)@.matches, ..old(self)@ }),
            final(self)@.matches.len() == old(self)@.matches.len(),
            forall|i: int|
                0 <= i < old(self)@.matches.len() ==> final(self)@.matches[i]
                    == (#[trigger] old(self)@.matches[i]).cleared(),
    {
        let ghost before = self@;
        let n = self.search_matches.len();
        let mut i: usize = 0;
        while i < n
            invariant
                i <= n,
                n == before.matches.len(),
                self.wf(),
                self@ == (ListStateView { matches: self@.matches, ..before }),
                self@.matches.len() == n,
                forall|j: int|
                    0 <= j < i ==> self@.matches[j] == (#[trigger] before.matches[j]).cleared(),
                forall|j: int| i <= j < n ==> self@.matches[j] == #[trigger] before.matches[j],
            decreases n - i,
        {
            let ghost now = self@;
            let mut m = SearchMatch::default();
            std::mem::swap(&mut self.search_matches[i], &mut m);
            assert(m@ == now.matches[i as int]);
            m.clear();
            let ghost cleared = m@;
            std::mem::swap(&mut self.search_matches[i], &mut m);
            proof {
                assert(self@.matches[i as int] == cleared);
                assert forall|j: int| 0 <= j < n && j != i implies self@.matches[j]
                    == #[trigger] now.matches[j] by {}
                assert forall|j: int| 0 <= j < i + 1 implies self@.matches[j] == (
                #[trigger] before.matches[j]).cleared() by {
                    if j < i {
                        assert(self@.matches[j] == now.matches[j]);
                    }
                }
                assert forall|j: int| i + 1 <= j < n implies self@.matches[j]
                    == #[trigger] before.matches[j] by {
                    assert(self@.matches[j] == now.matches[j]);
                }
            }
            i = i + 1;
        }
    }

    fn select_current_or_next_match_index(&mut self, current_index: usize)
        requires
            old(self).wf(),
            current_index < old(self)@.infos.len(),
        ensures
            final(self).wf(),
            final(self)@ == old(self)@.at_match(old(self)@.match_from(current_index as int)),
    {
        if self.matches_at(current_index) {
            self.select_match(current_index);
        } else {
            self.select_next_match_index(current_index);
        }
    }

    fn matches_at(&self, i: usize) -> (r: bool)
        requires
            self.wf(),
            i < self@.infos.len(),
        ensures
            r == self@.matches[i as int].matched(),
    {
        assert(self@.matches[i as int] == self.search_matches@[i as int]@);
        self.search_matches[i].matched()
    }

    fn select_match(&mut self, i: usize)
        requires
            old(self).wf(),
            i < old(self)@.infos.len(),
        ensures
            final(self).wf(),
            final(self)@ == old(self)@.at_match(Some(i as int)),
    {
        assert(self@.matches[i as int] == self.search_matches@[i as int]@);
        let index = self.search_matches[i].match_index;
        self.cursor.select_index(i);
        self.search_state.update_match_index(index);
    }

    fn select_next_match_index(&mut self, current_index: usize)
        requires
            old(self).wf(),
            current_index < old(self)@.infos.len(),
        ensures
            final(self).wf(),
            final(self)@ == old(self)@.at_match(
                next_match(old(self)@.matches, current_index as int),
            ),
    {
        let ghost before = self@;
        let total = self.cursor.total;
        let mut i: usize = if current_index == total - 1 {
            0
        } else {
            current_index + 1
        };
        let ghost mut k: int = 1;
        while i != current_index
            invariant
                self.wf(),
                self@ == before,
                before == old(self)@,
                total == before.infos.len(),
                total == before.matches.len(),
                current_index < total,
                1 <= k <= total,
                i == around(current_index as int, k, total as int),
                next_match(before.matches, current_index as int) == match_ahead(
                    before.matches,
                    current_index as int,
                    k,
                ),
            decreases total - k,
        {
            if self.matches_at(i) {
                self.select_match(i);
                return;
            }
            i = if i == total - 1 {
                0
            } else {
                i + 1
            };
            proof {
                k = k + 1;
            }
        }
    }

    fn select_prev_match_index(&mut self, current_index: usize)
        requires
            old(self).wf(),
            current_index < old(self)@.infos.len(),
        ensures
            final(self).wf(),
            final(self)@ == old(self)@.at_match(
                prev_match(old(self)@.matches, current_index as int),
            ),
    {
        let ghost before = self@;
        let total = self.cursor.total;
        let mut i: usize = if current_index == 0 {
            total - 1
        } else {
            current_index - 1
        };
        let ghost mut k: int = 1;
        while i != current_index
            invariant
                self.wf(),
                self@ == before,
                before == old(self)@,
                total == before.infos.len(),
                total == before.matches.len(),
                current_index < total,
                1 <= k <= total,
                i == around(current_index as int, total - k, total as int),
                prev_match(before.matches, current_index as int) == match_behind(
                    before.matches,
                    current_index as int,
                    k,
                ),
            decreases total - k,
        {
            if self.matches_at(i) {
                self.select_match(i);
                return;
            }
            i = if i == 0 {
                total - 1
            } else {
                i - 1
            };
            proof {
                k = k + 1;
            }
        }
    }

    /// Whether each hash is long enough to be searched.
    pub fn is_searchable(&self) -> (r: bool)
        ensures
            r == searchable(self@.infos),
    {
        let mut i: usize = 0;
        while i < self.commits.len()
            invariant
                i <= self.commits@.len(),
                forall|j: int|
                    0 <= j < i ==> text::splits_at(
                        (#[trigger] self@.infos[j]).commit.hash,
                        git::SHORT_HASH_BYTES as nat,
                    ),
            decreases self.commits@.len() - i,
        {
            assert(self@.infos[i as int] == self.commits@[i as int]@);
            let hash = self.commits[i].commit.commit_hash.as_str();
            if text::chars_in_bytes(hash, git::SHORT_HASH_BYTES).is_none() {
                return false;
            }
            i = i + 1;
        }
        true
    }

    /// Where the first parent of a commit stands, looked for from the commit on, or the end.
    pub fn parent_place(&self, at: usize) -> (r: Option<usize>)
        requires
            self.wf(),
            at < self@.infos.len(),
        ensures
            match (r, parent_of(self@.infos, at as int)) {
                (Some(i), Some(p)) => i == p,
                (None, None) => true,
                _ => false,
            },
    {
        assert(self@.infos[at as int] == self.commits@[at as int]@);
        let parents = &self.commits[at].commit.parent_commit_hashes;
        if parents.len() == 0 {
            return None;
        }
        let target = &parents[0];
        assert(self@.infos[at as int].commit.parents[0] == target@);
        if !self.commit_hash_set.contains(target.as_str()) {
            return None;
        }
        let mut i: usize = at;
        while i < self.commits.len()
            invariant
                i <= self.commits@.len(),
                parent_of(self@.infos, at as int) == Some(
                    find_hash(self@.infos, target@, i as int),
                ),
            decreases self.commits@.len() - i,
        {
            assert(self@.infos[i as int] == self.commits@[i as int]@);
            if text::same(self.commits[i].commit.commit_hash.as_str(), target.as_str()) {
                return Some(i);
            }
            i = i + 1;
        }
        Some(i)
    }

    /// The number of commits in the window.
    pub fn visible_count(&self) -> (r: usize)
        requires
            self.wf(),
        ensures
            r == visible_rows(self@.cursor),
    {
        if self.cursor.offset >= self.cursor.total {
            0
        } else if self.cursor.total - self.cursor.offset <= self.cursor.height {
            self.cursor.total - self.cursor.offset
        } else {
            self.cursor.height
        }
    }

    /// The commit on a row of the window.
    pub fn visible_commit(&self, row: usize) -> (r: &CommitInfo<'a>)
        requires
            self.wf(),
            row < visible_rows(self@.cursor),
        ensures
            r@ == self@.infos[self@.cursor.offset + row],
    {
        &self.commits[self.cursor.offset + row]
    }

    /// Draws the references on a row of the window.
    pub fn status_row(&self, row: usize, color_theme: &ColorTheme) -> (r: Option<Vec<Span>>)
        requires
            self.wf(),
            row < visible_rows(self@.cursor),
        ensures
            ({
                let i = self@.cursor.offset + row;
                match r {
                    Some(spans) => commit_row::labels_clean(
                        self@.infos[i],
                        &self@.visuals,
                        self@.matches[i].refs,
                        *color_theme,
                    ) && commit_row::shows_status(
                        self@.infos[i],
                        self@.head,
                        &self@.visuals,
                        self@.matches[i].refs,
                        *color_theme,
                        span::span_views(spans@),
                    ),
                    None => !commit_row::labels_clean(
                        self@.infos[i],
                        &self@.visuals,
                        self@.matches[i].refs,
                        *color_theme,
                    ),
                }
            }),
    {
        let i = self.cursor.offset + row;
        assert(self@.matches[i as int] == self.search_matches@[i as int]@);
        commit_row::status_spans(
            &self.commits[i],
            self.head,
            &self.branch_visuals,
            &self.search_matches[i].refs,
            color_theme,
        )
    }

    /// Draws the subject on a row of the window.
    pub fn subject_row(&self, row: usize, max_width: usize, color_theme: &ColorTheme) -> (r: Option<
        Vec<Span>,
    >)
        requires
            self.wf(),
            row < visible_rows(self@.cursor),
        ensures
            ({
                let i = self@.cursor.offset + row;
                match r {
                    Some(spans) => commit_row::shows_subject(
                        self@.infos[i].commit.subject,
                        self@.matches[i].subject,
                        max_width,
                        self@.infos[i].color,
                        *color_theme,
                        span::span_views(spans@),
                    ),
                    None => !commit_row::subject_clean(
                        self@.infos[i].commit.subject,
                        self@.matches[i].subject,
                        max_width,
                    ),
                }
            }),
    {
        let i = self.cursor.offset + row;
        assert(self@.matches[i as int] == self.search_matches@[i as int]@);
        commit_row::subject_spans(
            self.commits[i].commit.subject.as_str(),
            self.search_matches[i].subject.as_ref(),
            max_width,
            self.commits[i].graph_color,
            color_theme,
        )
    }

    /// Draws the author's name on a row of the window.
    pub fn name_row(&self, row: usize, max_width: usize, color_theme: &ColorTheme) -> (r: Option<
        Vec<Span>,
    >)
        requires
            self.wf(),
            row < visible_rows(self@.cursor),
        ensures
            ({
                let i = self@.cursor.offset + row;
                match r {
                    Some(spans) => commit_row::shows_name(
                        self@.infos[i].commit,
                        self@.matches[i].author_name,
                        max_width,
                        *color_theme,
                        span::span_views(spans@),
                    ),
                    None => !commit_row::name_clean(
                        self@.infos[i].commit,
                        self@.matches[i].author_name,
                        max_width,
                    ),
                }
            }),
    {
        let i = self.cursor.offset + row;
        assert(self@.matches[i as int] == self.search_matches@[i as int]@);
        commit_row::name_spans(
            self.commits[i].commit,
            self.search_matches[i].author_name.as_ref(),
            max_width,
            color_theme,
        )
    }
}

/// The column of a caret that stands after a slash, where it fits.
pub open spec fn query_column(column: usize) -> Option<u16> {
    if (column as u16) < u16::MAX {
        Some((column as u16 + 1) as u16)
    } else {
        None
    }
}

/// The column of a caret that stands after a slash.
pub fn cursor_position(column: usize) -> (r: Option<u16>)
    ensures
        r == query_column(column),
{
    let column = #[verifier::truncate] (column as u16);
    if column < u16::MAX {
        Some(column + 1)
    } else {
        None
    }
}

/// The rows of the window on which commits stand.
pub open spec fn visible_rows(c: Cursor) -> int {
    if c.offset >= c.total {
        0
    } else if c.total - c.offset <= c.height {
        c.total - c.offset
    } else {
        c.height as int
    }
}

/// The cursor after some steps to the next item.
pub open spec fn steps(c: Cursor, n: int) -> Cursor
    decreases n,
{
    if n <= 0 {
        c
    } else {
        steps(c, n - 1).next()
    }
}

/// Each step goes on by one item, up to the last.
pub proof fn steps_move(c: Cursor, n: int)
    requires
        c.ready(),
        0 <= n,
        c.index() + n < c.total,
    ensures
        steps(c, n).ready(),
        steps(c, n).total == c.total,
        steps(c, n).index() == c.index() + n,
    decreases n,
{
    if n > 0 {
        steps_move(c, n - 1);
    }
}

/// A hash is found at or after where the search begins, or not before the end.
pub proof fn find_hash_bounds(infos: Seq<commit_row::InfoView>, hash: Seq<char>, from: int)
    requires
        0 <= from <= infos.len(),
    ensures
        from <= find_hash(infos, hash, from) <= infos.len(),
{
    find_hash_least(infos, hash, from);
}

proof fn find_hash_least(infos: Seq<commit_row::InfoView>, hash: Seq<char>, from: int)
    requires
        0 <= from <= infos.len(),
    ensures
        from <= find_hash(infos, hash, from) <= infos.len(),
        find_hash(infos, hash, from) < infos.len() ==> infos[find_hash(
            infos,
            hash,
            from,
        )].commit.hash == hash,
        forall|j: int|
            from <= j < find_hash(infos, hash, from) ==> (#[trigger] infos[j]).commit.hash != hash,
    decreases infos.len() - from,
{
    if from < infos.len() && infos[from].commit.hash != hash {
        find_hash_least(infos, hash, from + 1);
    }
}

/// A search without a word on a toggle.
pub open spec fn quiet(s: SearchState) -> SearchState {
    match s {
        SearchState::Searching { start_index, match_index, ignore_case, fuzzy, .. } =>
        SearchState::Searching {
            start_index,
            match_index,
            ignore_case,
            fuzzy,
            transient_message: TransientMessage::Nothing,
        },
        _ => s,
    }
}

pub open spec fn with_case_toggled(s: SearchState) -> SearchState {
    match s {
        SearchState::Searching { start_index, match_index, ignore_case, fuzzy, .. } =>
        SearchState::Searching {
            start_index,
            match_index,
            ignore_case: !ignore_case,
            fuzzy,
            transient_message: if ignore_case {
                TransientMessage::IgnoreCaseOff
            } else {
                TransientMessage::IgnoreCaseOn
            },
        },
        _ => s,
    }
}

pub open spec fn with_fuzzy_toggled(s: SearchState) -> SearchState {
    match s {
        SearchState::Searching { start_index, match_index, ignore_case, fuzzy, .. } =>
        SearchState::Searching {
            start_index,
            match_index,
            ignore_case,
            fuzzy: !fuzzy,
            transient_message: if fuzzy {
                TransientMessage::FuzzyOff
            } else {
                TransientMessage::FuzzyOn
            },
        },
        _ => s,
    }
}

/// What is said of an applied search.
pub open spec fn match_message(match_index: nat, total_match: nat, query: Seq<char>) -> Seq<char> {
    if total_match == 0 {
        "No matches found (query: \""@ + query + "\")"@
    } else {
        "Match "@ + numerals::decimal(match_index) + " of "@ + numerals::decimal(total_match)
            + " (query: \""@ + query + "\")"@
    }
}

/// What is said of a toggle.
pub open spec fn toggle_message(m: TransientMessage) -> Option<Seq<char>> {
    match m {
        TransientMessage::Nothing => None,
        TransientMessage::IgnoreCaseOn => Some("Ignore case: ON "@),
        TransientMessage::IgnoreCaseOff => Some("Ignore case: OFF"@),
        TransientMessage::FuzzyOn => Some("Fuzzy match: ON "@),
        TransientMessage::FuzzyOff => Some("Fuzzy match: OFF"@),
    }
}

proof fn ahead_is_first(m: Seq<search::SearchMatchView>, from: int, k: int) -> (steps: int)
    requires
        0 <= from < m.len(),
        1 <= k,
        match_ahead(m, from, k) is Some,
    ensures
        k <= steps < m.len(),
        match_ahead(m, from, k) == Some(around(from, steps, m.len() as int)),
        m[around(from, steps, m.len() as int)].matched(),
        forall|q: int|
            k <= q < steps ==> !m[#[trigger] around(from, q, m.len() as int)].matched(),
    decreases m.len() - k,
{
    if m[around(from, k, m.len() as int)].matched() {
        k
    } else {
        ahead_is_first(m, from, k + 1)
    }
}

proof fn behind_reaches(
    m: Seq<search::SearchMatchView>,
    from: int,
    j: int,
    steps: int,
    k: int,
)
    requires
        0 <= from < m.len(),
        1 <= k <= steps < m.len(),
        j == around(from, steps, m.len() as int),
        m[from].matched(),
        forall|q: int|
            1 <= q < steps ==> !m[#[trigger] around(from, q, m.len() as int)].matched(),
    ensures
        match_behind(m, j, k) == Some(from),
    decreases steps - k,
{
    let n = m.len() as int;
    if k == steps {
        assert(around(j, n - k, n) == from);
    } else {
        assert(around(j, n - k, n) == around(from, steps - k, n));
        assert(!m[around(from, steps - k, n)].matched());
        behind_reaches(m, from, j, steps, k + 1);
    }
}

/// From a match, going on to the next one and back again comes to the match.
pub proof fn prev_match_undoes_next_match(m: Seq<search::SearchMatchView>, from: int, to: int)
    requires
        0 <= from < m.len(),
        m[from].matched(),
        next_match(m, from) == Some(to),
    ensures
        prev_match(m, to) == Some(from),
{
    let steps = ahead_is_first(m, from, 1);
    behind_reaches(m, from, to, steps, 1);
}

/// There is no next match exactly where no other commit matches.
pub proof fn next_match_misses_none(m: Seq<search::SearchMatchView>, from: int)
    requires
        0 <= from < m.len(),
    ensures
        next_match(m, from) is None <==> forall|i: int|
            0 <= i < m.len() && i != from ==> !(#[trigger] m[i]).matched(),
{
    let n = m.len() as int;
    if next_match(m, from) is None {
        none_ahead(m, from, 1);
        assert forall|i: int| 0 <= i < m.len() && i != from implies !(#[trigger] m[i]).matched() by {
            let k = if i > from {
                i - from
            } else {
                i - from + n
            };
            assert(around(from, k, n) == i);
        }
    } else {
        let steps = ahead_is_first(m, from, 1);
        assert(m[around(from, steps, n)].matched());
    }
}

proof fn none_ahead(m: Seq<search::SearchMatchView>, from: int, k: int)
    requires
        0 <= from < m.len(),
        1 <= k,
        match_ahead(m, from, k) is None,
    ensures
        forall|q: int|
            k <= q < m.len() ==> !m[#[trigger] around(from, q, m.len() as int)].matched(),
    decreases m.len() - k,
{
    if k < m.len() {
        none_ahead(m, from, k + 1);
    }
}

proof fn matches_before_same(
    a: Seq<search::SearchMatchView>,
    b: Seq<search::SearchMatchView>,
    n: int,
)
    requires
        0 <= n <= a.len(),
        a.len() == b.len(),
        forall|i: int| 0 <= i < a.len() ==> (#[trigger] a[i]).matched() == b[i].matched(),
    ensures
        matches_before(a, n) == matches_before(b, n),
    decreases n,
{
    if n > 0 {
        matches_before_same(a, b, n - 1);
        assert(a[n - 1].matched() == b[n - 1].matched());
    }
}

proof fn matches_before_grows(m: Seq<search::SearchMatchView>, a: int, b: int)
    requires
        0 <= a <= b,
    ensures
        0 <= matches_before(m, a) <= matches_before(m, b),
    decreases b,
{
    if a < b {
        matches_before_grows(m, a, b - 1);
    } else if a > 0 {
        matches_before_grows(m, a - 1, b - 1);
    }
}

/// The matching commits are numbered from one on, in their order, up to how many there are.
pub proof fn matches_are_numbered(
    infos: Seq<commit_row::InfoView>,
    query: Seq<char>,
    ignore_case: bool,
    fuzzy: bool,
    i: int,
)
    requires
        0 <= i < infos.len(),
        found(infos, query, ignore_case, fuzzy)[i].matched(),
    ensures
        ({
            let m = found(infos, query, ignore_case, fuzzy);
            m[i].match_index == matches_before(m, i) + 1 && 1 <= m[i].match_index
                <= matches_before(m, m.len() as int)
        }),
{
    let m = found(infos, query, ignore_case, fuzzy);
    let matcher = search::matcher_for(query, ignore_case, fuzzy);
    let bare = Seq::new(
        infos.len(),
        |i: int|
            search::match_of(
                matcher,
                infos[i].commit.subject,
                infos[i].commit.author_name,
                infos[i].commit.hash,
                infos[i].refs,
            ),
    );
    assert forall|j: int| 0 <= j < m.len() implies (#[trigger] m[j]).matched()
        == bare[j].matched() by {}
    matches_before_same(m, bare, i);
    matches_before_grows(m, 0, i);
    matches_before_grows(m, i + 1, m.len() as int);
}

/// Whether a commit is found by a query: by its subject, its author's name, the first seven bytes of its
/// hash, or the name of one of its branches and tags.
pub open spec fn finds_commit(
    query: Seq<char>,
    ignore_case: bool,
    fuzzy: bool,
    info: commit_row::InfoView,
) -> bool {
    ||| search::is_found(query, ignore_case, fuzzy, info.commit.subject)
    ||| search::is_found(query, ignore_case, fuzzy, info.commit.author_name)
    ||| exists|k: int|
        0 <= k <= info.commit.hash.len() && text::byte_count(#[trigger] info.commit.hash.take(k))
            == 7 && search::is_found(query, ignore_case, fuzzy, info.commit.hash.take(k))
    ||| exists|i: int|
        0 <= i < info.refs.len() && !(info.refs[i] is Stash) && search::is_found(
            query,
            ignore_case,
            fuzzy,
            (#[trigger] info.refs[i]).name(),
        )
}

/// The commits that match are those that are found by the query.
pub proof fn found_commits_match(
    infos: Seq<commit_row::InfoView>,
    query: Seq<char>,
    ignore_case: bool,
    fuzzy: bool,
    i: int,
)
    requires
        0 <= i < infos.len(),
        searchable(infos),
    ensures
        found(infos, query, ignore_case, fuzzy).len() == infos.len(),
        found(infos, query, ignore_case, fuzzy)[i].matched() <==> finds_commit(
            query,
            ignore_case,
            fuzzy,
            infos[i],
        ),
{
    let c = infos[i].commit;
    assert(text::splits_at(c.hash, 7));
    let k = choose|k: int| 0 <= k <= c.hash.len() && #[trigger] text::byte_count(c.hash.take(k)) == 7;
    search::commits_are_found(
        query,
        ignore_case,
        fuzzy,
        c.subject,
        c.author_name,
        c.hash,
        k,
        infos[i].refs,
    );
    assert forall|j: int|
        0 <= j <= c.hash.len() && text::byte_count(#[trigger] c.hash.take(j)) == 7 implies j == k by {
        text::chars_for_is(c.hash, 7, k);
        text::chars_for_is(c.hash, 7, j);
    }
}

/// The next match is the first one behind a place, going round at the end.
pub proof fn next_match_comes_next(m: Seq<search::SearchMatchView>, from: int, to: int)
    requires
        0 <= from < m.len(),
        next_match(m, from) == Some(to),
    ensures
        0 <= to < m.len(),
        to != from,
        m[to].matched(),
        to > from ==> forall|j: int| from < j < to ==> !(#[trigger] m[j]).matched(),
        to < from ==> forall|j: int|
            from < j < m.len() || 0 <= j < to ==> !(#[trigger] m[j]).matched(),
{
    let n = m.len() as int;
    let steps = ahead_is_first(m, from, 1);
    assert forall|j: int| 0 <= j < n && j != from && (if j > from {
        j - from
    } else {
        j - from + n
    }) < steps implies !(#[trigger] m[j]).matched() by {
        let q = if j > from {
            j - from
        } else {
            j - from + n
        };
        assert(around(from, q, n) == j);
    }
}

proof fn behind_is_first(m: Seq<search::SearchMatchView>, from: int, k: int) -> (steps: int)
    requires
        0 <= from < m.len(),
        1 <= k,
        match_behind(m, from, k) is Some,
    ensures
        k <= steps < m.len(),
        match_behind(m, from, k) == Some(around(from, m.len() - steps, m.len() as int)),
        m[around(from, m.len() - steps, m.len() as int)].matched(),
        forall|q: int|
            k <= q < steps ==> !m[#[trigger] around(from, m.len() - q, m.len() as int)].matched(),
    decreases m.len() - k,
{
    if m[around(from, m.len() - k, m.len() as int)].matched() {
        k
    } else {
        behind_is_first(m, from, k + 1)
    }
}

/// The previous match is the last one before a place, going round at the start.
pub proof fn previous_match_comes_before(m: Seq<search::SearchMatchView>, from: int, to: int)
    requires
        0 <= from < m.len(),
        prev_match(m, from) == Some(to),
    ensures
        0 <= to < m.len(),
        to != from,
        m[to].matched(),
        to < from ==> forall|j: int| to < j < from ==> !(#[trigger] m[j]).matched(),
        to > from ==> forall|j: int|
            0 <= j < from || to < j < m.len() ==> !(#[trigger] m[j]).matched(),
{
    let n = m.len() as int;
    let steps = behind_is_first(m, from, 1);
    assert forall|j: int| 0 <= j < n && j != from && (if j < from {
        from - j
    } else {
        from - j + n
    }) < steps implies !(#[trigger] m[j]).matched() by {
        let q = if j < from {
            from - j
        } else {
            from - j + n
        };
        assert(around(from, n - q, n) == j);
    }
}

/// As many matches stand before a place as there are matching commits before it.
pub proof fn matches_are_counted(m: Seq<search::SearchMatchView>, n: int)
    requires
        0 <= n <= m.len(),
    ensures
        matches_before(m, n) == m.take(n).filter(|x: search::SearchMatchView| x.matched()).len(),
    decreases n,
{
    let keep = |x: search::SearchMatchView| x.matched();
    reveal(Seq::filter);
    if n > 0 {
        matches_are_counted(m, n - 1);
        assert(m.take(n).drop_last() =~= m.take(n - 1));
        assert(m.take(n).last() == m[n - 1]);
    } else {
        assert(m.take(n) =~= Seq::<search::SearchMatchView>::empty());
    }
}

/// There is no previous match exactly where no other commit matches.
pub proof fn prev_match_misses_none(m: Seq<search::SearchMatchView>, from: int)
    requires
        0 <= from < m.len(),
    ensures
        prev_match(m, from) is None <==> forall|i: int|
            0 <= i < m.len() && i != from ==> !(#[trigger] m[i]).matched(),
{
    let n = m.len() as int;
    if prev_match(m, from) is None {
        none_behind(m, from, 1);
        assert forall|i: int| 0 <= i < m.len() && i != from implies !(#[trigger] m[i]).matched() by {
            let k = if i < from {
                from - i
            } else {
                from - i + n
            };
            assert(around(from, n - k, n) == i);
        }
    } else {
        let steps = behind_is_first(m, from, 1);
        assert(m[around(from, n - steps, n)].matched());
    }
}

proof fn none_behind(m: Seq<search::SearchMatchView>, from: int, k: int)
    requires
        0 <= from < m.len(),
        1 <= k,
        match_behind(m, from, k) is None,
    ensures
        forall|q: int|
            k <= q < m.len() ==> !m[#[trigger] around(from, m.len() - q, m.len() as int)].matched(),
    decreases m.len() - k,
{
    if k < m.len() {
        none_behind(m, from, k + 1);
    }
}

} // verus!
