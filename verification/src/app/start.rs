//! How the program starts: the list of commits is put together.

use std::rc::Rc;
use vstd::prelude::*;
use vstd::string::*;
use crate::color::GraphColorSet;
use crate::git;
use crate::git::{Head, Ref, Repository};
use crate::graph::Graph;
use crate::input;
use crate::names;
use crate::names::NameMap;
use crate::widget::branch_visual;
use crate::widget::branch_visual::BranchVisuals;
use crate::widget::commit_list;
use crate::widget::commit_list::CommitListState;
use crate::widget::commit_row;
use crate::widget::commit_row::CommitInfo;
use crate::widget::cursor::Cursor;
use crate::widget::search;
use crate::widget::search::SearchState;

verus! {

/// How wide a cell of the graph is drawn.
#[derive(Debug, Clone, Copy, PartialEq, Eq, Structural)]
pub enum CellWidthType {
    Double,
    Single,
}

/// Which commit is selected at first.
#[derive(Debug, Clone, Copy, PartialEq, Eq, Structural)]
pub enum InitialSelection {
    Latest,
    Head,
}

/// The columns that the graph takes.
pub open spec fn graph_columns(max_pos_x: usize, cell: CellWidthType) -> int {
    let lanes = (max_pos_x + 1) as u16;
    match cell {
        CellWidthType::Double => lanes * 2,
        CellWidthType::Single => lanes as int,
    }
}

/// The columns that the graph takes, where they can be counted.
pub fn graph_cell_width(max_pos_x: usize, cell_width_type: CellWidthType) -> (r: Option<u16>)
    ensures
        match r {
            Some(w) => max_pos_x < usize::MAX && w == graph_columns(max_pos_x, cell_width_type),
            None => max_pos_x == usize::MAX || graph_columns(max_pos_x, cell_width_type)
                > u16::MAX,
        },
{
    if max_pos_x == usize::MAX {
        return None;
    }
    let lanes = #[verifier::truncate] ((max_pos_x + 1) as u16);
    match cell_width_type {
        CellWidthType::Double => if lanes > u16::MAX / 2 {
            None
        } else {
            Some(lanes * 2)
        },
        CellWidthType::Single => Some(lanes),
    }
}

/// A commit of the graph as it stands in the list.
pub open spec fn info_of(
    graph: &Graph,
    references: Map<Seq<char>, Vec<Ref>>,
    colors: &GraphColorSet,
    i: int,
) -> commit_row::InfoView {
    let commit = graph.commits@[i]@;
    commit_row::InfoView {
        commit,
        refs: git::ref_views(names::listed(references, commit.hash)),
        color: colors.lane(graph.commit_pos_map@[commit.hash].0 as int).on_terminal(),
    }
}

/// The names of some references, each with the number of the commit that it stands for.
pub open spec fn with_names(
    m: Map<Seq<char>, usize>,
    refs: Seq<git::RefView>,
    i: usize,
) -> Map<Seq<char>, usize>
    decreases refs.len(),
{
    if refs.len() == 0 {
        m
    } else {
        with_names(m, refs.drop_last(), i).insert(refs.last().name(), i)
    }
}

/// The names of the references of the first `k` commits, each with the number of the last commit
/// that it stands for.
pub open spec fn ref_index(infos: Seq<commit_row::InfoView>, k: int) -> Map<Seq<char>, usize>
    decreases k,
{
    if k <= 0 {
        Map::empty()
    } else {
        with_names(ref_index(infos, k - 1), infos[k - 1].refs, (k - 1) as usize)
    }
}

fn add_names(m: &mut NameMap<usize>, refs: &Vec<&Ref>, i: usize)
    requires
        old(m).wf(),
    ensures
        final(m).wf(),
        final(m)@ == with_names(old(m)@, search::ref_list(refs@), i),
{
    let ghost all = search::ref_list(refs@);
    let ghost before = m@;
    let mut k: usize = 0;
    assert(all.take(0) =~= Seq::<git::RefView>::empty());
    while k < refs.len()
        invariant
            k <= refs@.len(),
            all == search::ref_list(refs@),
            m.wf(),
            m@ == with_names(before, all.take(k as int), i),
        decreases refs@.len() - k,
    {
        proof {
            assert(all.take(k + 1).drop_last() =~= all.take(k as int));
            assert(all.take(k + 1).last() == refs@[k as int]@);
        }
        m.insert(refs[k].name(), i);
        k = k + 1;
    }
    assert(all.take(k as int) =~= all);
}

/// The commits of the graph with their references and colours, and where each reference stands.
pub fn commit_infos<'a>(
    repository: &'a Repository,
    graph: &Graph<'a>,
    graph_color_set: &GraphColorSet,
) -> (r: (Vec<CommitInfo<'a>>, NameMap<usize>))
    requires
        repository.wf(),
        graph.wf(),
        graph.commits@.len() > 0 ==> graph_color_set.colors@.len() > 0,
    ensures
        r.1.wf(),
        commit_list::info_views(r.0@) == Seq::new(
            graph.commits@.len(),
            |i: int| info_of(graph, repository.references(), graph_color_set, i),
        ),
        r.1@ == ref_index(commit_list::info_views(r.0@), graph.commits@.len() as int),
{
    let ghost want = Seq::new(
        graph.commits@.len(),
        |i: int| info_of(graph, repository.references(), graph_color_set, i),
    );
    let mut infos: Vec<CommitInfo<'a>> = Vec::new();
    let mut index: NameMap<usize> = NameMap::new();
    let mut i: usize = 0;
    while i < graph.commits.len()
        invariant
            i <= graph.commits@.len(),
            repository.wf(),
            graph.wf(),
            graph.commits@.len() > 0 ==> graph_color_set.colors@.len() > 0,
            want.len() == graph.commits@.len(),
            forall|j: int|
                0 <= j < want.len() ==> #[trigger] want[j] == info_of(
                    graph,
                    repository.references(),
                    graph_color_set,
                    j,
                ),
            infos@.len() == i,
            forall|j: int| 0 <= j < i ==> (#[trigger] infos@[j])@ == want[j],
            index.wf(),
            index@ == ref_index(want, i as int),
        decreases graph.commits@.len() - i,
    {
        let commit = graph.commits[i];
        let refs = repository.refs(&commit.commit_hash);
        add_names(&mut index, &refs, i);
        assert(graph.commit_pos_map@.contains_key(graph.commits@[i as int].commit_hash@));
        let place = *graph.commit_pos_map.get(commit.commit_hash.as_str()).unwrap();
        let color = graph_color_set.get(place.0).to_color();
        let ghost seen = search::ref_list(refs@);
        proof {
            let held = git::held(refs@);
            assert(seen =~= git::ref_views(held));
            assert(want[i as int].refs == seen);
        }
        let info = CommitInfo::new(commit, refs, color);
        assert(info@ == want[i as int]);
        infos.push(info);
        i = i + 1;
    }
    assert(commit_list::info_views(infos@) =~= want);
    (infos, index)
}

/// The list as it starts: nothing is searched, and the first commit is selected.
pub open spec fn list_at_start(
    infos: Seq<commit_row::InfoView>,
    graph_cell_width: u16,
    head: git::HeadView,
    visuals: BranchVisuals,
    ignore_case: bool,
    fuzzy: bool,
) -> commit_list::ListStateView {
    commit_list::ListStateView {
        infos,
        graph_cell_width,
        head,
        visuals,
        ref_index: ref_index(infos, infos.len() as int),
        search_state: SearchState::Inactive,
        input: input::filled(Seq::empty()),
        matches: Seq::new(infos.len(), |i: int| search::no_match()),
        cursor: Cursor { selected: 0, offset: 0, total: infos.len() as usize, height: 0 },
        default_ignore_case: ignore_case,
        default_fuzzy: fuzzy,
    }
}

/// The list with the commit that is checked out selected, where it is known.
pub open spec fn at_head(l: commit_list::ListStateView) -> commit_list::ListStateView {
    match l.head {
        git::HeadView::Branch { name } => if l.ref_index.contains_key(name) {
            l.moved(l.cursor.to(l.ref_index[name] as int))
        } else {
            l
        },
        git::HeadView::Detached { target } => if commit_list::has_hash(l.infos, target) {
            l.moved(l.cursor.to(commit_list::find_hash(l.infos, target, 0)))
        } else {
            l
        },
        git::HeadView::Unborn => l,
    }
}

/// Puts the list of commits together.
pub fn build_commit_list<'a>(
    repository: &'a Repository,
    graph: &Graph<'a>,
    graph_color_set: &GraphColorSet,
    graph_cell_width: u16,
    initial_selection: InitialSelection,
    ignore_case: bool,
    fuzzy: bool,
) -> (r: CommitListState<'a>)
    requires
        repository.wf(),
        graph.wf(),
        graph.commits@.len() > 0 ==> graph_color_set.colors@.len() > 0,
    ensures
        r.wf(),
        r@.visuals.ref_colors@ == branch_visual::lane_colors(
            branch_visual::graph_hashes(graph),
            repository.references(),
            graph.commit_pos_map@,
            graph_color_set,
        ),
        r@.visuals.fallback_colors@ == Seq::new(
            graph_color_set.colors@.len(),
            |i: int| graph_color_set.colors@[i].on_terminal(),
        ),
        ({
            let l = list_at_start(
                Seq::new(
                    graph.commits@.len(),
                    |i: int| info_of(graph, repository.references(), graph_color_set, i),
                ),
                graph_cell_width,
                repository.checked_out()@,
                r@.visuals,
                ignore_case,
                fuzzy,
            );
            r@ == match initial_selection {
                InitialSelection::Head => at_head(l),
                InitialSelection::Latest => l,
            }
        }),
{
    let branch_visuals: Rc<BranchVisuals> = BranchVisuals::new(
        repository,
        graph,
        graph_color_set,
    ).rc();
    let (infos, index) = commit_infos(repository, graph, graph_color_set);
    let head = repository.head();
    let mut list = CommitListState::new(
        infos,
        graph_cell_width,
        head,
        branch_visuals,
        index,
        ignore_case,
        fuzzy,
    );
    assert(list@.matches =~= Seq::new(list@.infos.len(), |i: int| search::no_match()));
    match initial_selection {
        InitialSelection::Head => match head {
            Head::Branch { name } => list.select_ref(name.as_str()),
            Head::Detached { target } => list.select_commit_hash(target),
            Head::Unborn => {},
        },
        InitialSelection::Latest => {},
    }
    list
}

proof fn with_names_knows(m: Map<Seq<char>, usize>, refs: Seq<git::RefView>, i: usize, name: Seq<char>)
    ensures
        with_names(m, refs, i).contains_key(name) <==> m.contains_key(name) || exists|k: int|
            0 <= k < refs.len() && (#[trigger] refs[k]).name() == name,
        (exists|k: int| 0 <= k < refs.len() && (#[trigger] refs[k]).name() == name) ==> with_names(
            m,
            refs,
            i,
        )[name] == i,
        !(exists|k: int| 0 <= k < refs.len() && (#[trigger] refs[k]).name() == name)
            && m.contains_key(name) ==> with_names(m, refs, i)[name] == m[name],
    decreases refs.len(),
{
    if refs.len() > 0 {
        let front = refs.drop_last();
        with_names_knows(m, front, i, name);
        if exists|k: int| 0 <= k < front.len() && (#[trigger] front[k]).name() == name {
            let k = choose|k: int| 0 <= k < front.len() && (#[trigger] front[k]).name() == name;
            assert(refs[k].name() == name);
        }
        if refs.last().name() == name {
            assert(refs[refs.len() - 1].name() == name);
        }
        if exists|k: int| 0 <= k < refs.len() && (#[trigger] refs[k]).name() == name {
            let k = choose|k: int| 0 <= k < refs.len() && (#[trigger] refs[k]).name() == name;
            if k < front.len() {
                assert(front[k].name() == name);
            }
        }
    }
}

/// Whether a commit has a reference with a name.
pub open spec fn is_named(info: commit_row::InfoView, name: Seq<char>) -> bool {
    exists|k: int| 0 <= k < info.refs.len() && (#[trigger] info.refs[k]).name() == name
}

/// Each name that a commit of the list has is found, and leads to a commit that has it.
pub proof fn references_are_found(infos: Seq<commit_row::InfoView>, k: int, name: Seq<char>)
    requires
        0 <= k <= infos.len() <= usize::MAX,
    ensures
        ref_index(infos, k).contains_key(name) <==> exists|i: int|
            0 <= i < k && is_named(#[trigger] infos[i], name),
        ref_index(infos, k).contains_key(name) ==> ref_index(infos, k)[name] < k && is_named(
            infos[ref_index(infos, k)[name] as int],
            name,
        ),
    decreases k,
{
    if k > 0 {
        references_are_found(infos, k - 1, name);
        with_names_knows(
            ref_index(infos, k - 1),
            infos[k - 1].refs,
            (k - 1) as usize,
            name,
        );
        if is_named(infos[k - 1], name) {
            assert(is_named(infos[k - 1], name));
        }
        if exists|i: int| 0 <= i < k && is_named(#[trigger] infos[i], name) {
            let i = choose|i: int| 0 <= i < k && is_named(#[trigger] infos[i], name);
            if i < k - 1 {
                assert(is_named(infos[i], name));
            }
        }
    }
}

/// Where the head is to be selected, the list begins at the commit that has the branch, or at the
/// very commit where the head is detached. Without such a commit it begins at the latest.
pub proof fn lists_begin_at_the_head(
    infos: Seq<commit_row::InfoView>,
    width: u16,
    head: git::HeadView,
    visuals: BranchVisuals,
    ignore_case: bool,
    fuzzy: bool,
    i: int,
)
    requires
        0 <= i < infos.len() <= usize::MAX,
    ensures
        ({
            let l = at_head(list_at_start(infos, width, head, visuals, ignore_case, fuzzy));
            &&& head matches git::HeadView::Branch { name } ==> is_named(infos[i], name)
                ==> l.cursor.on_item() && is_named(l.selected(), name)
            &&& head matches git::HeadView::Detached { target } ==> infos[i].commit.hash == target
                ==> l.cursor.on_item() && l.selected().commit.hash == target
            &&& head is Unborn ==> l.selected() == infos[0]
            &&& l.infos == infos
        }),
{
    let l = list_at_start(infos, width, head, visuals, ignore_case, fuzzy);
    match head {
        git::HeadView::Branch { name } => {
            references_are_found(infos, infos.len() as int, name);
        },
        git::HeadView::Detached { target } => {
            if infos[i].commit.hash == target {
                assert(commit_list::has_hash(infos, target));
                commit_list::find_hash_finds(infos, target, 0, i);
            }
        },
        _ => {},
    }
}

/// The graph takes one column for each lane, or two where a cell is double.
pub proof fn lanes_take_their_columns(max_pos_x: usize, single: Option<u16>, double: Option<u16>)
    requires
        call_ensures(graph_cell_width, (max_pos_x, CellWidthType::Single), single),
        call_ensures(graph_cell_width, (max_pos_x, CellWidthType::Double), double),
        2 * (max_pos_x + 1) <= u16::MAX,
    ensures
        single matches Some(w) && w == max_pos_x + 1,
        double matches Some(w) && w == 2 * (max_pos_x + 1),
{
    assert((max_pos_x + 1) as u16 == max_pos_x + 1);
}

} // verus!
