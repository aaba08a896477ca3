//! How branches are named and coloured.

use std::hash::{DefaultHasher, Hash, Hasher};
use std::rc::Rc;
use vstd::prelude::*;
use vstd::std_specs::hash::DefaultHasherAdditionalSpecFns;
use vstd::string::*;
use crate::color::{Color, GraphColorSet};
use crate::git;
use crate::git::{Head, Ref, Repository};
use crate::graph::Graph;
use crate::names;
use crate::names::NameMap;
use crate::span;
use crate::span::Span;
use crate::text;

verus! {

pub const REMOTE_ICON: &'static str = "☁";

pub const HEAD_ICON: &'static str = "◎";

/// What a text writes into a hasher.
pub uninterp spec fn text_writes(s: Seq<char>) -> Seq<Seq<u8>>;

/// `str::hash`, into the standard library's default hasher: the text alone determines what is
/// written.
#[verifier::external_body]
fn write_text(s: &str, hasher: &mut DefaultHasher)
    ensures
        final(hasher)@ == old(hasher)@ + text_writes(s@),
{
    s.hash(hasher);
}

/// The hash of a text, by a new hasher.
pub open spec fn text_hash(s: Seq<char>) -> u64 {
    DefaultHasher::spec_finish(text_writes(s))
}

pub(crate) fn hash_text(s: &str) -> (r: u64)
    ensures
        r == text_hash(s@),
{
    let mut hasher = DefaultHasher::new();
    write_text(s, &mut hasher);
    assert(hasher@ =~= text_writes(s@));
    hasher.finish()
}

/// The place that a hash picks among some.
pub open spec fn picked(hash: u64, n: int) -> int {
    (hash as usize) as int % n
}

/// Picks a place among some by a hash.
pub fn pick(hash: u64, n: usize) -> (r: usize)
    requires
        n > 0,
    ensures
        r == picked(hash, n as int),
        r < n,
{
    let place = #[verifier::truncate] (hash as usize);
    place % n
}

/// A branch's name without the first part, which names the remote; the name itself where it has
/// one part only.
pub open spec fn without_remote(name: Seq<char>) -> Seq<char> {
    text::after_first(name, '/')
}

/// The last part of a branch's name.
pub open spec fn short_name(name: Seq<char>) -> Seq<char> {
    text::after_last(name, '/')
}

fn canonical_branch_name(name: &str) -> (r: String)
    ensures
        r@ == without_remote(name@),
{
    strip_remote_prefix(name)
}

pub fn strip_remote_prefix(name: &str) -> (r: String)
    ensures
        r@ == without_remote(name@),
{
    text::rest_after_first(name, '/')
}

pub fn final_branch_segment(name: &str) -> (r: String)
    ensures
        r@ == short_name(name@),
{
    let parts = text::split(name, '/');
    proof {
        text::pieces_nonempty(name@, '/');
        assert(text::texts(parts@).last() == parts@.last()@);
    }
    parts[parts.len() - 1].clone()
}

/// The text under which a reference is shown.
pub open spec fn shown(r: git::RefView, shorten: bool) -> Seq<char> {
    match r {
        git::RefView::Branch { name, .. } => if shorten {
            short_name(name)
        } else {
            name
        },
        git::RefView::RemoteBranch { name, .. } => if shorten {
            short_name(without_remote(name))
        } else {
            without_remote(name)
        },
        git::RefView::Tag { name, .. } => name,
        git::RefView::Stash { name, .. } => name,
    }
}

/// The name that a branch has wherever it is: a remote branch has that of the local one.
pub open spec fn branch_name(r: git::RefView) -> Option<Seq<char>> {
    match r {
        git::RefView::Branch { name, .. } => Some(name),
        git::RefView::RemoteBranch { name, .. } => Some(without_remote(name)),
        _ => None,
    }
}

/// What marks the place of what is checked out.
pub open spec fn head_mark(branch: Option<Seq<char>>, shorten: bool, color: Color) -> Seq<
    span::SpanView,
> {
    let icon = seq![span::bold_span(HEAD_ICON@, color)];
    match branch {
        Some(name) => icon.push(span::bold_span(" "@, color)).push(
            span::bold_span(
                if shorten {
                    short_name(name)
                } else {
                    name
                },
                color,
            ),
        ),
        None => icon,
    }
}

/// The colours that the references at a commit bring: each branch there gets the commit's colour.
pub open spec fn colors_with(m: Map<Seq<char>, Color>, refs: Seq<Ref>, color: Color) -> Map<
    Seq<char>,
    Color,
>
    decreases refs.len(),
{
    if refs.len() == 0 {
        m
    } else {
        let rest = colors_with(m, refs.drop_last(), color);
        match refs.last()@ {
            git::RefView::Branch { name, .. } => rest.insert(name, color),
            git::RefView::RemoteBranch { name, .. } => rest.insert(name, color),
            _ => rest,
        }
    }
}

/// The colours of the branches: each has that of the lane on which its commit is drawn.
pub open spec fn lane_colors(
    commits: Seq<Seq<char>>,
    refs: Map<Seq<char>, Vec<Ref>>,
    places: Map<Seq<char>, (usize, usize)>,
    lanes: &GraphColorSet,
) -> Map<Seq<char>, Color>
    decreases commits.len(),
{
    if commits.len() == 0 {
        Map::empty()
    } else {
        let hash = commits.last();
        colors_with(
            lane_colors(commits.drop_last(), refs, places, lanes),
            names::listed(refs, hash),
            lanes.lane(places[hash].0 as int).on_terminal(),
        )
    }
}

/// The hashes of the commits that a graph shows.
pub open spec fn graph_hashes(graph: &Graph) -> Seq<Seq<char>> {
    Seq::new(graph.commits@.len(), |i: int| graph.commits@[i].commit_hash@)
}

/// The colours of branches, and those for branches that have none of their own.
#[derive(Debug)]
pub struct BranchVisuals {
    pub ref_colors: NameMap<Color>,
    pub fallback_colors: Vec<Color>,
}

impl BranchVisuals {
    pub open spec fn wf(&self) -> bool {
        self.ref_colors.wf()
    }

    /// The colour for a branch that has none of its own, by the hash of its name.
    pub open spec fn fallback(&self, hash: u64) -> Color {
        if self.fallback_colors@.len() == 0 {
            Color::Reset
        } else {
            self.fallback_colors@[picked(hash, self.fallback_colors@.len() as int)]
        }
    }

    pub open spec fn name_color(&self, name: Seq<char>) -> Color {
        if self.ref_colors@.contains_key(name) {
            self.ref_colors@[name]
        } else {
            self.fallback(text_hash(without_remote(name)))
        }
    }

    pub fn new(repository: &Repository, graph: &Graph, graph_color_set: &GraphColorSet) -> (r:
        BranchVisuals)
        requires
            repository.wf(),
            graph.wf(),
            graph.commits@.len() > 0 ==> graph_color_set.colors@.len() > 0,
        ensures
            r.wf(),
            r.ref_colors@ == lane_colors(
                graph_hashes(graph),
                repository.references(),
                graph.commit_pos_map@,
                graph_color_set,
            ),
            r.fallback_colors@ == Seq::new(
                graph_color_set.colors@.len(),
                |i: int| graph_color_set.colors@[i].on_terminal(),
            ),
    {
        let mut fallback_colors: Vec<Color> = Vec::new();
        let mut k: usize = 0;
        while k < graph_color_set.colors.len()
            invariant
                k <= graph_color_set.colors@.len(),
                fallback_colors@.len() == k,
                forall|j: int|
                    0 <= j < k ==> #[trigger] fallback_colors@[j]
                        == graph_color_set.colors@[j].on_terminal(),
            decreases graph_color_set.colors@.len() - k,
        {
            fallback_colors.push(graph_color_set.colors[k].to_color());
            k = k + 1;
        }
        let mut ref_colors: NameMap<Color> = NameMap::new();
        let ghost all = graph_hashes(graph);
        let mut i: usize = 0;
        assert(all.take(0) =~= Seq::<Seq<char>>::empty());
        while i < graph.commits.len()
            invariant
                i <= graph.commits@.len(),
                all == graph_hashes(graph),
                repository.wf(),
                graph.wf(),
                graph.commits@.len() > 0 ==> graph_color_set.colors@.len() > 0,
                ref_colors.wf(),
                ref_colors@ == lane_colors(
                    all.take(i as int),
                    repository.references(),
                    graph.commit_pos_map@,
                    graph_color_set,
                ),
            decreases graph.commits@.len() - i,
        {
            let hash = &graph.commits[i].commit_hash;
            assert(all[i as int] == hash@);
            assert(graph.commit_pos_map@.contains_key(graph.commits@[i as int].commit_hash@));
            let place = *graph.commit_pos_map.get(hash.as_str()).unwrap();
            let color = graph_color_set.get(place.0).to_color();
            let refs = repository.refs(hash);
            let ghost listed = names::listed(repository.references(), hash@);
            let ghost before = ref_colors@;
            let mut j: usize = 0;
            assert(listed.take(0) =~= Seq::<Ref>::empty());
            while j < refs.len()
                invariant
                    j <= refs@.len(),
                    git::held(refs@) == listed,
                    ref_colors.wf(),
                    ref_colors@ == colors_with(before, listed.take(j as int), color),
                decreases refs@.len() - j,
            {
                let r = refs[j];
                proof {
                    assert(listed[j as int] == *r);
                    assert(listed.take(j + 1).drop_last() =~= listed.take(j as int));
                    assert(listed.take(j + 1).last() == *r);
                }
                match r {
                    Ref::Branch { name, .. } => {
                        ref_colors.insert(name.as_str(), color);
                    },
                    Ref::RemoteBranch { name, .. } => {
                        ref_colors.insert(name.as_str(), color);
                    },
                    _ => {},
                }
                j = j + 1;
            }
            proof {
                assert(listed.take(j as int) =~= listed);
                assert(all.take(i + 1).drop_last() =~= all.take(i as int));
                assert(all.take(i + 1).last() == hash@);
            }
            i = i + 1;
        }
        assert(all.take(i as int) =~= all);
        BranchVisuals { ref_colors, fallback_colors }
    }

    pub fn rc(self) -> (r: Rc<BranchVisuals>)
        ensures
            *r == self,
    {
        Rc::new(self)
    }

    pub fn color_for_ref(&self, reference: &Ref) -> (r: Color)
        requires
            self.wf(),
        ensures
            r == self.name_color(reference@.name()),
    {
        self.color_for_name(reference.name())
    }

    pub fn color_for_name(&self, name: &str) -> (r: Color)
        requires
            self.wf(),
        ensures
            r == self.name_color(name@),
    {
        match self.ref_colors.get(name) {
            Some(c) => *c,
            None => self.fallback_color(name),
        }
    }

    fn fallback_color(&self, name: &str) -> (r: Color)
        ensures
            r == self.fallback(text_hash(without_remote(name@))),
    {
        let canonical = canonical_branch_name(name);
        self.fallback_for(hash_text(canonical.as_str()))
    }

    /// The colour that a hash picks.
    pub fn fallback_for(&self, hash: u64) -> (r: Color)
        ensures
            r == self.fallback(hash),
    {
        if self.fallback_colors.len() == 0 {
            return Color::Reset;
        }
        self.fallback_colors[pick(hash, self.fallback_colors.len())]
    }

    /// The text under which a reference is shown, with the cloud before a remote branch.
    pub fn display_label(&self, reference: &Ref, shorten: bool) -> (r: String)
        ensures
            r@ == if reference@ is RemoteBranch {
                REMOTE_ICON@ + " "@ + shown(reference@, shorten)
            } else {
                shown(reference@, shorten)
            },
    {
        let label = self.display_text(reference, shorten);
        match reference {
            Ref::RemoteBranch { .. } => {
                let mut r = REMOTE_ICON.to_string();
                r.append(" ");
                r.append(label.as_str());
                r
            },
            _ => label,
        }
    }

    pub fn display_text(&self, reference: &Ref, shorten: bool) -> (r: String)
        ensures
            r@ == shown(reference@, shorten),
    {
        match reference {
            Ref::Branch { name, .. } => if shorten {
                final_branch_segment(name.as_str())
            } else {
                name.clone()
            },
            Ref::RemoteBranch { name, .. } => {
                let branch_name = strip_remote_prefix(name.as_str());
                if shorten {
                    final_branch_segment(branch_name.as_str())
                } else {
                    branch_name
                }
            },
            Ref::Tag { name, .. } => name.clone(),
            Ref::Stash { name, .. } => name.clone(),
        }
    }

    pub fn canonical_branch_name(&self, reference: &Ref) -> (r: Option<String>)
        ensures
            text::opt_text(r) == branch_name(reference@),
    {
        match reference {
            Ref::Branch { name, .. } => Some(name.clone()),
            Ref::RemoteBranch { name, .. } => Some(strip_remote_prefix(name.as_str())),
            _ => None,
        }
    }

    pub fn head_marker(&self, branch_name: Option<&str>, shorten: bool, color: Color) -> (r: Vec<
        Span,
    >)
        ensures
            span::span_views(r@) == head_mark(text::opt_slice(branch_name), shorten, color),
    {
        let mut spans = span::single(Span::bold(HEAD_ICON, color));
        match branch_name {
            Some(name) => {
                let space = Span::bold(" ", color);
                proof {
                    span::span_views_push(spans@, space);
                }
                spans.push(space);
                let label = if shorten {
                    final_branch_segment(name)
                } else {
                    name.to_string()
                };
                let label = Span::bold(label.as_str(), color);
                proof {
                    span::span_views_push(spans@, label);
                }
                spans.push(label);
            },
            None => {},
        }
        spans
    }

    /// Whether the reference is the branch that is checked out.
    pub fn head_attached_to(&self, head: &Head, reference: &Ref) -> (r: bool)
        ensures
            r == (head@ is Branch && reference@ is Branch && head@->Branch_name
                == reference@.name()),
    {
        match (head, reference) {
            (Head::Branch { name }, Ref::Branch { name: ref_name, .. }) => text::same(
                name.as_str(),
                ref_name.as_str(),
            ),
            _ => false,
        }
    }

    pub fn remote_icon_marker(&self, color: Color) -> (r: Span)
        ensures
            r@ == span::bold_span(REMOTE_ICON@, color),
    {
        Span::bold(REMOTE_ICON, color)
    }

    pub fn remote_spacing(&self, color: Color) -> (r: Span)
        ensures
            r@ == span::bold_span(" "@, color),
    {
        Span::bold(" ", color)
    }

    /// A branch with a name of one part and its remote copies have one colour, as long as none of
    /// them has a colour of its own.
    pub proof fn remotes_share_the_fallback(&self, name: Seq<char>, remote: Seq<char>)
        requires
            !name.contains('/'),
            !remote.contains('/'),
            !self.ref_colors@.contains_key(name),
            !self.ref_colors@.contains_key(remote.push('/') + name),
        ensures
            self.name_color(remote.push('/') + name) == self.name_color(name),
    {
        let full = remote.push('/') + name;
        text::after_first_none(name, '/');
        text::after_first_of(remote, name, '/');
        assert(full =~= remote + seq!['/'] + name);
    }
}

/// A remote branch goes by the name of the local branch that it is a copy of.
pub proof fn remote_copies_share_the_name(
    name: Seq<char>,
    remote: Seq<char>,
    a: Seq<char>,
    b: Seq<char>,
)
    requires
        !remote.contains('/'),
    ensures
        branch_name(git::RefView::RemoteBranch { name: remote.push('/') + name, target: a })
            == branch_name(git::RefView::Branch { name, target: b }),
{
    text::after_first_of(remote, name, '/');
    assert(remote.push('/') + name =~= remote + seq!['/'] + name);
}

/// A branch of a remote is shown without the remote, and shortened a branch is the last part of its
/// name.
pub proof fn names_are_shown(
    remote: Seq<char>,
    front: Seq<char>,
    name: Seq<char>,
    target: Seq<char>,
)
    requires
        !remote.contains('/'),
        !name.contains('/'),
    ensures
        ({
            let path = front + seq!['/'] + name;
            let local = git::RefView::Branch { name: path, target };
            let away = git::RefView::RemoteBranch { name: remote + seq!['/'] + path, target };
            let tag = git::RefView::Tag { name: path, target };
            &&& shown(local, false) == path
            &&& shown(local, true) == name
            &&& shown(away, false) == path
            &&& shown(away, true) == name
            &&& shown(tag, true) == path
            &&& branch_name(local) == Some(path)
            &&& branch_name(away) == Some(path)
            &&& branch_name(tag) is None
        }),
{
    let path = front + seq!['/'] + name;
    text::after_first_of(remote, path, '/');
    text::plain_texts_are_one_piece(name, '/');
    text::pieces_add_up(front, name, '/');
}

/// The head is at a branch of this repository that has the name of the branch that is checked out,
/// and at nothing else.
pub proof fn heads_are_at_their_branch(
    visuals: &BranchVisuals,
    head: &Head,
    reference: &Ref,
    attached: bool,
)
    requires
        call_ensures(BranchVisuals::head_attached_to, (visuals, head, reference), attached),
    ensures
        attached <==> (head@ matches git::HeadView::Branch { name } && (
        reference@ matches git::RefView::Branch { name: other, .. } && name == other)),
{
}

proof fn lane_colors_stay(m: Map<Seq<char>, Color>, refs: Seq<Ref>, color: Color, i: int)
    requires
        0 <= i < refs.len(),
        refs[i]@ is Branch || refs[i]@ is RemoteBranch,
    ensures
        colors_with(m, refs, color).contains_key(refs[i]@.name()),
        colors_with(m, refs, color)[refs[i]@.name()] == color,
    decreases refs.len(),
{
    let front = refs.drop_last();
    if i < front.len() {
        lane_colors_stay(m, front, color, i);
    }
}

/// A branch has the color of the lane of its commit.
pub proof fn branches_have_their_lane(
    commits: Seq<Seq<char>>,
    refs: Map<Seq<char>, Vec<Ref>>,
    places: Map<Seq<char>, (usize, usize)>,
    lanes: &GraphColorSet,
    hash: Seq<char>,
    i: int,
)
    requires
        refs.contains_key(hash),
        0 <= i < refs[hash]@.len(),
        refs[hash]@[i]@ is Branch || refs[hash]@[i]@ is RemoteBranch,
        lanes.colors@.len() > 0,
    ensures
        ({
            let lane = lanes.colors@[places[hash].0 as int % lanes.colors@.len() as int];
            let colors = lane_colors(commits.push(hash), refs, places, lanes);
            &&& colors.contains_key(refs[hash]@[i]@.name())
            &&& colors[refs[hash]@[i]@.name()] == Color::Rgb(lane.r, lane.g, lane.b)
        }),
{
    let all = commits.push(hash);
    assert(all.drop_last() =~= commits);
    lane_colors_stay(
        lane_colors(commits, refs, places, lanes),
        refs[hash]@,
        lanes.lane(places[hash].0 as int).on_terminal(),
        i,
    );
}

} // verus!
