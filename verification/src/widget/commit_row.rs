//! How a commit is drawn in the list.

use vstd::prelude::*;
use vstd::string::*;
use crate::color::{Color, ColorTheme};
use crate::git;
use crate::git::{Commit, Head, Ref};
use crate::names::NameMap;
use crate::span;
use crate::span::{Span, Style};
use crate::text;
use crate::widget::branch_visual;
use crate::widget::branch_visual::BranchVisuals;
use crate::widget::highlight;
use crate::widget::measure;
use crate::widget::search;
use crate::widget::search::SearchMatchPosition;

verus! {

/// A commit of the list with its references and its colour in the graph.
#[derive(Debug)]
pub struct CommitInfo<'a> {
    pub commit: &'a Commit,
    pub refs: Vec<&'a Ref>,
    pub graph_color: Color,
}

pub ghost struct InfoView {
    pub commit: git::CommitView,
    pub refs: Seq<git::RefView>,
    pub color: Color,
}

impl<'a> View for CommitInfo<'a> {
    type V = InfoView;

    open spec fn view(&self) -> InfoView {
        InfoView { commit: self.commit@, refs: search::ref_list(self.refs@), color: self.graph_color }
    }
}

impl<'a> CommitInfo<'a> {
    pub fn new(commit: &'a Commit, refs: Vec<&'a Ref>, graph_color: Color) -> (r: CommitInfo<'a>)
        ensures
            r.commit == commit,
            r.refs == refs,
            r.graph_color == graph_color,
    {
        CommitInfo { commit, refs, graph_color }
    }
}

/// The positions from `offset` on, counted from there.
pub open spec fn shifted(positions: Seq<usize>, offset: int) -> Seq<usize>
    decreases positions.len(),
{
    if positions.len() == 0 {
        Seq::empty()
    } else {
        let rest = shifted(positions.drop_last(), offset);
        if positions.last() >= offset {
            rest.push((positions.last() - offset) as usize)
        } else {
            rest
        }
    }
}

/// How many bytes of a name stand before the label that ends it.
pub open spec fn label_offset(full_name: Seq<char>, label: Seq<char>) -> int {
    if text::byte_count(full_name) >= text::byte_count(label) {
        text::byte_count(full_name) - text::byte_count(label)
    } else {
        0
    }
}

/// Where a match in a name shows in the label that ends the name, if it shows there at all.
pub open spec fn label_positions(
    full_name: Seq<char>,
    label: Seq<char>,
    positions: Seq<usize>,
) -> Option<Seq<usize>> {
    let shown = shifted(positions, label_offset(full_name, label));
    if shown.len() == 0 {
        None
    } else {
        Some(shown)
    }
}

pub fn display_match_position(full_name: &str, display_label: &str, pos: &SearchMatchPosition) -> (r:
    Option<SearchMatchPosition>)
    ensures
        search::opt_position(r) == label_positions(full_name@, display_label@, pos.matched_indices@),
{
    let full = text::byte_len(full_name);
    let label = text::byte_len(display_label);
    let offset = if full >= label {
        full - label
    } else {
        0
    };
    let ghost all = pos.matched_indices@;
    let mut shown: Vec<usize> = Vec::new();
    let mut i: usize = 0;
    assert(all.take(0) =~= Seq::<usize>::empty());
    while i < pos.matched_indices.len()
        invariant
            i <= pos.matched_indices@.len(),
            all == pos.matched_indices@,
            shown@ == shifted(all.take(i as int), offset as int),
        decreases pos.matched_indices@.len() - i,
    {
        let index = pos.matched_indices[i];
        assert(all.take(i + 1).drop_last() =~= all.take(i as int));
        if index >= offset {
            shown.push(index - offset);
        }
        i = i + 1;
    }
    assert(all.take(i as int) =~= all);
    if shown.len() == 0 {
        None
    } else {
        Some(SearchMatchPosition::new(shown))
    }
}

/// A reference as it is drawn: its text, whether the cloud stands before it, its colour, and what
/// of its text matched.
pub ghost struct LabelView {
    pub name: Seq<char>,
    pub cloud: bool,
    pub shown: Seq<char>,
    pub fg: Color,
    pub matched: Option<Seq<usize>>,
}

impl LabelView {
    /// Whether what matched can be marked.
    pub open spec fn clean(self) -> bool {
        self.matched matches Some(m) ==> highlight::cuts_cleanly(
            self.shown,
            m,
            text::byte_count(self.shown),
        )
    }

    /// Whether the spans show the text of the label.
    pub open spec fn text_drawn(self, theme: ColorTheme, spans: Seq<span::SpanView>) -> bool {
        match self.matched {
            Some(m) => highlight::highlights(self.shown, m, self.fg, true, theme, false, spans),
            None => spans == seq![span::bold_span(self.shown, self.fg)],
        }
    }

    /// Whether the spans show the label: the cloud, where it has one, and the text.
    pub open spec fn drawn(self, theme: ColorTheme, spans: Seq<span::SpanView>) -> bool {
        let front = if self.cloud {
            seq![span::bold_span("☁ "@, self.fg)]
        } else {
            seq![]
        };
        &&& spans.len() >= front.len()
        &&& spans.take(front.len() as int) == front
        &&& self.text_drawn(theme, spans.skip(front.len() as int))
    }
}

/// Where a name's match shows in a label.
pub open spec fn shown_match(name: Seq<char>, shown: Seq<char>, matched: Option<Seq<usize>>) -> Option<
    Seq<usize>,
> {
    match matched {
        Some(m) => label_positions(name, shown, m),
        None => None,
    }
}

/// The label of a reference with this full name.
pub open spec fn label_of(
    r: git::RefView,
    full_name: Seq<char>,
    fg: Color,
    matched: Option<Seq<usize>>,
) -> LabelView {
    let shown = if r is Branch || r is RemoteBranch {
        branch_visual::shown(r, true)
    } else {
        full_name
    };
    LabelView {
        name: full_name,
        cloud: r is RemoteBranch,
        shown,
        fg,
        matched: shown_match(full_name, shown, matched),
    }
}

fn draw_text(
    name: &str,
    shown: &str,
    pos: Option<&SearchMatchPosition>,
    fg: Color,
    color_theme: &ColorTheme,
) -> (r: Option<Vec<Span>>)
    ensures
        ({
            let label = LabelView {
                name: name@,
                cloud: false,
                shown: shown@,
                fg,
                matched: shown_match(name@, shown@, borrowed_indices(pos)),
            };
            match r {
                Some(spans) => label.clean() && label.text_drawn(
                    *color_theme,
                    span::span_views(spans@),
                ),
                None => !label.clean(),
            }
        }),
{
    let shown_pos = match pos {
        Some(p) => display_match_position(name, shown, p),
        None => None,
    };
    match shown_pos {
        Some(p) => highlight::highlight(shown, p, fg, true, color_theme, false),
        None => Some(span::single(Span::bold(shown, fg))),
    }
}

/// What an optional borrowed position says.
pub open spec fn borrowed_indices(r: Option<&SearchMatchPosition>) -> Option<Seq<usize>> {
    match r {
        Some(p) => Some(p.matched_indices@),
        None => None,
    }
}

/// Draws a branch's label. There is none where a match would cut a character in two.
pub fn display_branch_ref_spans(
    branch_visuals: &BranchVisuals,
    reference: &Ref,
    full_name: &str,
    pos: Option<&SearchMatchPosition>,
    fg: Color,
    color_theme: &ColorTheme,
) -> (r: Option<Vec<Span>>)
    ensures
        ({
            let label = label_of(reference@, full_name@, fg, borrowed_indices(pos));
            match r {
                Some(spans) => label.clean() && label.drawn(
                    *color_theme,
                    span::span_views(spans@),
                ),
                None => !label.clean(),
            }
        }),
{
    let shown = match reference {
        Ref::RemoteBranch { .. } => branch_visuals.display_text(reference, true),
        Ref::Branch { .. } => branch_visuals.display_text(reference, true),
        _ => full_name.to_string(),
    };
    let drawn = draw_text(full_name, shown.as_str(), pos, fg, color_theme);
    let cloud = match reference {
        Ref::RemoteBranch { .. } => true,
        _ => false,
    };
    match drawn {
        None => None,
        Some(mut spans) => {
            if cloud {
                let mut r = span::single(Span::bold("☁ ", fg));
                proof {
                    span::span_views_add(r@, spans@);
                    let a = span::span_views(r@);
                    let b = span::span_views(spans@);
                    assert((a + b).take(1) =~= a);
                    assert((a + b).skip(1) =~= b);
                }
                r.append(&mut spans);
                Some(r)
            } else {
                proof {
                    let b = span::span_views(spans@);
                    assert(b.take(0) =~= Seq::<span::SpanView>::empty());
                    assert(b.skip(0) =~= b);
                }
                Some(spans)
            }
        },
    }
}

/// What a map of matches says of a name.
pub open spec fn match_in(m: Map<Seq<char>, Seq<usize>>, name: Seq<char>) -> Option<Seq<usize>> {
    if m.contains_key(name) {
        Some(m[name])
    } else {
        None
    }
}

/// Whether one of the references is the local branch with this name.
pub open spec fn has_local(refs: Seq<git::RefView>, name: Seq<char>) -> bool {
    exists|i: int| 0 <= i < refs.len() && refs[i] is Branch && (#[trigger] refs[i]).name() == name
}

/// Whether a reference gets a label of its own: a stash does not, and neither does the remote copy
/// of a branch that is there too.
pub open spec fn is_labelled(refs: Seq<git::RefView>, r: git::RefView) -> bool {
    match r {
        git::RefView::Stash { .. } => false,
        git::RefView::RemoteBranch { name, .. } => !has_local(
            refs,
            branch_visual::without_remote(name),
        ),
        _ => true,
    }
}

/// The colour of a reference's label.
pub open spec fn label_color(r: git::RefView, visuals: &BranchVisuals, theme: ColorTheme) -> Color {
    if r is Tag {
        theme.list_ref_tag_fg
    } else {
        visuals.name_color(r.name())
    }
}

/// The labels of the first `n` references.
pub open spec fn labels(
    refs: Seq<git::RefView>,
    n: int,
    visuals: &BranchVisuals,
    matches: Map<Seq<char>, Seq<usize>>,
    theme: ColorTheme,
) -> Seq<LabelView>
    decreases n,
{
    if n <= 0 {
        Seq::empty()
    } else {
        let rest = labels(refs, n - 1, visuals, matches, theme);
        let r = refs[n - 1];
        if is_labelled(refs, r) {
            rest.push(
                label_of(
                    r,
                    r.name(),
                    label_color(r, visuals, theme),
                    match_in(matches, r.name()),
                ),
            )
        } else {
            rest
        }
    }
}

/// Whether each label is drawn by its spans.
pub open spec fn all_drawn(
    l: Seq<LabelView>,
    theme: ColorTheme,
    drawings: Seq<Seq<span::SpanView>>,
) -> bool {
    &&& drawings.len() == l.len()
    &&& forall|i: int| 0 <= i < l.len() ==> (#[trigger] l[i]).drawn(theme, drawings[i])
}

/// What stands between two labels.
pub open spec fn comma(color: Color) -> Seq<span::SpanView> {
    seq![span::bold_span(", "@, color)]
}

/// What shows the label with this number: the branch that is checked out is marked.
pub open spec fn label_part(
    l: Seq<LabelView>,
    drawings: Seq<Seq<span::SpanView>>,
    i: int,
    head: git::HeadView,
    color: Color,
) -> Seq<span::SpanView> {
    match head {
        git::HeadView::Branch { name } => if l[i].name == name {
            branch_visual::head_mark(Some(name), true, color)
        } else {
            drawings[i]
        },
        _ => drawings[i],
    }
}

/// The first `n` labels in a row, each but the last followed by a comma.
pub open spec fn in_a_row(
    l: Seq<LabelView>,
    drawings: Seq<Seq<span::SpanView>>,
    n: int,
    head: git::HeadView,
    color: Color,
) -> Seq<span::SpanView>
    decreases n,
{
    if n <= 0 {
        Seq::empty()
    } else {
        in_a_row(l, drawings, n - 1, head, color) + label_part(l, drawings, n - 1, head, color)
            + if n < l.len() {
            comma(color)
        } else {
            Seq::empty()
        }
    }
}

/// What marks a commit that is checked out without a branch.
pub open spec fn detached_mark(
    info: InfoView,
    head: git::HeadView,
    more: bool,
) -> Seq<span::SpanView> {
    match head {
        git::HeadView::Detached { target } => if info.commit.hash == target {
            branch_visual::head_mark(None, false, info.color) + if more {
                comma(info.color)
            } else {
                Seq::empty()
            }
        } else {
            Seq::empty()
        },
        _ => Seq::empty(),
    }
}

/// Whether a commit's only reference is a stash.
pub open spec fn lone_stash(info: InfoView) -> bool {
    info.refs.len() == 1 && info.refs[0] is Stash
}

/// Whether the spans show what stands at a commit.
pub open spec fn shows_status(
    info: InfoView,
    head: git::HeadView,
    visuals: &BranchVisuals,
    matches: Map<Seq<char>, Seq<usize>>,
    theme: ColorTheme,
    spans: Seq<span::SpanView>,
) -> bool {
    if lone_stash(info) {
        spans == seq![span::bold_span(info.refs[0].name(), info.color)]
    } else {
        let l = labels(info.refs, info.refs.len() as int, visuals, matches, theme);
        exists|drawings: Seq<Seq<span::SpanView>>| #[trigger]
            all_drawn(l, theme, drawings) && spans == detached_mark(info, head, l.len() > 0)
                + in_a_row(l, drawings, l.len() as int, head, info.color)
    }
}

/// Whether the matches in all labels can be marked.
pub open spec fn labels_clean(
    info: InfoView,
    visuals: &BranchVisuals,
    matches: Map<Seq<char>, Seq<usize>>,
    theme: ColorTheme,
) -> bool {
    let l = labels(info.refs, info.refs.len() as int, visuals, matches, theme);
    lone_stash(info) || forall|i: int| 0 <= i < l.len() ==> (#[trigger] l[i]).clean()
}

/// What a list of drawings shows.
spec fn drawing_views(v: Seq<Vec<Span>>) -> Seq<Seq<span::SpanView>> {
    Seq::new(v.len(), |i: int| span::span_views(v[i]@))
}

fn local_names(refs: &Vec<&Ref>) -> (r: NameMap<()>)
    ensures
        r.wf(),
        forall|name: Seq<char>| #[trigger]
            r@.contains_key(name) <==> has_local(search::ref_list(refs@), name),
{
    let ghost all = search::ref_list(refs@);
    let mut r: NameMap<()> = NameMap::new();
    let mut i: usize = 0;
    while i < refs.len()
        invariant
            i <= refs@.len(),
            all == search::ref_list(refs@),
            r.wf(),
            forall|name: Seq<char>| #[trigger]
                r@.contains_key(name) <==> has_local(all.take(i as int), name),
        decreases refs@.len() - i,
    {
        let ghost before = r@;
        let ghost view = refs@[i as int]@;
        match refs[i] {
            Ref::Branch { name, .. } => {
                r.insert(name.as_str(), ());
            },
            _ => {},
        }
        proof {
            let now = all.take(i as int);
            let next = all.take(i + 1);
            assert(next =~= now.push(view));
            assert forall|name: Seq<char>| #[trigger] r@.contains_key(name) <==> has_local(
                next,
                name,
            ) by {
                assert(before.contains_key(name) <==> has_local(now, name));
                if has_local(now, name) {
                    let j = choose|j: int|
                        0 <= j < now.len() && now[j] is Branch && (#[trigger] now[j]).name() == name;
                    assert(next[j].name() == name);
                }
                if view is Branch && view.name() == name {
                    assert(next[i as int].name() == name);
                }
                if has_local(next, name) {
                    let j = choose|j: int|
                        0 <= j < next.len() && next[j] is Branch && (#[trigger] next[j]).name()
                            == name;
                    if j < i {
                        assert(now[j].name() == name);
                    }
                }
            }
        }
        i = i + 1;
    }
    assert(all.take(i as int) =~= all);
    r
}

/// The drawings of the labels, and the names that they belong to.
struct Drawn {
    spans: Vec<Vec<Span>>,
    names: Vec<String>,
}

fn draw_labels(
    refs: &Vec<&Ref>,
    branch_visuals: &BranchVisuals,
    refs_matches: &NameMap<SearchMatchPosition>,
    color_theme: &ColorTheme,
) -> (r: Option<Drawn>)
    requires
        branch_visuals.wf(),
        refs_matches.wf(),
    ensures
        ({
            let all = search::ref_list(refs@);
            let l = labels(
                all,
                all.len() as int,
                branch_visuals,
                search::index_map(refs_matches@),
                *color_theme,
            );
            match r {
                Some(d) => {
                    &&& forall|i: int| 0 <= i < l.len() ==> (#[trigger] l[i]).clean()
                    &&& all_drawn(l, *color_theme, drawing_views(d.spans@))
                    &&& d.names@.len() == l.len()
                    &&& d.spans@.len() == l.len()
                    &&& forall|i: int| 0 <= i < l.len() ==> (#[trigger] d.names@[i])@ == l[i].name
                },
                None => exists|i: int| 0 <= i < l.len() && !(#[trigger] l[i]).clean(),
            }
        }),
{
    let ghost all = search::ref_list(refs@);
    let local = local_names(refs);
    let mut spans: Vec<Vec<Span>> = Vec::new();
    let mut names: Vec<String> = Vec::new();
    let mut i: usize = 0;
    assert(drawing_views(spans@) =~= Seq::<Seq<span::SpanView>>::empty());
    while i < refs.len()
        invariant
            i <= refs@.len(),
            all == search::ref_list(refs@),
            branch_visuals.wf(),
            refs_matches.wf(),
            local.wf(),
            forall|name: Seq<char>| #[trigger]
                local@.contains_key(name) <==> has_local(all, name),
            ({
                let l = labels(all, i as int, branch_visuals, search::index_map(refs_matches@), *color_theme);
                &&& forall|k: int| 0 <= k < l.len() ==> (#[trigger] l[k]).clean()
                &&& all_drawn(l, *color_theme, drawing_views(spans@))
                &&& names@.len() == l.len()
                &&& forall|k: int| 0 <= k < l.len() ==> (#[trigger] names@[k])@ == l[k].name
            }),
        decreases refs@.len() - i,
    {
        let reference = refs[i];
        let ghost view = all[i as int];
        assert(view == reference@);
        let ghost l = labels(all, i as int, branch_visuals, search::index_map(refs_matches@), *color_theme);
        let ghost next = labels(all, i + 1, branch_visuals, search::index_map(refs_matches@), *color_theme);
        let labelled = match reference {
            Ref::Stash { .. } => false,
            Ref::RemoteBranch { name, .. } => {
                let canonical = branch_visual::strip_remote_prefix(name.as_str());
                !local.contains(canonical.as_str())
            },
            _ => true,
        };
        if labelled {
            let fg = match reference {
                Ref::Tag { .. } => color_theme.list_ref_tag_fg,
                _ => branch_visuals.color_for_ref(reference),
            };
            let pos = refs_matches.get(reference.name());
            let ghost label = label_of(view, view.name(), fg, match_in(search::index_map(refs_matches@), view.name()));
            assert(next == l.push(label));
            let drawn = display_branch_ref_spans(
                branch_visuals,
                reference,
                reference.name(),
                pos,
                fg,
                color_theme,
            );
            match drawn {
                Some(drawn) => {
                    let ghost before = spans@;
                    let ghost drawn_view = span::span_views(drawn@);
                    spans.push(drawn);
                    names.push(reference.name().to_string());
                    proof {
                        assert(drawing_views(spans@) =~= drawing_views(before).push(drawn_view));
                        assert forall|k: int| 0 <= k < next.len() implies (
                        #[trigger] next[k]).drawn(*color_theme, drawing_views(spans@)[k]) by {
                            if k < l.len() {
                                assert(l[k].drawn(*color_theme, drawing_views(before)[k]));
                            }
                        }
                    }
                },
                None => {
                    proof {
                        assert(!next[l.len() as int].clean());
                        labels_grow(
                            all,
                            i + 1,
                            all.len() as int,
                            branch_visuals,
                            search::index_map(refs_matches@),
                            *color_theme,
                        );
                        let whole = labels(
                            all,
                            all.len() as int,
                            branch_visuals,
                            search::index_map(refs_matches@),
                            *color_theme,
                        );
                        assert(whole[l.len() as int] == next[l.len() as int]);
                    }
                    return None;
                },
            }
        }
        i = i + 1;
    }
    Some(Drawn { spans, names })
}

proof fn labels_grow(
    refs: Seq<git::RefView>,
    n: int,
    m: int,
    visuals: &BranchVisuals,
    matches: Map<Seq<char>, Seq<usize>>,
    theme: ColorTheme,
)
    requires
        0 <= n <= m,
    ensures
        ({
            let a = labels(refs, n, visuals, matches, theme);
            let b = labels(refs, m, visuals, matches, theme);
            a.len() <= b.len() && forall|i: int| 0 <= i < a.len() ==> b[i] == #[trigger] a[i]
        }),
    decreases m - n,
{
    if n < m {
        labels_grow(refs, n, m - 1, visuals, matches, theme);
    }
}

/// Draws what stands at a commit: its branches and tags, and the mark of what is checked out.
/// There is nothing to draw where a match would cut a character in two.
pub fn status_spans(
    commit_info: &CommitInfo,
    head: &Head,
    branch_visuals: &BranchVisuals,
    refs_matches: &NameMap<SearchMatchPosition>,
    color_theme: &ColorTheme,
) -> (r: Option<Vec<Span>>)
    requires
        branch_visuals.wf(),
        refs_matches.wf(),
    ensures
        match r {
            Some(spans) => labels_clean(
                commit_info@,
                branch_visuals,
                search::index_map(refs_matches@),
                *color_theme,
            ) && shows_status(
                commit_info@,
                head@,
                branch_visuals,
                search::index_map(refs_matches@),
                *color_theme,
                span::span_views(spans@),
            ),
            None => !labels_clean(commit_info@, branch_visuals, search::index_map(refs_matches@), *color_theme),
        },
{
    let refs = &commit_info.refs;
    let color = commit_info.graph_color;
    if refs.len() == 1 {
        assert(search::ref_list(refs@)[0] == refs@[0]@);
        if let Ref::Stash { name, .. } = refs[0] {
            return Some(span::single(Span::bold(name.as_str(), color)));
        }
    }
    assert(!lone_stash(commit_info@));
    let drawn = match draw_labels(refs, branch_visuals, refs_matches, color_theme) {
        Some(d) => d,
        None => return None,
    };
    let ghost l = labels(
        commit_info@.refs,
        commit_info@.refs.len() as int,
        branch_visuals,
        search::index_map(refs_matches@),
        *color_theme,
    );
    let ghost drawings = drawing_views(drawn.spans@);
    let names = drawn.names;
    let mut parts = drawn.spans;
    let total = names.len();
    let mut spans: Vec<Span> = Vec::new();
    assert(span::span_views(spans@) =~= Seq::<span::SpanView>::empty());
    match head {
        Head::Detached { target } => {
            if text::same(commit_info.commit.commit_hash.as_str(), target.as_str()) {
                let mut mark = branch_visuals.head_marker(None, false, color);
                spans.append(&mut mark);
                if total > 0 {
                    let sep = Span::bold(", ", color);
                    let ghost so_far = span::span_views(spans@);
                    proof {
                        span::span_views_push(spans@, sep);
                    }
                    spans.push(sep);
                    assert(span::span_views(spans@) =~= so_far + comma(color));
                } else {
                    assert(span::span_views(spans@) + Seq::<span::SpanView>::empty()
                        =~= span::span_views(spans@));
                }
            }
        },
        _ => {},
    }
    let ghost front = span::span_views(spans@);
    assert(front =~= detached_mark(commit_info@, head@, l.len() > 0));
    let mut i: usize = 0;
    assert(front + in_a_row(l, drawings, 0, head@, color) =~= front);
    while i < total
        invariant
            i <= total,
            total == l.len(),
            names@.len() == l.len(),
            parts@.len() == l.len(),
            drawings.len() == l.len(),
            forall|k: int| 0 <= k < l.len() ==> (#[trigger] names@[k])@ == l[k].name,
            forall|k: int| i <= k < l.len() ==> span::span_views((#[trigger] parts@[k])@) == drawings[k],
            span::span_views(spans@) == front + in_a_row(l, drawings, i as int, head@, color),
        decreases total - i,
    {
        let ghost so_far = spans@;
        let marked = match head {
            Head::Branch { name } => text::same(names[i].as_str(), name.as_str()),
            _ => false,
        };
        let mut part: Vec<Span> = Vec::new();
        if marked {
            part = branch_visuals.head_marker(Some(names[i].as_str()), true, color);
        } else {
            std::mem::swap(&mut parts[i], &mut part);
        }
        let ghost added = span::span_views(part@);
        assert(added == label_part(l, drawings, i as int, head@, color));
        proof {
            span::span_views_add(spans@, part@);
        }
        spans.append(&mut part);
        let ghost with_part = span::span_views(spans@);
        if i + 1 < total {
            let sep = Span::bold(", ", color);
            proof {
                span::span_views_push(spans@, sep);
            }
            spans.push(sep);
            assert(span::span_views(spans@) =~= with_part + comma(color));
        }
        proof {
            let row = in_a_row(l, drawings, i as int, head@, color);
            let next = in_a_row(l, drawings, i + 1, head@, color);
            assert(span::span_views(spans@) =~= front + next);
        }
        i = i + 1;
    }
    assert(all_drawn(l, *color_theme, drawings));
    Some(spans)
}

/// The colours that authors get.
pub open spec fn author_colors() -> Seq<Color> {
    seq![
        Color::Cyan,
        Color::Green,
        Color::Yellow,
        Color::Blue,
        Color::Magenta,
        Color::LightCyan,
        Color::LightGreen,
        Color::LightYellow,
    ]
}

/// The colour that a hash picks for an author.
pub fn author_color_for(hash: u64) -> (r: Color)
    ensures
        r == author_colors()[branch_visual::picked(hash, 8)],
{
    match branch_visual::pick(hash, 8) {
        0 => Color::Cyan,
        1 => Color::Green,
        2 => Color::Yellow,
        3 => Color::Blue,
        4 => Color::Magenta,
        5 => Color::LightCyan,
        6 => Color::LightGreen,
        _ => Color::LightYellow,
    }
}

/// What an author is known by: the mail address, or the name of one without an address.
pub open spec fn identity(c: git::CommitView) -> Seq<char> {
    if c.author_email.len() == 0 {
        c.author_name
    } else {
        c.author_email
    }
}

/// An author has the same colour everywhere.
pub fn author_color(commit: &Commit) -> (r: Color)
    ensures
        r == color_of_author(commit@),
{
    let identity = if text::byte_len(commit.author_email.as_str()) == 0 {
        commit.author_name.as_str()
    } else {
        commit.author_email.as_str()
    };
    author_color_for(branch_visual::hash_text(identity))
}

/// A text that is made to fit, and whether it was cut for that.
pub fn fit_text(s: &str, max_width: usize) -> (r: (String, bool))
    ensures
        r.1 == (measure::text_width(s@) > max_width),
        r.0@ == if r.1 {
            measure::cut_text(s@, max_width, highlight::ELLIPSIS@)
        } else {
            s@
        },
{
    if measure::measure_text_width(s) > max_width {
        (measure::truncate_str(s, max_width, highlight::ELLIPSIS), true)
    } else {
        (s.to_string(), false)
    }
}

/// Whether the spans show a text with what matched marked.
pub open spec fn shows_text(
    s: Seq<char>,
    matched: Option<Seq<usize>>,
    fg: Color,
    theme: ColorTheme,
    truncate: bool,
    spans: Seq<span::SpanView>,
) -> bool {
    match matched {
        Some(m) => highlight::highlights(s, m, fg, false, theme, truncate, spans),
        None => spans == seq![span::SpanView { content: s, style: span::colored(fg, false) }],
    }
}

/// Whether what matched of a text can be marked.
pub open spec fn text_clean(s: Seq<char>, matched: Option<Seq<usize>>, truncate: bool) -> bool {
    matched matches Some(m) ==> highlight::cuts_cleanly(s, m, highlight::marked_bytes(s, truncate))
}

/// Draws a text that was made to fit, with what matched marked.
pub fn text_spans(
    fitted: &str,
    truncate: bool,
    pos: Option<&SearchMatchPosition>,
    fg: Color,
    color_theme: &ColorTheme,
) -> (r: Option<Vec<Span>>)
    ensures
        match r {
            Some(spans) => text_clean(fitted@, borrowed_indices(pos), truncate) && shows_text(
                fitted@,
                borrowed_indices(pos),
                fg,
                *color_theme,
                truncate,
                span::span_views(spans@),
            ),
            None => !text_clean(fitted@, borrowed_indices(pos), truncate),
        },
{
    match pos {
        Some(p) => highlight::highlight(fitted, p.clone(), fg, false, color_theme, truncate),
        None => Some(
            span::single(Span::styled(fitted.to_string(), Style::colored(fg, false))),
        ),
    }
}

/// A text as it is fitted.
pub open spec fn fitted(s: Seq<char>, max_width: usize) -> Seq<char> {
    if measure::text_width(s) > max_width {
        measure::cut_text(s, max_width, highlight::ELLIPSIS@)
    } else {
        s
    }
}

/// Whether what matched of a subject can be marked.
pub open spec fn subject_clean(
    subject: Seq<char>,
    matched: Option<Seq<usize>>,
    max_width: usize,
) -> bool {
    max_width > 3 ==> text_clean(
        fitted(subject, max_width),
        matched,
        measure::text_width(subject) > max_width,
    )
}

/// Whether the spans show a subject in a column. A column that is no wider than the ellipsis stays
/// empty.
pub open spec fn shows_subject(
    subject: Seq<char>,
    matched: Option<Seq<usize>>,
    max_width: usize,
    graph_color: Color,
    theme: ColorTheme,
    spans: Seq<span::SpanView>,
) -> bool {
    if max_width > 3 {
        subject_clean(subject, matched, max_width) && shows_text(
            fitted(subject, max_width),
            matched,
            graph_color,
            theme,
            measure::text_width(subject) > max_width,
            spans,
        )
    } else {
        spans.len() == 0
    }
}

/// Draws a subject in a column.
pub fn subject_spans(
    subject: &str,
    pos: Option<&SearchMatchPosition>,
    max_width: usize,
    graph_color: Color,
    color_theme: &ColorTheme,
) -> (r: Option<Vec<Span>>)
    ensures
        match r {
            Some(spans) => shows_subject(
                subject@,
                borrowed_indices(pos),
                max_width,
                graph_color,
                *color_theme,
                span::span_views(spans@),
            ),
            None => !subject_clean(subject@, borrowed_indices(pos), max_width),
        },
{
    if max_width > 3 {
        let (s, truncate) = fit_text(subject, max_width);
        text_spans(s.as_str(), truncate, pos, graph_color, color_theme)
    } else {
        Some(Vec::new())
    }
}

/// A row of spaces.
pub fn spaces(n: usize) -> (r: String)
    ensures
        r@ == Seq::new(n as nat, |i: int| ' '),
{
    let mut r = String::new();
    let mut i: usize = 0;
    while i < n
        invariant
            i <= n,
            r@ == Seq::new(i as nat, |k: int| ' '),
        decreases n - i,
    {
        r.push(' ');
        assert(r@ =~= Seq::new((i + 1) as nat, |k: int| ' '));
        i = i + 1;
    }
    r
}

/// The space that fills a column up before a text of this width.
pub open spec fn padding(max_width: usize, width: usize) -> Seq<span::SpanView> {
    if max_width > width {
        seq![
            span::SpanView {
                content: Seq::new((max_width - width) as nat, |i: int| ' '),
                style: span::plain(),
            },
        ]
    } else {
        seq![]
    }
}

/// Draws a text of a width at the right of a column.
pub fn pad_left(spans: Vec<Span>, max_width: usize, width: usize) -> (r: Vec<Span>)
    ensures
        span::span_views(r@) == padding(max_width, width) + span::span_views(spans@),
{
    let mut spans = spans;
    if max_width > width {
        let pad = spaces(max_width - width);
        let mut r = span::single(Span::raw(pad.as_str()));
        proof {
            span::span_views_add(r@, spans@);
            assert(span::span_views(r@) =~= padding(max_width, width));
        }
        r.append(&mut spans);
        r
    } else {
        assert(padding(max_width, width) + span::span_views(spans@) =~= span::span_views(spans@));
        spans
    }
}

/// The colour of a commit's author.
pub open spec fn color_of_author(c: git::CommitView) -> Color {
    author_colors()[branch_visual::picked(branch_visual::text_hash(identity(c)), 8)]
}

/// Whether what matched of an author's name can be marked.
pub open spec fn name_clean(
    c: git::CommitView,
    matched: Option<Seq<usize>>,
    max_width: usize,
) -> bool {
    text_clean(
        fitted(c.author_name, max_width),
        matched,
        measure::text_width(c.author_name) > max_width,
    )
}

/// Whether the spans show an author's name at the right of a column, in the author's colour.
pub open spec fn shows_name(
    c: git::CommitView,
    matched: Option<Seq<usize>>,
    max_width: usize,
    theme: ColorTheme,
    spans: Seq<span::SpanView>,
) -> bool {
    let s = fitted(c.author_name, max_width);
    let front = padding(max_width, measure::text_width(s));
    &&& name_clean(c, matched, max_width)
    &&& spans.len() >= front.len()
    &&& spans.take(front.len() as int) == front
    &&& shows_text(
        s,
        matched,
        color_of_author(c),
        theme,
        measure::text_width(c.author_name) > max_width,
        spans.skip(front.len() as int),
    )
}

/// Draws an author's name at the right of a column, in the author's colour.
pub fn name_spans(
    commit: &Commit,
    pos: Option<&SearchMatchPosition>,
    max_width: usize,
    color_theme: &ColorTheme,
) -> (r: Option<Vec<Span>>)
    ensures
        match r {
            Some(spans) => shows_name(
                commit@,
                borrowed_indices(pos),
                max_width,
                *color_theme,
                span::span_views(spans@),
            ),
            None => !name_clean(commit@, borrowed_indices(pos), max_width),
        },
{
    let (s, truncate) = fit_text(commit.author_name.as_str(), max_width);
    let color = author_color(commit);
    let width = measure::measure_text_width(s.as_str());
    match text_spans(s.as_str(), truncate, pos, color, color_theme) {
        Some(spans) => {
            let ghost shown = span::span_views(spans@);
            let r = pad_left(spans, max_width, width);
            proof {
                let front = padding(max_width, width);
                assert((front + shown).take(front.len() as int) =~= front);
                assert((front + shown).skip(front.len() as int) =~= shown);
            }
            Some(r)
        },
        None => None,
    }
}

/// A row of the list: a space before and after what it shows.
pub fn row_spans(spans: Vec<Span>) -> (r: Vec<Span>)
    ensures
        span::span_views(r@) == seq![span::SpanView { content: " "@, style: span::plain() }]
            + span::span_views(spans@) + seq![
            span::SpanView { content: " "@, style: span::plain() },
        ],
{
    let mut spans = spans;
    let mut r = span::single(Span::raw(" "));
    let ghost first = span::span_views(r@);
    let ghost middle = span::span_views(spans@);
    proof {
        span::span_views_add(r@, spans@);
    }
    r.append(&mut spans);
    let last = Span::raw(" ");
    proof {
        span::span_views_push(r@, last);
    }
    r.push(last);
    assert(span::span_views(r@) =~= first + middle + seq![
        span::SpanView { content: " "@, style: span::plain() },
    ]);
    r
}

// ---------------------------------------------------------------------------------------------
// Laws

/// Every branch and tag of a commit is labelled. A branch of a remote is not where the commit has
/// the branch of that name here, and a stash is not.
pub proof fn references_are_labelled(refs: Seq<git::RefView>, i: int, remote: Seq<char>, name: Seq<char>)
    requires
        0 <= i < refs.len(),
        !remote.contains('/'),
    ensures
        refs[i] is Branch || refs[i] is Tag ==> is_labelled(refs, refs[i]),
        refs[i] is Stash ==> !is_labelled(refs, refs[i]),
        (refs[i] matches git::RefView::RemoteBranch { name: n, .. } && n == remote + seq!['/']
            + name) ==> (is_labelled(refs, refs[i]) <==> !(exists|j: int|
            0 <= j < refs.len() && #[trigger] refs[j] is Branch && refs[j].name() == name)),
{
    text::after_first_of(remote, name, '/');
    if exists|j: int| 0 <= j < refs.len() && #[trigger] refs[j] is Branch && refs[j].name() == name {
        let j = choose|j: int|
            0 <= j < refs.len() && #[trigger] refs[j] is Branch && refs[j].name() == name;
        assert(refs[j].name() == name);
        assert(has_local(refs, name));
    }
    if has_local(refs, name) {
        let j = choose|j: int|
            0 <= j < refs.len() && refs[j] is Branch && (#[trigger] refs[j]).name() == name;
        assert(refs[j] is Branch);
    }
}

/// Authors are told apart by their address, and by their name where they have none.
pub proof fn authors_keep_their_color(a: git::CommitView, b: git::CommitView)
    ensures
        a.author_email.len() > 0 && a.author_email == b.author_email ==> color_of_author(a)
            == color_of_author(b),
        a.author_email.len() == 0 && b.author_email.len() == 0 && a.author_name == b.author_name
            ==> color_of_author(a) == color_of_author(b),
        author_colors().contains(color_of_author(a)),
{
    let n = branch_visual::picked(branch_visual::text_hash(identity(a)), 8);
    assert(author_colors()[n] == color_of_author(a));
}

} // verus!
