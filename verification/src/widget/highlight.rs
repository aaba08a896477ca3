//! Marking what a query matched.

use laurier::highlight::highlight_matched_text;
use ratatui::style::{Modifier, Style as DrawStyle};
use ratatui::text::Span as DrawSpan;
use vstd::prelude::*;
use vstd::string::*;
use crate::color::{Color, ColorTheme};
use crate::span;
use crate::span::{Span, Style};
use crate::text;
use crate::widget::search::SearchMatchPosition;

verus! {

/// What stands in place of what was cut off.
pub const ELLIPSIS: &'static str = "...";

/// What a list of marked pieces says.
pub open spec fn mark_views(v: Seq<(String, bool)>) -> Seq<(Seq<char>, bool)> {
    Seq::new(v.len(), |i: int| (v[i].0@, v[i].1))
}

/// The text that the pieces make up.
pub open spec fn pieced(p: Seq<(Seq<char>, bool)>) -> Seq<char>
    decreases p.len(),
{
    if p.len() == 0 {
        Seq::empty()
    } else {
        pieced(p.drop_last()) + p.last().0
    }
}

/// The byte at which a piece starts.
pub open spec fn starts_at(p: Seq<(Seq<char>, bool)>, k: int) -> nat {
    text::byte_count(pieced(p.take(k)))
}

/// Whether the pieces make up the text, and each is a longest run of bytes that are all in the
/// list, and marked, or all not in it, and not marked.
pub open spec fn is_runs(s: Seq<char>, listed: Seq<usize>, p: Seq<(Seq<char>, bool)>) -> bool {
    &&& pieced(p) == s
    &&& forall|k: int| 0 <= k < p.len() ==> (#[trigger] p[k]).0.len() > 0
    &&& forall|k: int| 0 <= k < p.len() - 1 ==> (#[trigger] p[k]).1 != p[k + 1].1
    &&& forall|k: int, b: usize|
        0 <= k < p.len() && starts_at(p, k) <= b < starts_at(p, k + 1) ==> (
        #[trigger] listed.contains(b) <==> (#[trigger] p[k]).1)
}

/// Whether a byte starts or ends a run of listed bytes.
pub open spec fn is_edge(listed: Seq<usize>, b: usize) -> bool {
    b > 0 && listed.contains(b) != listed.contains((b - 1) as usize)
}

/// Whether the runs of listed bytes in the first `limit` bytes are made of whole characters.
pub open spec fn cuts_cleanly(s: Seq<char>, listed: Seq<usize>, limit: nat) -> bool {
    &&& text::splits_at(s, limit)
    &&& forall|i: int| 0 <= i < listed.len() ==> #[trigger] listed[i] < usize::MAX
    &&& forall|b: usize| #[trigger] is_edge(listed, b) && b < limit ==> text::splits_at(s, b as nat)
}

/// How many bytes stand before the tail of a text that was cut down.
pub open spec fn kept_bytes(s: Seq<char>, tail: Seq<char>) -> nat {
    if text::byte_count(s) >= text::byte_count(tail) {
        (text::byte_count(s) - text::byte_count(tail)) as nat
    } else {
        0
    }
}

/// Whether a listed byte stands in the tail of a text or behind it.
pub open spec fn tail_listed(s: Seq<char>, listed: Seq<usize>, tail: Seq<char>) -> bool {
    text::byte_count(s) > kept_bytes(s, tail) && exists|i: int|
        0 <= i < listed.len() && #[trigger] listed[i] >= kept_bytes(s, tail)
}

/// Whether the pieces are the runs of what stands before the tail, and then the tail, which is
/// marked where something in it or behind it was listed.
pub open spec fn is_cut_runs(
    s: Seq<char>,
    listed: Seq<usize>,
    tail: Seq<char>,
    p: Seq<(Seq<char>, bool)>,
) -> bool {
    &&& p.len() > 0
    &&& p.last() == (tail, tail_listed(s, listed, tail))
    &&& is_runs(s.take(text::chars_for(s, kept_bytes(s, tail))), listed, p.drop_last())
}

/// `laurier::highlight::highlight_matched_text` with the matched bytes: cuts the text into the
/// longest runs of matched and of other bytes. Here a bold style stands for a match.
#[verifier::external_body]
fn mark_runs(s: &str, listed: Vec<usize>) -> (r: Vec<(String, bool)>)
    requires
        cuts_cleanly(s@, listed@, text::byte_count(s@)),
    ensures
        is_runs(s@, listed@, mark_views(r@)),
{
    let mark = DrawStyle::default().add_modifier(Modifier::BOLD);
    let spans = highlight_matched_text(vec![DrawSpan::raw(s.to_string())])
        .matched_indices(listed)
        .matched_style(mark)
        .into_spans();
    spans.into_iter().map(|p| (p.content.into_owned(), p.style == mark)).collect()
}

/// `laurier::highlight::highlight_matched_text` with the matched bytes and an ellipsis: the text
/// ends in the ellipsis, which is matched where a matched byte stands in it or behind it.
#[verifier::external_body]
fn mark_cut_runs(s: &str, listed: Vec<usize>, tail: &str) -> (r: Vec<(String, bool)>)
    requires
        cuts_cleanly(s@, listed@, kept_bytes(s@, tail@)),
    ensures
        is_cut_runs(s@, listed@, tail@, mark_views(r@)),
{
    let mark = DrawStyle::default().add_modifier(Modifier::BOLD);
    let spans = highlight_matched_text(vec![DrawSpan::raw(s.to_string())])
        .matched_indices(listed)
        .matched_style(mark)
        .ellipsis(tail)
        .into_spans();
    spans.into_iter().map(|p| (p.content.into_owned(), p.style == mark)).collect()
}

/// The style of what matched.
pub open spec fn match_style(theme: ColorTheme, bold: bool) -> Style {
    Style { fg: Some(theme.list_match_fg), bg: Some(theme.list_match_bg), bold }
}

/// The pieces as they are drawn.
pub open spec fn painted(
    p: Seq<(Seq<char>, bool)>,
    fg: Color,
    bold: bool,
    theme: ColorTheme,
) -> Seq<span::SpanView> {
    Seq::new(
        p.len(),
        |i: int|
            span::SpanView {
                content: p[i].0,
                style: if p[i].1 {
                    match_style(theme, bold)
                } else {
                    span::colored(fg, bold)
                },
            },
    )
}

/// Whether the pieces are those of a text with these bytes matched.
pub open spec fn is_marking(
    s: Seq<char>,
    listed: Seq<usize>,
    truncate: bool,
    p: Seq<(Seq<char>, bool)>,
) -> bool {
    if truncate {
        is_cut_runs(s, listed, ELLIPSIS@, p)
    } else {
        is_runs(s, listed, p)
    }
}

/// Whether the spans show the text with these bytes marked.
pub open spec fn highlights(
    s: Seq<char>,
    listed: Seq<usize>,
    fg: Color,
    bold: bool,
    theme: ColorTheme,
    truncate: bool,
    spans: Seq<span::SpanView>,
) -> bool {
    exists|p: Seq<(Seq<char>, bool)>| #[trigger]
        is_marking(s, listed, truncate, p) && spans == painted(p, fg, bold, theme)
}

/// How many bytes of a text are cut into runs.
pub open spec fn marked_bytes(s: Seq<char>, truncate: bool) -> nat {
    if truncate {
        kept_bytes(s, ELLIPSIS@)
    } else {
        text::byte_count(s)
    }
}

fn paint(p: Vec<(String, bool)>, fg: Color, bold: bool, theme: &ColorTheme) -> (r: Vec<Span>)
    ensures
        span::span_views(r@) == painted(mark_views(p@), fg, bold, *theme),
{
    let mut r: Vec<Span> = Vec::new();
    let mut i: usize = 0;
    while i < p.len()
        invariant
            i <= p@.len(),
            r@.len() == i,
            forall|j: int|
                0 <= j < i ==> (#[trigger] r@[j])@ == painted(
                    mark_views(p@),
                    fg,
                    bold,
                    *theme,
                )[j],
        decreases p@.len() - i,
    {
        let style = if p[i].1 {
            Style { fg: Some(theme.list_match_fg), bg: Some(theme.list_match_bg), bold }
        } else {
            Style::colored(fg, bold)
        };
        r.push(Span::styled(p[i].0.clone(), style));
        i = i + 1;
    }
    assert(span::span_views(r@) =~= painted(mark_views(p@), fg, bold, *theme));
    r
}

/// Draws a text with what matched marked. A text that was cut down ends in the ellipsis.
pub fn highlighted_spans(
    s: &str,
    pos: SearchMatchPosition,
    base_fg: Color,
    bold: bool,
    color_theme: &ColorTheme,
    truncate: bool,
) -> (r: Vec<Span>)
    requires
        cuts_cleanly(s@, pos.matched_indices@, marked_bytes(s@, truncate)),
    ensures
        highlights(
            s@,
            pos.matched_indices@,
            base_fg,
            bold,
            *color_theme,
            truncate,
            span::span_views(r@),
        ),
{
    let ghost listed = pos.matched_indices@;
    let p = if truncate {
        mark_cut_runs(s, pos.matched_indices, ELLIPSIS)
    } else {
        mark_runs(s, pos.matched_indices)
    };
    assert(is_marking(s@, listed, truncate, mark_views(p@)));
    paint(p, base_fg, bold, color_theme)
}

fn lists(listed: &Vec<usize>, b: usize) -> (r: bool)
    ensures
        r == listed@.contains(b),
{
    let mut i: usize = 0;
    while i < listed.len()
        invariant
            i <= listed@.len(),
            forall|j: int| 0 <= j < i ==> listed@[j] != b,
        decreases listed@.len() - i,
    {
        if listed[i] == b {
            assert(listed@[i as int] == b);
            return true;
        }
        i = i + 1;
    }
    false
}

/// Whether what matched in a text can be marked: the matched bytes are those of whole characters.
pub fn can_highlight(s: &str, pos: &SearchMatchPosition, truncate: bool) -> (r: bool)
    ensures
        r == cuts_cleanly(s@, pos.matched_indices@, marked_bytes(s@, truncate)),
{
    let listed = &pos.matched_indices;
    let whole = text::byte_len(s);
    let limit = if truncate {
        let tail = text::byte_len(ELLIPSIS);
        if whole >= tail {
            whole - tail
        } else {
            0
        }
    } else {
        whole
    };
    if text::chars_in_bytes(s, limit).is_none() {
        return false;
    }
    let mut i: usize = 0;
    while i < listed.len()
        invariant
            i <= listed@.len(),
            listed == &pos.matched_indices,
            limit == marked_bytes(s@, truncate),
            text::splits_at(s@, limit as nat),
            forall|j: int| 0 <= j < i ==> #[trigger] listed@[j] < usize::MAX,
            forall|j: int|
                0 <= j < i ==> ((#[trigger] listed@[j] < limit && is_edge(listed@, listed@[j]))
                    ==> text::splits_at(s@, listed@[j] as nat)),
            forall|j: int|
                0 <= j < i ==> ((#[trigger] listed@[j] + 1 < limit && is_edge(
                    listed@,
                    (listed@[j] + 1) as usize,
                )) ==> text::splits_at(s@, (listed@[j] + 1) as nat)),
        decreases listed@.len() - i,
    {
        let b = listed[i];
        assert(listed@.contains(b));
        if b == usize::MAX {
            return false;
        }
        if b > 0 && b < limit && !lists(listed, b - 1) && text::chars_in_bytes(s, b).is_none() {
            assert(is_edge(listed@, b));
            return false;
        }
        let after = b + 1;
        if after < limit && !lists(listed, after) && text::chars_in_bytes(s, after).is_none() {
            assert(is_edge(listed@, after));
            return false;
        }
        i = i + 1;
    }
    proof {
        assert forall|b: usize| #[trigger] is_edge(listed@, b) && b < limit implies text::splits_at(
            s@,
            b as nat,
        ) by {
            if listed@.contains(b) {
                let j = choose|j: int| 0 <= j < listed@.len() && listed@[j] == b;
                assert(listed@[j] < limit);
            } else {
                let j = choose|j: int| 0 <= j < listed@.len() && listed@[j] == b - 1;
                assert(listed@[j] + 1 < limit);
            }
        }
    }
    true
}

/// Draws a text with what matched marked, where that can be done.
pub fn highlight(
    s: &str,
    pos: SearchMatchPosition,
    base_fg: Color,
    bold: bool,
    color_theme: &ColorTheme,
    truncate: bool,
) -> (r: Option<Vec<Span>>)
    ensures
        match r {
            Some(spans) => cuts_cleanly(s@, pos.matched_indices@, marked_bytes(s@, truncate))
                && highlights(
                s@,
                pos.matched_indices@,
                base_fg,
                bold,
                *color_theme,
                truncate,
                span::span_views(spans@),
            ),
            None => !cuts_cleanly(s@, pos.matched_indices@, marked_bytes(s@, truncate)),
        },
{
    if can_highlight(s, &pos, truncate) {
        Some(highlighted_spans(s, pos, base_fg, bold, color_theme, truncate))
    } else {
        None
    }
}

/// Marking changes no character: the spans spell the text.
pub proof fn highlighting_keeps_text(
    s: Seq<char>,
    listed: Seq<usize>,
    fg: Color,
    bold: bool,
    theme: ColorTheme,
    spans: Seq<span::SpanView>,
)
    requires
        highlights(s, listed, fg, bold, theme, false, spans),
    ensures
        span::spelled(spans) == s,
{
    let p = choose|p: Seq<(Seq<char>, bool)>| #[trigger]
        is_marking(s, listed, false, p) && spans == painted(p, fg, bold, theme);
    painted_spells(p, fg, bold, theme);
}

proof fn painted_spells(p: Seq<(Seq<char>, bool)>, fg: Color, bold: bool, theme: ColorTheme)
    ensures
        span::spelled(painted(p, fg, bold, theme)) == pieced(p),
    decreases p.len(),
{
    if p.len() > 0 {
        painted_spells(p.drop_last(), fg, bold, theme);
        assert(painted(p, fg, bold, theme).drop_last() =~= painted(p.drop_last(), fg, bold, theme));
    }
}

} // verus!
