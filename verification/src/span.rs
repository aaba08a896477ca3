//! Text with a style.

use vstd::prelude::*;
use crate::color::Color;

verus! {

/// How a piece of text is drawn.
#[derive(Debug, Clone, Copy, PartialEq, Eq, Structural)]
pub struct Style {
    pub fg: Option<Color>,
    pub bg: Option<Color>,
    pub bold: bool,
}

pub open spec fn plain() -> Style {
    Style { fg: None, bg: None, bold: false }
}

pub open spec fn colored(fg: Color, bold: bool) -> Style {
    Style { fg: Some(fg), bg: None, bold }
}

impl Style {
    pub fn plain() -> (r: Style)
        ensures
            r == plain(),
    {
        Style { fg: None, bg: None, bold: false }
    }

    pub fn colored(fg: Color, bold: bool) -> (r: Style)
        ensures
            r == colored(fg, bold),
    {
        Style { fg: Some(fg), bg: None, bold }
    }
}

/// A piece of text in one style.
#[derive(Debug, PartialEq, Eq)]
pub struct Span {
    pub content: String,
    pub style: Style,
}

pub ghost struct SpanView {
    pub content: Seq<char>,
    pub style: Style,
}

impl View for Span {
    type V = SpanView;

    open spec fn view(&self) -> SpanView {
        SpanView { content: self.content@, style: self.style }
    }
}

impl Clone for Span {
    fn clone(&self) -> (r: Span)
        ensures
            r == *self,
    {
        Span { content: self.content.clone(), style: self.style }
    }
}

impl Span {
    pub fn raw(content: &str) -> (r: Span)
        ensures
            r@ == (SpanView { content: content@, style: plain() }),
    {
        Span { content: content.to_string(), style: Style::plain() }
    }

    pub fn styled(content: String, style: Style) -> (r: Span)
        ensures
            r@ == (SpanView { content: content@, style }),
    {
        Span { content, style }
    }

    /// Bold text in a colour.
    pub fn bold(content: &str, fg: Color) -> (r: Span)
        ensures
            r@ == bold_span(content@, fg),
    {
        Span { content: content.to_string(), style: Style::colored(fg, true) }
    }
}

pub open spec fn bold_span(content: Seq<char>, fg: Color) -> SpanView {
    SpanView { content, style: colored(fg, true) }
}

/// What a list of spans shows.
pub open spec fn span_views(v: Seq<Span>) -> Seq<SpanView> {
    Seq::new(v.len(), |i: int| v[i]@)
}

/// The text that the spans spell.
pub open spec fn spelled(v: Seq<SpanView>) -> Seq<char>
    decreases v.len(),
{
    if v.len() == 0 {
        Seq::empty()
    } else {
        spelled(v.drop_last()) + v.last().content
    }
}

pub proof fn spelled_add(a: Seq<SpanView>, b: Seq<SpanView>)
    ensures
        spelled(a + b) == spelled(a) + spelled(b),
    decreases b.len(),
{
    if b.len() == 0 {
        assert(a + b =~= a);
    } else {
        spelled_add(a, b.drop_last());
        assert((a + b).drop_last() =~= a + b.drop_last());
        assert((a + b).last() == b.last());
    }
}

pub proof fn span_views_push(v: Seq<Span>, s: Span)
    ensures
        span_views(v.push(s)) == span_views(v).push(s@),
{
    assert(span_views(v.push(s)) =~= span_views(v).push(s@));
}

pub proof fn span_views_add(a: Seq<Span>, b: Seq<Span>)
    ensures
        span_views(a + b) == span_views(a) + span_views(b),
{
    assert(span_views(a + b) =~= span_views(a) + span_views(b));
}

/// One span on its own.
pub fn single(s: Span) -> (r: Vec<Span>)
    ensures
        span_views(r@) == seq![s@],
{
    let mut r: Vec<Span> = Vec::new();
    let ghost view = s@;
    r.push(s);
    assert(span_views(r@) =~= seq![view]);
    r
}

} // verus!
