//! How the list of commits is drawn, column by column.

use vstd::prelude::*;
use vstd::string::*;
use crate::color::ColorTheme;
use crate::span;
use crate::span::{Span, Style};
use crate::widget::commit_list;
use crate::widget::commit_list::CommitListState;
use crate::widget::commit_row;

verus! {

/// How the list of commits is drawn.
#[derive(Debug, Clone, Copy, PartialEq, Eq, Structural)]
pub struct CommitList {
    pub color_theme: ColorTheme,
    pub focused: bool,
}

/// The columns that a text has in a column with a space at each end.
pub open spec fn text_room(area_width: u16) -> usize {
    if area_width >= 2 {
        (area_width - 2) as usize
    } else {
        0
    }
}

/// A space.
pub open spec fn space() -> span::SpanView {
    span::SpanView { content: " "@, style: span::plain() }
}

/// Whether a row begins and ends with a space.
pub open spec fn is_row(row: Seq<span::SpanView>) -> bool {
    row.len() >= 2 && row.first() == space() && row.last() == space()
}

/// What stands between the spaces of a row.
pub open spec fn inside(row: Seq<span::SpanView>) -> Seq<span::SpanView> {
    row.subrange(1, row.len() - 1)
}

impl CommitList {
    pub fn new(color_theme: ColorTheme, focused: bool) -> (r: CommitList)
        ensures
            r == (CommitList { color_theme, focused }),
    {
        CommitList { color_theme, focused }
    }

    /// Fits the list into an area of some rows.
    pub fn update_state(&self, area_height: u16, state: &mut CommitListState)
        requires
            old(state).wf(),
            area_height > 0,
            old(state)@.cursor.index() < usize::MAX,
        ensures
            final(state).wf(),
            final(state)@ == old(state)@.moved(old(state)@.cursor.fitted(area_height as usize)),
    {
        state.update_state(area_height as usize);
    }

    /// Whether a row of the window is the selected one.
    pub fn is_selected(&self, state: &CommitListState, row: usize) -> (r: bool)
        ensures
            r == (row == state@.cursor.selected),
    {
        row == state.cursor().selected
    }

    /// The bar beside the graph on a row of the window.
    pub fn render_marker(&self, state: &CommitListState, row: usize) -> (r: Span)
        requires
            state.wf(),
            row < commit_list::visible_rows(state@.cursor),
        ensures
            r@ == (span::SpanView {
                content: "│"@,
                style: span::colored(state@.infos[state@.cursor.offset + row].color, false),
            }),
    {
        let info = state.visible_commit(row);
        Span::styled("│".to_string(), Style::colored(info.graph_color, false))
    }

    /// The references on a row of the window. There is nothing where a match cannot be marked.
    pub fn render_status(&self, state: &CommitListState, row: usize) -> (r: Option<Vec<Span>>)
        requires
            state.wf(),
            row < commit_list::visible_rows(state@.cursor),
        ensures
            ({
                let i = state@.cursor.offset + row;
                let clean = commit_row::labels_clean(
                    state@.infos[i],
                    &state@.visuals,
                    state@.matches[i].refs,
                    self.color_theme,
                );
                match r {
                    Some(spans) => clean && is_row(span::span_views(spans@)) && commit_row::shows_status(
                            state@.infos[i],
                            state@.head,
                            &state@.visuals,
                            state@.matches[i].refs,
                            self.color_theme,
                            inside(span::span_views(spans@)),
                        ),
                    None => !clean,
                }
            }),
    {
        match state.status_row(row, &self.color_theme) {
            Some(inner) => {
                let ghost shown = span::span_views(inner@);
                let r = commit_row::row_spans(inner);
                assert(inside(span::span_views(r@)) =~= shown);
                Some(r)
            },
            None => None,
        }
    }

    /// The subject on a row of the window. A column without room for a text stays empty. There is
    /// nothing where a match cannot be marked.
    pub fn render_subject(&self, state: &CommitListState, row: usize, area_width: u16) -> (r: Option<
        Vec<Span>,
    >)
        requires
            state.wf(),
            row < commit_list::visible_rows(state@.cursor),
        ensures
            ({
                let i = state@.cursor.offset + row;
                let subject = state@.infos[i].commit.subject;
                let width = text_room(area_width);
                match r {
                    Some(spans) if width == 0 => spans@.len() == 0,
                    Some(spans) => is_row(span::span_views(spans@)) && commit_row::shows_subject(
                            subject,
                            state@.matches[i].subject,
                            width,
                            state@.infos[i].color,
                            self.color_theme,
                            inside(span::span_views(spans@)),
                        ),
                    None => width > 0 && !commit_row::subject_clean(
                        subject,
                        state@.matches[i].subject,
                        width,
                    ),
                }
            }),
    {
        let width = room(area_width);
        if width == 0 {
            return Some(Vec::new());
        }
        match state.subject_row(row, width, &self.color_theme) {
            Some(inner) => {
                let ghost shown = span::span_views(inner@);
                let r = commit_row::row_spans(inner);
                assert(inside(span::span_views(r@)) =~= shown);
                Some(r)
            },
            None => None,
        }
    }

    /// The author's name on a row of the window. A column without room for a text stays empty. There
    /// is nothing where a match cannot be marked.
    pub fn render_name(&self, state: &CommitListState, row: usize, area_width: u16) -> (r: Option<
        Vec<Span>,
    >)
        requires
            state.wf(),
            row < commit_list::visible_rows(state@.cursor),
        ensures
            ({
                let i = state@.cursor.offset + row;
                let width = text_room(area_width);
                match r {
                    Some(spans) if width == 0 => spans@.len() == 0,
                    Some(spans) => is_row(span::span_views(spans@)) && commit_row::shows_name(
                            state@.infos[i].commit,
                            state@.matches[i].author_name,
                            width,
                            self.color_theme,
                            inside(span::span_views(spans@)),
                        ),
                    None => width > 0 && !commit_row::name_clean(
                        state@.infos[i].commit,
                        state@.matches[i].author_name,
                        width,
                    ),
                }
            }),
    {
        let width = room(area_width);
        if width == 0 {
            return Some(Vec::new());
        }
        match state.name_row(row, width, &self.color_theme) {
            Some(inner) => {
                let ghost shown = span::span_views(inner@);
                let r = commit_row::row_spans(inner);
                assert(inside(span::span_views(r@)) =~= shown);
                Some(r)
            },
            None => None,
        }
    }
}

fn room(area_width: u16) -> (r: usize)
    ensures
        r == text_room(area_width),
{
    if area_width >= 2 {
        (area_width - 2) as usize
    } else {
        0
    }
}

} // verus!
