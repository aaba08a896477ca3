//! The line under the view.

use vstd::prelude::*;
use vstd::string::*;
use crate::color::ColorTheme;
use crate::span;
use crate::span::{Span, Style};
use crate::text;
use crate::widget::commit_row;
use crate::widget::measure;

verus! {

/// What the line under the view says.
#[derive(Debug, PartialEq, Eq)]
pub enum StatusLine {
    Blank,
    Input(String, Option<u16>, Option<String>),
    NotificationInfo(String),
    NotificationSuccess(String),
    NotificationWarn(String),
    NotificationError(String),
}

pub ghost enum StatusLineView {
    Blank,
    Input(Seq<char>, Option<u16>, Option<Seq<char>>),
    NotificationInfo(Seq<char>),
    NotificationSuccess(Seq<char>),
    NotificationWarn(Seq<char>),
    NotificationError(Seq<char>),
}

impl View for StatusLine {
    type V = StatusLineView;

    open spec fn view(&self) -> StatusLineView {
        match self {
            StatusLine::Blank => StatusLineView::Blank,
            StatusLine::Input(m, c, t) => StatusLineView::Input(m@, *c, text::opt_text(*t)),
            StatusLine::NotificationInfo(m) => StatusLineView::NotificationInfo(m@),
            StatusLine::NotificationSuccess(m) => StatusLineView::NotificationSuccess(m@),
            StatusLine::NotificationWarn(m) => StatusLineView::NotificationWarn(m@),
            StatusLine::NotificationError(m) => StatusLineView::NotificationError(m@),
        }
    }
}

impl Default for StatusLine {
    fn default() -> (r: StatusLine)
        ensures
            r is Blank,
    {
        StatusLine::Blank
    }
}

impl StatusLineView {
    /// Whether a key takes the line away.
    pub open spec fn passing(self) -> bool {
        !(self is Blank || self is Input)
    }
}

/// A text and what is said beside it at the right end of the line, where both fit with a column of
/// space at each end. `width` and `beside_width` are the columns that they take.
pub open spec fn input_row(
    message: Seq<char>,
    beside: Seq<char>,
    width: int,
    beside_width: int,
    area_width: int,
    theme: ColorTheme,
) -> Option<Seq<span::SpanView>> {
    let room = area_width - width - beside_width - 2;
    if room < 0 {
        None
    } else {
        Some(
            seq![
                span::SpanView {
                    content: message,
                    style: span::colored(theme.status_input_fg, false),
                },
                span::SpanView {
                    content: Seq::new(room as nat, |i: int| ' '),
                    style: span::plain(),
                },
                span::SpanView {
                    content: beside,
                    style: span::colored(theme.status_input_transient_fg, false),
                },
            ],
        )
    }
}

/// What an optional list of spans shows.
pub open spec fn opt_spans(r: Option<Vec<Span>>) -> Option<Seq<span::SpanView>> {
    match r {
        Some(v) => Some(span::span_views(v@)),
        None => None,
    }
}

/// A text and what is said beside it, where both fit.
pub fn input_spans(
    message: &str,
    beside: &str,
    width: usize,
    beside_width: usize,
    area_width: u16,
    color_theme: &ColorTheme,
) -> (r: Option<Vec<Span>>)
    ensures
        opt_spans(r) == input_row(
            message@,
            beside@,
            width as int,
            beside_width as int,
            area_width as int,
            *color_theme,
        ),
{
    let area = area_width as usize;
    if width > area || beside_width > area - width || area - width - beside_width < 2 {
        return None;
    }
    let room = area - width - beside_width - 2;
    let mut r: Vec<Span> = Vec::new();
    r.push(
        Span::styled(message.to_string(), Style::colored(color_theme.status_input_fg, false)),
    );
    r.push(Span::styled(commit_row::spaces(room), Style::plain()));
    r.push(
        Span::styled(
            beside.to_string(),
            Style::colored(color_theme.status_input_transient_fg, false),
        ),
    );
    assert(span::span_views(r@) =~= input_row(
        message@,
        beside@,
        width as int,
        beside_width as int,
        area_width as int,
        *color_theme,
    )->0);
    Some(r)
}

/// How the line is drawn. There is no such line where an input and what is said beside it do not
/// fit. The number that is being typed stands on a blank line.
pub open spec fn line_drawn(
    line: StatusLineView,
    numeric_prefix: Seq<char>,
    area_width: u16,
    theme: ColorTheme,
) -> Option<Seq<span::SpanView>> {
    match line {
        StatusLineView::Blank => Some(
            seq![
                if numeric_prefix.len() == 0 {
                    span::SpanView { content: Seq::empty(), style: span::plain() }
                } else {
                    span::SpanView {
                        content: numeric_prefix,
                        style: span::colored(theme.status_input_transient_fg, false),
                    }
                },
            ],
        ),
        StatusLineView::Input(m, _, None) => Some(
            seq![
                span::SpanView { content: m, style: span::colored(theme.status_input_fg, false) },
            ],
        ),
        StatusLineView::Input(m, _, Some(t)) => input_row(
            m,
            t,
            measure::text_width(m) as int,
            measure::text_width(t) as int,
            area_width as int,
            theme,
        ),
        StatusLineView::NotificationInfo(m) => Some(
            seq![
                span::SpanView { content: m, style: span::colored(theme.status_info_fg, false) },
            ],
        ),
        StatusLineView::NotificationSuccess(m) => Some(
            seq![span::bold_span(m, theme.status_success_fg)],
        ),
        StatusLineView::NotificationWarn(m) => Some(
            seq![span::bold_span(m, theme.status_warn_fg)],
        ),
        StatusLineView::NotificationError(m) => Some(
            seq![span::bold_span("ERROR: "@ + m, theme.status_error_fg)],
        ),
    }
}

impl StatusLine {
    /// Draws the line in an area of this width.
    pub fn render_status_line(
        &self,
        numeric_prefix: &str,
        area_width: u16,
        color_theme: &ColorTheme,
    ) -> (r: Option<Vec<Span>>)
        ensures
            opt_spans(r) == line_drawn(self@, numeric_prefix@, area_width, *color_theme),
    {
        match self {
            StatusLine::Blank => {
                if text::byte_len(numeric_prefix) == 0 {
                    let s = Span::raw("");
                    proof {
                        reveal_strlit("");
                        assert(s@.content =~= Seq::<char>::empty());
                    }
                    Some(span::single(s))
                } else {
                    Some(
                        span::single(
                            Span::styled(
                                numeric_prefix.to_string(),
                                Style::colored(color_theme.status_input_transient_fg, false),
                            ),
                        ),
                    )
                }
            },
            StatusLine::Input(message, _, beside) => match beside {
                Some(t) => input_spans(
                    message.as_str(),
                    t.as_str(),
                    measure::measure_text_width(message.as_str()),
                    measure::measure_text_width(t.as_str()),
                    area_width,
                    color_theme,
                ),
                None => Some(
                    span::single(
                        Span::styled(
                            message.clone(),
                            Style::colored(color_theme.status_input_fg, false),
                        ),
                    ),
                ),
            },
            StatusLine::NotificationInfo(message) => Some(
                span::single(
                    Span::styled(
                        message.clone(),
                        Style::colored(color_theme.status_info_fg, false),
                    ),
                ),
            ),
            StatusLine::NotificationSuccess(message) => Some(
                span::single(Span::bold(message.as_str(), color_theme.status_success_fg)),
            ),
            StatusLine::NotificationWarn(message) => Some(
                span::single(Span::bold(message.as_str(), color_theme.status_warn_fg)),
            ),
            StatusLine::NotificationError(message) => Some(
                span::single(
                    Span::bold(
                        text::concat("ERROR: ", message.as_str()).as_str(),
                        color_theme.status_error_fg,
                    ),
                ),
            ),
        }
    }

    /// The column of the caret, where one is shown, in an area that starts at a column.
    pub fn cursor_column(&self, area_x: u16) -> (r: Option<u16>)
        requires
            self@ matches StatusLineView::Input(_, Some(c), _) ==> area_x + c <= u16::MAX,
        ensures
            r == match self@ {
                StatusLineView::Input(_, Some(c), _) => Some((area_x + c) as u16),
                _ => None,
            },
    {
        match self {
            StatusLine::Input(_, Some(c), _) => Some(area_x + *c),
            _ => None,
        }
    }
}

// ---------------------------------------------------------------------------------------------
// Laws

/// A message stands on the status line in the color of its sort, an error with a word before it,
/// and while nothing else stands there, the number that was begun does.
pub proof fn messages_are_drawn(m: Seq<char>, prefix: Seq<char>, width: u16, theme: ColorTheme)
    ensures
        line_drawn(StatusLineView::NotificationError(m), prefix, width, theme) matches Some(r)
            && r.len() == 1 && r[0].content == "ERROR: "@ + m && r[0].style.fg == Some(
            theme.status_error_fg,
        ),
        line_drawn(StatusLineView::NotificationWarn(m), prefix, width, theme) matches Some(r)
            && r.len() == 1 && r[0].content == m && r[0].style.fg == Some(theme.status_warn_fg),
        line_drawn(StatusLineView::NotificationSuccess(m), prefix, width, theme) matches Some(r)
            && r.len() == 1 && r[0].content == m && r[0].style.fg == Some(theme.status_success_fg),
        line_drawn(StatusLineView::NotificationInfo(m), prefix, width, theme) matches Some(r)
            && r.len() == 1 && r[0].content == m && r[0].style.fg == Some(theme.status_info_fg),
        line_drawn(StatusLineView::Blank, prefix, width, theme) matches Some(r) && r.len() == 1
            && r[0].content == prefix,
        line_drawn(StatusLineView::Input(m, None, None), prefix, width, theme) matches Some(r)
            && r.len() == 1 && r[0].content == m,
{
    assert(prefix.len() == 0 ==> prefix =~= Seq::<char>::empty());
}

} // verus!
