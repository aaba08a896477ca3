//! Colours, and which of them the views use.

use vstd::prelude::*;

verus! {

/// A colour of the terminal.
#[derive(Debug, Clone, Copy, PartialEq, Eq, Structural)]
pub enum Color {
    Reset,
    Black,
    Red,
    Green,
    Yellow,
    Blue,
    Magenta,
    Cyan,
    Gray,
    DarkGray,
    LightRed,
    LightGreen,
    LightYellow,
    LightBlue,
    LightMagenta,
    LightCyan,
    White,
    Rgb(u8, u8, u8),
    Indexed(u8),
}

/// The colours that the views use.
#[derive(Debug, Clone, Copy, PartialEq, Eq, Structural)]
pub struct ColorTheme {
    pub fg: Color,
    pub bg: Color,
    pub list_selected_fg: Color,
    pub list_selected_bg: Color,
    pub list_ref_tag_fg: Color,
    pub list_ref_stash_fg: Color,
    pub list_match_fg: Color,
    pub list_match_bg: Color,
    pub detail_label_fg: Color,
    pub ref_selected_fg: Color,
    pub ref_selected_bg: Color,
    pub status_input_fg: Color,
    pub status_input_transient_fg: Color,
    pub status_info_fg: Color,
    pub status_success_fg: Color,
    pub status_warn_fg: Color,
    pub status_error_fg: Color,
    pub divider_fg: Color,
    pub virtual_cursor_fg: Color,
}

impl Default for ColorTheme {
    fn default() -> (r: ColorTheme)
        ensures
            r == (ColorTheme {
                fg: Color::Reset,
                bg: Color::Reset,
                list_selected_fg: Color::White,
                list_selected_bg: Color::DarkGray,
                list_ref_tag_fg: Color::Yellow,
                list_ref_stash_fg: Color::Magenta,
                list_match_fg: Color::Black,
                list_match_bg: Color::Yellow,
                detail_label_fg: Color::Cyan,
                ref_selected_fg: Color::White,
                ref_selected_bg: Color::DarkGray,
                status_input_fg: Color::Reset,
                status_input_transient_fg: Color::DarkGray,
                status_info_fg: Color::Cyan,
                status_success_fg: Color::Green,
                status_warn_fg: Color::Yellow,
                status_error_fg: Color::Red,
                divider_fg: Color::DarkGray,
                virtual_cursor_fg: Color::Reset,
            }),
    {
        ColorTheme {
            fg: Color::Reset,
            bg: Color::Reset,
            list_selected_fg: Color::White,
            list_selected_bg: Color::DarkGray,
            list_ref_tag_fg: Color::Yellow,
            list_ref_stash_fg: Color::Magenta,
            list_match_fg: Color::Black,
            list_match_bg: Color::Yellow,
            detail_label_fg: Color::Cyan,
            ref_selected_fg: Color::White,
            ref_selected_bg: Color::DarkGray,
            status_input_fg: Color::Reset,
            status_input_transient_fg: Color::DarkGray,
            status_info_fg: Color::Cyan,
            status_success_fg: Color::Green,
            status_warn_fg: Color::Yellow,
            status_error_fg: Color::Red,
            divider_fg: Color::DarkGray,
            virtual_cursor_fg: Color::Reset,
        }
    }
}

/// The parts of red, green and blue in a colour, as far as they are known.
pub open spec fn parts_of(color: Color) -> Option<(u8, u8, u8)> {
    match color {
        Color::Rgb(r, g, b) => Some((r, g, b)),
        Color::Black => Some((0, 0, 0)),
        Color::DarkGray => Some((128, 128, 128)),
        Color::Gray => Some((192, 192, 192)),
        Color::White => Some((255, 255, 255)),
        Color::Red => Some((205, 49, 49)),
        Color::Green => Some((13, 188, 121)),
        Color::Yellow => Some((229, 229, 16)),
        Color::Blue => Some((36, 114, 200)),
        Color::Magenta => Some((188, 63, 188)),
        Color::Cyan => Some((17, 168, 205)),
        Color::LightRed => Some((241, 76, 76)),
        Color::LightGreen => Some((35, 209, 139)),
        Color::LightYellow => Some((245, 245, 67)),
        Color::LightBlue => Some((59, 142, 234)),
        Color::LightMagenta => Some((214, 112, 214)),
        Color::LightCyan => Some((41, 184, 219)),
        _ => None,
    }
}

pub fn color_parts(color: Color) -> (r: Option<(u8, u8, u8)>)
    ensures
        r == parts_of(color),
{
    match color {
        Color::Rgb(r, g, b) => Some((r, g, b)),
        Color::Black => Some((0, 0, 0)),
        Color::DarkGray => Some((128, 128, 128)),
        Color::Gray => Some((192, 192, 192)),
        Color::White => Some((255, 255, 255)),
        Color::Red => Some((205, 49, 49)),
        Color::Green => Some((13, 188, 121)),
        Color::Yellow => Some((229, 229, 16)),
        Color::Blue => Some((36, 114, 200)),
        Color::Magenta => Some((188, 63, 188)),
        Color::Cyan => Some((17, 168, 205)),
        Color::LightRed => Some((241, 76, 76)),
        Color::LightGreen => Some((35, 209, 139)),
        Color::LightYellow => Some((245, 245, 67)),
        Color::LightBlue => Some((59, 142, 234)),
        Color::LightMagenta => Some((214, 112, 214)),
        Color::LightCyan => Some((41, 184, 219)),
        _ => None,
    }
}

/// A colour of the commit graph.
#[derive(Debug, Clone, Copy, PartialEq, Eq, Structural)]
pub struct GraphColor {
    pub r: u8,
    pub g: u8,
    pub b: u8,
}

impl GraphColor {
    pub fn from_rgb(r: u8, g: u8, b: u8) -> (c: GraphColor)
        ensures
            c == (GraphColor { r, g, b }),
    {
        GraphColor { r, g, b }
    }

    pub open spec fn on_terminal(self) -> Color {
        Color::Rgb(self.r, self.g, self.b)
    }

    pub fn to_color(&self) -> (c: Color)
        ensures
            c == self.on_terminal(),
    {
        Color::Rgb(self.r, self.g, self.b)
    }
}

/// The colours of the commit graph: one for each lane, over again where there are more lanes.
#[derive(Debug)]
pub struct GraphColorSet {
    pub colors: Vec<GraphColor>,
    pub edge_color: GraphColor,
    pub background_color: GraphColor,
}

impl GraphColorSet {
    pub open spec fn lane(&self, index: int) -> GraphColor {
        self.colors@[index % self.colors@.len() as int]
    }

    pub fn get(&self, index: usize) -> (r: GraphColor)
        requires
            self.colors@.len() > 0,
        ensures
            r == self.lane(index as int),
    {
        self.colors[index % self.colors.len()]
    }
}

} // verus!
