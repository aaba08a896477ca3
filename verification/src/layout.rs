//! How columns share the width of the terminal.

use vstd::prelude::*;
use crate::config::UserListColumnType;

verus! {

/// The room that a column is given.
#[derive(Debug, Clone, Copy, PartialEq, Eq, Structural)]
pub enum Constraint {
    Length(u16),
    Min(u16),
}

/// The width of the column that holds the references.
pub const STATUS_COLUMN_WIDTH: u16 = 15;

/// The columns of space beside an author's name.
pub const NAME_PAD: u16 = 2;

pub open spec fn width_of(columns: Seq<UserListColumnType>, column: UserListColumnType, width: int) -> int {
    if columns.contains(column) {
        width
    } else {
        0
    }
}

/// The width that all columns want.
pub open spec fn wanted_width(
    columns: Seq<UserListColumnType>,
    subject_min_width: int,
    graph_width: int,
    name_width: int,
) -> int {
    width_of(columns, UserListColumnType::Graph, graph_width) + width_of(
        columns,
        UserListColumnType::Marker,
        1,
    ) + width_of(columns, UserListColumnType::Status, STATUS_COLUMN_WIDTH as int) + width_of(
        columns,
        UserListColumnType::Name,
        name_width + NAME_PAD,
    ) + subject_min_width
}

/// The room for a column in an area: where not all that is wanted fits, the name goes first, and
/// where that is not enough, the references go too. Hashes and dates get no room.
pub open spec fn cell(
    column: UserListColumnType,
    columns: Seq<UserListColumnType>,
    area_width: int,
    subject_min_width: int,
    graph_width: int,
    name_width: int,
) -> Constraint {
    let wanted = wanted_width(columns, subject_min_width, graph_width, name_width);
    let with_name = wanted <= area_width;
    let left = if with_name {
        wanted
    } else {
        wanted - width_of(columns, UserListColumnType::Name, name_width + NAME_PAD)
    };
    match column {
        UserListColumnType::Graph => Constraint::Length(graph_width as u16),
        UserListColumnType::Marker => Constraint::Length(1),
        UserListColumnType::Status => Constraint::Length(
            if left > area_width {
                0
            } else {
                STATUS_COLUMN_WIDTH
            },
        ),
        UserListColumnType::Subject => Constraint::Min(0),
        UserListColumnType::Name => Constraint::Length(
            if with_name {
                (name_width + NAME_PAD) as u16
            } else {
                0
            },
        ),
        UserListColumnType::Hash => Constraint::Length(0),
        UserListColumnType::Date => Constraint::Length(0),
    }
}

fn has_column(columns: &[UserListColumnType], column: UserListColumnType) -> (r: bool)
    ensures
        r == columns@.contains(column),
{
    let mut i: usize = 0;
    while i < columns.len()
        invariant
            i <= columns@.len(),
            forall|j: int| 0 <= j < i ==> columns@[j] != column,
        decreases columns@.len() - i,
    {
        if columns[i] == column {
            assert(columns@[i as int] == column);
            return true;
        }
        i = i + 1;
    }
    false
}

/// Shares the width of the area among the columns.
pub fn calc_cell_widths(
    area_width: u16,
    subject_min_width: u16,
    graph_width: u16,
    name_width: u16,
    _date_width: u16,
    columns: &[UserListColumnType],
) -> (r: Vec<Constraint>)
    requires
        wanted_width(
            columns@,
            subject_min_width as int,
            graph_width as int,
            name_width as int,
        ) <= u16::MAX,
    ensures
        r@.len() == columns@.len(),
        forall|i: int|
            0 <= i < r@.len() ==> #[trigger] r@[i] == cell(
                columns@[i],
                columns@,
                area_width as int,
                subject_min_width as int,
                graph_width as int,
                name_width as int,
            ),
{
    let graph_cell_width: u16 = if has_column(columns, UserListColumnType::Graph) {
        graph_width
    } else {
        0
    };
    let marker_cell_width: u16 = if has_column(columns, UserListColumnType::Marker) {
        1
    } else {
        0
    };
    let mut status_cell_width: u16 = if has_column(columns, UserListColumnType::Status) {
        STATUS_COLUMN_WIDTH
    } else {
        0
    };
    let mut name_cell_width: u16 = if has_column(columns, UserListColumnType::Name) {
        name_width + NAME_PAD
    } else {
        0
    };
    let mut total_width: u16 = graph_cell_width + marker_cell_width + status_cell_width
        + name_cell_width + subject_min_width;
    if total_width > area_width {
        total_width = total_width - name_cell_width;
        name_cell_width = 0;
    }
    if total_width > area_width {
        status_cell_width = 0;
    }
    let mut constraints: Vec<Constraint> = Vec::new();
    let mut i: usize = 0;
    while i < columns.len()
        invariant
            i <= columns@.len(),
            constraints@.len() == i,
            columns@.contains(UserListColumnType::Graph) ==> graph_cell_width == graph_width,
            columns@.contains(UserListColumnType::Marker) ==> marker_cell_width == 1,
            columns@.contains(UserListColumnType::Status) ==> Constraint::Length(status_cell_width)
                == cell(
                UserListColumnType::Status,
                columns@,
                area_width as int,
                subject_min_width as int,
                graph_width as int,
                name_width as int,
            ),
            columns@.contains(UserListColumnType::Name) ==> Constraint::Length(name_cell_width)
                == cell(
                UserListColumnType::Name,
                columns@,
                area_width as int,
                subject_min_width as int,
                graph_width as int,
                name_width as int,
            ),
            forall|j: int|
                0 <= j < i ==> #[trigger] constraints@[j] == cell(
                    columns@[j],
                    columns@,
                    area_width as int,
                    subject_min_width as int,
                    graph_width as int,
                    name_width as int,
                ),
        decreases columns@.len() - i,
    {
        assert(columns@.contains(columns@[i as int]));
        let constraint = match columns[i] {
            UserListColumnType::Graph => Constraint::Length(graph_cell_width),
            UserListColumnType::Marker => Constraint::Length(marker_cell_width),
            UserListColumnType::Status => Constraint::Length(status_cell_width),
            UserListColumnType::Subject => Constraint::Min(0),
            UserListColumnType::Name => Constraint::Length(name_cell_width),
            UserListColumnType::Hash => Constraint::Length(0),
            UserListColumnType::Date => Constraint::Length(0),
        };
        constraints.push(constraint);
        i = i + 1;
    }
    constraints
}

/// Whether a column is drawn.
pub open spec fn is_visible(column: UserListColumnType) -> bool {
    !(column is Hash) && !(column is Date)
}

/// The columns that are drawn, in their order.
pub fn visible_columns(columns: &[UserListColumnType]) -> (r: Vec<UserListColumnType>)
    ensures
        r@ == columns@.filter(|c: UserListColumnType| is_visible(c)),
{
    let ghost keep = |c: UserListColumnType| is_visible(c);
    let mut r: Vec<UserListColumnType> = Vec::new();
    let mut i: usize = 0;
    reveal(Seq::filter);
    assert(columns@.take(0).filter(keep) =~= Seq::<UserListColumnType>::empty());
    while i < columns.len()
        invariant
            i <= columns@.len(),
            keep == (|c: UserListColumnType| is_visible(c)),
            r@ == columns@.take(i as int).filter(keep),
        decreases columns@.len() - i,
    {
        reveal(Seq::filter);
        assert(columns@.take(i + 1).drop_last() =~= columns@.take(i as int));
        let column = columns[i];
        let drawn = match column {
            UserListColumnType::Hash => false,
            UserListColumnType::Date => false,
            _ => true,
        };
        if drawn {
            r.push(column);
        }
        i = i + 1;
    }
    assert(columns@.take(i as int) =~= columns@);
    r
}

/// The columns that are left fit into the area wherever the graph, the marker and the subject do.
pub proof fn columns_fit(
    columns: Seq<UserListColumnType>,
    area_width: int,
    subject_min_width: int,
    graph_width: int,
    name_width: int,
)
    requires
        graph_width >= 0,
        subject_min_width >= 0,
        0 <= name_width,
        wanted_width(columns, subject_min_width, graph_width, name_width) <= u16::MAX,
        graph_width + 1 + subject_min_width <= area_width,
    ensures
        ({
            let status = cell(
                UserListColumnType::Status,
                columns,
                area_width,
                subject_min_width,
                graph_width,
                name_width,
            );
            let name = cell(
                UserListColumnType::Name,
                columns,
                area_width,
                subject_min_width,
                graph_width,
                name_width,
            );
            width_of(columns, UserListColumnType::Graph, graph_width) + width_of(
                columns,
                UserListColumnType::Marker,
                1,
            ) + width_of(columns, UserListColumnType::Status, status->Length_0 as int) + width_of(
                columns,
                UserListColumnType::Name,
                name->Length_0 as int,
            ) + subject_min_width <= area_width
        }),
{
}

/// The width of the pane with the references: what is set, but no more than the graph leaves.
pub fn refs_pane_width(area_width: u16, graph_area_width: u16, set_width: u16) -> (r: u16)
    requires
        graph_area_width < u16::MAX,
    ensures
        ({
            let left = if area_width > graph_area_width {
                area_width - graph_area_width - 1
            } else {
                0
            };
            r == if left <= set_width {
                left
            } else {
                set_width as int
            }
        }),
{
    let left = area_width.saturating_sub(graph_area_width + 1);
    if left <= set_width {
        left
    } else {
        set_width
    }
}

/// The height of the pane with a commit's details: what is set, but a row is left for the list.
pub fn detail_pane_height(area_height: u16, set_height: u16) -> (r: u16)
    requires
        area_height > 0,
    ensures
        r == if area_height - 1 <= set_height {
            area_height - 1
        } else {
            set_height as int
        },
{
    if area_height - 1 <= set_height {
        area_height - 1
    } else {
        set_height
    }
}

/// The columns of the names and of the marks are as wide as is wanted where there is room. Where
/// there is not, the names go first, and the marks only where that is not enough.
pub proof fn names_go_first(
    columns: Seq<UserListColumnType>,
    area_width: int,
    subject_min_width: int,
    graph_width: int,
    name_width: int,
)
    requires
        columns.contains(UserListColumnType::Graph),
        columns.contains(UserListColumnType::Marker),
        columns.contains(UserListColumnType::Status),
        columns.contains(UserListColumnType::Name),
        graph_width >= 0,
        subject_min_width >= 0,
        name_width >= 0,
        graph_width + 1 + 15 + name_width + 2 + subject_min_width <= u16::MAX,
    ensures
        ({
            let of = |c: UserListColumnType|
                cell(c, columns, area_width, subject_min_width, graph_width, name_width);
            let rest = graph_width + 1 + 15 + subject_min_width;
            &&& of(UserListColumnType::Graph) == Constraint::Length(graph_width as u16)
            &&& of(UserListColumnType::Marker) == Constraint::Length(1)
            &&& rest + name_width + 2 <= area_width ==> of(UserListColumnType::Name)
                == Constraint::Length((name_width + 2) as u16) && of(UserListColumnType::Status)
                == Constraint::Length(15)
            &&& rest <= area_width < rest + name_width + 2 ==> of(UserListColumnType::Name)
                == Constraint::Length(0) && of(UserListColumnType::Status) == Constraint::Length(15)
            &&& area_width < rest ==> of(UserListColumnType::Name) == Constraint::Length(0) && of(
                UserListColumnType::Status,
            ) == Constraint::Length(0)
        }),
{
}

} // verus!
