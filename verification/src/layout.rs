//! How the screen is divided.

use vstd::prelude::*;

verus! {

/// A rectangle of the screen, in cells.
#[derive(Debug, Clone, Copy, PartialEq, Eq, Structural)]
pub struct Area {
    /// The leftmost column.
    pub x: u16,
    /// The topmost row.
    pub y: u16,
    /// The number of columns.
    pub width: u16,
    /// The number of rows.
    pub height: u16,
}

/// How much of an area a part of it is to take.
#[derive(Debug, Clone, Copy, PartialEq, Eq, Structural)]
pub enum Share {
    /// This many cells.
    Length(u16),
    /// This many hundredths of the area.
    Percentage(u16),
    /// At least this many cells.
    Min(u16),
}

/// The direction in which an area is divided.
#[derive(Debug, Clone, Copy, PartialEq, Eq, Structural)]
pub enum Direction {
    /// Into parts beside each other.
    Horizontal,
    /// Into parts below each other.
    Vertical,
}

/// Whether a rectangle lies inside another.
pub open spec fn inside(part: Area, area: Area) -> bool {
    &&& area.x <= part.x
    &&& part.x + part.width <= area.x + area.width
    &&& area.y <= part.y
    &&& part.y + part.height <= area.y + area.height
}

/// What is known of the parts of an area, whichever sizes they get: there is one for every share,
/// they lie inside the area, and across the direction of the division they extend as it does.
pub open spec fn divides(parts: Seq<Area>, direction: Direction, count: nat, area: Area) -> bool {
    &&& parts.len() == count
    &&& forall|i: int| 0 <= i < parts.len() ==> inside(#[trigger] parts[i], area)
    &&& forall|i: int|
        0 <= i < parts.len() ==> match direction {
            Direction::Horizontal => (#[trigger] parts[i]).height == area.height,
            Direction::Vertical => parts[i].width == area.width,
        }
}

/// Where an area begins in a direction.
pub open spec fn start(area: Area, direction: Direction) -> int {
    match direction {
        Direction::Horizontal => area.x as int,
        Direction::Vertical => area.y as int,
    }
}

/// How many cells an area has in a direction.
pub open spec fn size(area: Area, direction: Direction) -> int {
    match direction {
        Direction::Horizontal => area.width as int,
        Direction::Vertical => area.height as int,
    }
}

/// How many cells there are to divide in a direction: those of the area, up to the last that a
/// coordinate can reach.
pub open spec fn extent(area: Area, direction: Direction) -> int {
    if start(area, direction) + size(area, direction) > u16::MAX {
        u16::MAX - start(area, direction)
    } else {
        size(area, direction)
    }
}

/// What is known of three parts, of which the first and the last are to take a number of cells
/// each, and the middle one whatever is left: it gets what they leave, and they get what they are
/// to take where that fits.
pub open spec fn framed(
    parts: Seq<Area>,
    direction: Direction,
    first: int,
    last: int,
    area: Area,
) -> bool {
    let cells = extent(area, direction);
    let from = start(area, direction);
    if first + last <= cells {
        &&& start(parts[0], direction) == from && size(parts[0], direction) == first
        &&& start(parts[1], direction) == from + first
        &&& size(parts[1], direction) == cells - first - last
        &&& start(parts[2], direction) == from + cells - last && size(parts[2], direction) == last
    } else {
        size(parts[1], direction) == 0
    }
}

/// What is known of two parts that are to take `hundredths` of an area and the rest of it: they
/// share it in that ratio, with the border between them at the nearest cell.
pub open spec fn shared(
    parts: Seq<Area>,
    direction: Direction,
    hundredths: int,
    area: Area,
) -> bool {
    let cells = extent(area, direction);
    let from = start(area, direction);
    let first = (hundredths * cells + 50) / 100;
    &&& start(parts[0], direction) == from && size(parts[0], direction) == first
    &&& start(parts[1], direction) == from + first && size(parts[1], direction) == cells - first
}

/// Whether parts stand one after the other, without covering each other.
pub open spec fn in_order(parts: Seq<Area>, direction: Direction) -> bool {
    forall|i: int, j: int|
        #![trigger parts[i], parts[j]]
        0 <= i < j < parts.len() ==> start(parts[i], direction) + size(parts[i], direction)
            <= start(parts[j], direction)
}

/// Whether shares are hundredths that make up the whole of an area.
pub open spec fn are_complements(shares: Seq<Share>) -> bool {
    &&& shares.len() == 2
    &&& shares[0] is Percentage && shares[1] is Percentage
    &&& shares[0]->Percentage_0 + shares[1]->Percentage_0 == 100
}

/// Whether shares are two lengths with a part between them that takes what is left.
pub open spec fn are_frame(shares: Seq<Share>) -> bool {
    &&& shares.len() == 3
    &&& shares[0] is Length && shares[1] == Share::Min(0) && shares[2] is Length
}

/// Whether shares are three equal lengths with hundredths between them.
pub open spec fn are_stack(shares: Seq<Share>) -> bool {
    &&& shares.len() == 5
    &&& shares[0] is Length && shares[2] == shares[0] && shares[4] == shares[0]
    &&& shares[1] is Percentage && shares[3] is Percentage
}

/// Whether the parts are ones that the layout solver may divide an area into, in this direction
/// and with these shares. It settles shares that cannot all be met in no fixed way, so there may
/// be several.
pub uninterp spec fn may_divide(
    area: Area,
    direction: Direction,
    shares: Seq<Share>,
    parts: Seq<Area>,
) -> bool;

/// `ratatui::layout::Layout::split`: divides an area in a direction into one part for every
/// share. The parts lie inside the area, and across that direction they extend as it does. Of
/// three parts, of which the outer ones are to take a number of cells each and the middle one at
/// least none, the middle one gets what the others leave: the solver weighs a length more than
/// filling up the area, and that more than leaving cells unused. Two parts whose hundredths make
/// up the whole share it in that ratio. Other sizes are left to the layout solver: all that is
/// said of them is that the parts are an outcome for these arguments. The solver computes the end
/// of a part and the start of the next as two numbers and rounds each; for the three kinds of
/// shares named here both come out at one number of hundredths of a cell, so the parts stand in
/// order. For other shares that is left unsaid.
#[verifier::external_body]
fn split(area: Area, direction: Direction, shares: &Vec<Share>) -> (r: Vec<Area>)
    ensures
        may_divide(area, direction, shares@, r@),
        divides(r@, direction, shares@.len(), area),
        are_complements(shares@) || are_frame(shares@) || are_stack(shares@) ==> in_order(
            r@,
            direction,
        ),
        are_complements(shares@) ==> shared(
            r@,
            direction,
            shares@[0]->Percentage_0 as int,
            area,
        ),
        are_frame(shares@) ==> framed(
            r@,
            direction,
            shares@[0]->Length_0 as int,
            shares@[2]->Length_0 as int,
            area,
        ),
{
    let rules = shares.iter().map(|s| match *s {
        Share::Length(n) => ratatui::layout::Constraint::Length(n),
        Share::Percentage(n) => ratatui::layout::Constraint::Percentage(n),
        Share::Min(n) => ratatui::layout::Constraint::Min(n),
    });
    let towards = match direction {
        Direction::Horizontal => ratatui::layout::Direction::Horizontal,
        Direction::Vertical => ratatui::layout::Direction::Vertical,
    };
    let Area { x, y, width, height } = area;
    let parts = ratatui::layout::Layout::new(towards, rules)
        .split(ratatui::layout::Rect { x, y, width, height });
    parts.iter().map(|p| Area { x: p.x, y: p.y, width: p.width, height: p.height }).collect()
}

/// The shares of the two columns: the projects and the output.
pub open spec fn column_shares() -> Seq<Share> {
    seq![Share::Percentage(30), Share::Percentage(70)]
}

/// The shares of the left column from top to bottom: its title, the projects, with the processes
/// of the system their title and their list, and the keys.
pub open spec fn left_shares(show_system_processes: bool) -> Seq<Share> {
    if show_system_processes {
        seq![
            Share::Length(3),
            Share::Percentage(50),
            Share::Length(3),
            Share::Percentage(40),
            Share::Length(3),
        ]
    } else {
        seq![Share::Length(3), Share::Min(0), Share::Length(3)]
    }
}

/// The shares of the right column from top to bottom: its title, the output, and the keys.
pub open spec fn right_shares() -> Seq<Share> {
    seq![Share::Length(3), Share::Min(0), Share::Length(3)]
}

/// Where everything stands on the screen.
#[derive(Debug, Clone, Copy, PartialEq, Eq)]
pub struct Panels {
    /// The title of the left column.
    pub title: Area,
    /// The list of projects.
    pub projects: Area,
    /// The title and the list of the processes of the system, where they are shown.
    pub system: Option<(Area, Area)>,
    /// The keys of the left column.
    pub instructions: Area,
    /// The title of the right column.
    pub output_header: Area,
    /// The output.
    pub output: Area,
    /// The keys of the right column.
    pub output_instructions: Area,
}

/// What stands in which part of the two columns.
pub open spec fn arranged(
    left: Seq<Area>,
    right: Seq<Area>,
    show_system_processes: bool,
) -> Panels {
    Panels {
        title: left[0],
        projects: left[1],
        system: if show_system_processes {
            Some((left[2], left[3]))
        } else {
            None
        },
        instructions: if show_system_processes {
            left[4]
        } else {
            left[2]
        },
        output_header: right[0],
        output: right[1],
        output_instructions: right[2],
    }
}

/// What is known of where everything stands, whichever sizes the parts get.
pub open spec fn divided(
    panels: Panels,
    area: Area,
    show_system_processes: bool,
    columns: Seq<Area>,
    left: Seq<Area>,
    right: Seq<Area>,
) -> bool {
    &&& may_divide(area, Direction::Horizontal, column_shares(), columns)
    &&& may_divide(columns[0], Direction::Vertical, left_shares(show_system_processes), left)
    &&& may_divide(columns[1], Direction::Vertical, right_shares(), right)
    &&& divides(columns, Direction::Horizontal, column_shares().len(), area)
    &&& divides(left, Direction::Vertical, left_shares(show_system_processes).len(), columns[0])
    &&& divides(right, Direction::Vertical, right_shares().len(), columns[1])
    &&& shared(columns, Direction::Horizontal, 30, area)
    &&& in_order(columns, Direction::Horizontal)
    &&& in_order(left, Direction::Vertical)
    &&& in_order(right, Direction::Vertical)
    &&& !show_system_processes ==> framed(left, Direction::Vertical, 3, 3, columns[0])
    &&& framed(right, Direction::Vertical, 3, 3, columns[1])
    &&& panels == arranged(left, right, show_system_processes)
}

/// How many rows the output gets: all but those of its title and of the keys.
pub open spec fn output_height(area: Area) -> int {
    if extent(area, Direction::Vertical) >= 6 {
        extent(area, Direction::Vertical) - 6
    } else {
        0
    }
}

/// Puts the parts of the two columns to their use.
pub fn arrange(left: &Vec<Area>, right: &Vec<Area>, show_system_processes: bool) -> (r: Panels)
    requires
        left@.len() == left_shares(show_system_processes).len(),
        right@.len() == right_shares().len(),
    ensures
        r == arranged(left@, right@, show_system_processes),
{
    Panels {
        title: left[0],
        projects: left[1],
        system: if show_system_processes {
            Some((left[2], left[3]))
        } else {
            None
        },
        instructions: if show_system_processes {
            left[4]
        } else {
            left[2]
        },
        output_header: right[0],
        output: right[1],
        output_instructions: right[2],
    }
}

/// The shares of the two columns.
fn columns() -> (r: Vec<Share>)
    ensures
        r@ == column_shares(),
{
    let r: Vec<Share> = vec![Share::Percentage(30), Share::Percentage(70)];
    assert(r@ =~= column_shares());
    r
}

/// The shares of the left column.
fn left_column(show_system_processes: bool) -> (r: Vec<Share>)
    ensures
        r@ == left_shares(show_system_processes),
{
    let r: Vec<Share> = if show_system_processes {
        vec![
            Share::Length(3),
            Share::Percentage(50),
            Share::Length(3),
            Share::Percentage(40),
            Share::Length(3),
        ]
    } else {
        vec![Share::Length(3), Share::Min(0), Share::Length(3)]
    };
    assert(r@ =~= left_shares(show_system_processes));
    r
}

/// The shares of the right column.
fn right_column() -> (r: Vec<Share>)
    ensures
        r@ == right_shares(),
{
    let r: Vec<Share> = vec![Share::Length(3), Share::Min(0), Share::Length(3)];
    assert(r@ =~= right_shares());
    r
}

/// Divides the screen.
pub fn divide_screen(area: Area, show_system_processes: bool) -> (r: Panels)
    ensures
        exists|columns: Seq<Area>, left: Seq<Area>, right: Seq<Area>|
            divided(r, area, show_system_processes, columns, left, right),
        (r.system is Some) == show_system_processes,
        r.output.height == output_height(area),
{
    let columns = split(area, Direction::Horizontal, &columns());
    let left = split(columns[0], Direction::Vertical, &left_column(show_system_processes));
    let right = split(columns[1], Direction::Vertical, &right_column());
    let r = arrange(&left, &right, show_system_processes);
    assert(divided(r, area, show_system_processes, columns@, left@, right@));
    assert(inside(columns@[1], area));
    r
}

/// Whether two rectangles have no cell in common.
pub open spec fn apart(a: Area, b: Area) -> bool {
    ||| a.x + a.width <= b.x
    ||| b.x + b.width <= a.x
    ||| a.y + a.height <= b.y
    ||| b.y + b.height <= a.y
}

/// All that stands on the screen.
pub open spec fn all_panels(panels: Panels) -> Seq<Area> {
    let right = seq![panels.output_header, panels.output, panels.output_instructions];
    match panels.system {
        Some((title, list)) => seq![
            panels.title,
            panels.projects,
            title,
            list,
            panels.instructions,
        ] + right,
        None => seq![panels.title, panels.projects, panels.instructions] + right,
    }
}

/// Nothing on the screen covers anything else, however it is divided.
pub proof fn lemma_panels_are_apart(
    panels: Panels,
    area: Area,
    show_system_processes: bool,
    columns: Seq<Area>,
    left: Seq<Area>,
    right: Seq<Area>,
)
    requires
        divided(panels, area, show_system_processes, columns, left, right),
    ensures
        forall|i: int, j: int|
            #![trigger all_panels(panels)[i], all_panels(panels)[j]]
            0 <= i < j < all_panels(panels).len() ==> apart(
                all_panels(panels)[i],
                all_panels(panels)[j],
            ),
{
    let all = left + right;
    assert(all_panels(panels) =~= all);
    assert forall|i: int, j: int| #![trigger all[i], all[j]] 0 <= i < j < all.len() implies apart(
        all[i],
        all[j],
    ) by {
        if j < left.len() {
            assert(all[i] == left[i] && all[j] == left[j]);
        } else if i >= left.len() {
            let (k, l) = (i - left.len(), j - left.len());
            assert(all[i] == right[k] && all[j] == right[l]);
        } else {
            assert(all[i] == left[i] && all[j] == right[j - left.len()]);
            assert(inside(left[i], columns[0]));
            assert(inside(right[j - left.len()], columns[1]));
        }
    }
}

/// Nothing stands outside the screen, however it is divided.
pub proof fn lemma_panels_are_on_screen(
    panels: Panels,
    area: Area,
    show_system_processes: bool,
    columns: Seq<Area>,
    left: Seq<Area>,
    right: Seq<Area>,
)
    requires
        divided(panels, area, show_system_processes, columns, left, right),
    ensures
        inside(panels.title, area),
        inside(panels.projects, area),
        panels.system matches Some((title, list)) ==> inside(title, area) && inside(list, area),
        inside(panels.instructions, area),
        inside(panels.output_header, area),
        inside(panels.output, area),
        inside(panels.output_instructions, area),
{
    assert(inside(columns[0], area) && inside(columns[1], area));
    assert(forall|i: int| 0 <= i < left.len() ==> inside(#[trigger] left[i], columns[0]));
    assert(forall|i: int| 0 <= i < right.len() ==> inside(#[trigger] right[i], columns[1]));
}

/// Where everything stands on a screen that coordinates can reach. The left column takes thirty
/// hundredths of the width and the right one the rest, both over the whole height. In the right
/// one the title takes three rows at the top and the keys three at the bottom, with the output
/// between them, where there are as many rows; and so in the left one with the projects between
/// them, unless the processes of the system are shown.
pub proof fn lemma_where_panels_stand(
    panels: Panels,
    area: Area,
    show_system_processes: bool,
    columns: Seq<Area>,
    left: Seq<Area>,
    right: Seq<Area>,
)
    requires
        divided(panels, area, show_system_processes, columns, left, right),
        area.x + area.width <= 65535,
        area.y + area.height <= 65535,
    ensures
        ({
            let wide = (30 * area.width + 50) / 100;
            let (x, y) = (area.x as int, area.y as int);
            let (w, h) = (area.width as int, area.height as int);
            &&& in_column(panels.title, x, wide) && in_column(panels.projects, x, wide)
            &&& in_column(panels.instructions, x, wide)
            &&& panels.system matches Some((title, list)) ==> in_column(title, x, wide)
                && in_column(list, x, wide)
            &&& in_column(panels.output_header, x + wide, w - wide)
            &&& in_column(panels.output, x + wide, w - wide)
            &&& in_column(panels.output_instructions, x + wide, w - wide)
            &&& panels.system is Some <==> show_system_processes
            &&& h >= 6 ==> {
                &&& in_rows(panels.output_header, y, 3)
                &&& in_rows(panels.output, y + 3, h - 6)
                &&& in_rows(panels.output_instructions, y + h - 3, 3)
                &&& !show_system_processes ==> in_rows(panels.title, y, 3) && in_rows(
                    panels.projects,
                    y + 3,
                    h - 6,
                ) && in_rows(panels.instructions, y + h - 3, 3)
            }
            &&& panels.output_header.y + panels.output_header.height <= panels.output.y
            &&& panels.output.y + panels.output.height <= panels.output_instructions.y
            &&& panels.title.y + panels.title.height <= panels.projects.y
            &&& panels.projects.y + panels.projects.height <= panels.instructions.y
        }),
{
    assert(inside(columns[0], area) && inside(columns[1], area));
    assert(forall|i: int| 0 <= i < left.len() ==> inside(#[trigger] left[i], columns[0]));
    assert(forall|i: int| 0 <= i < right.len() ==> inside(#[trigger] right[i], columns[1]));
    assert(left[0] == panels.title && left[1] == panels.projects);
}

/// Whether a rectangle has the given columns.
pub open spec fn in_column(area: Area, x: int, width: int) -> bool {
    area.x == x && area.width == width
}

/// Whether a rectangle has the given rows.
pub open spec fn in_rows(area: Area, y: int, height: int) -> bool {
    area.y == y && area.height == height
}

/// With the processes of the system shown, the left column holds from top to bottom its title and
/// the projects, the title and the list of the processes, and the keys: three rows for both titles
/// and for the keys, half of the height for the projects and four tenths of it for the list, as
/// far as the layout solver can meet that.
pub proof fn lemma_left_column_with_processes(
    panels: Panels,
    area: Area,
    columns: Seq<Area>,
    left: Seq<Area>,
    right: Seq<Area>,
)
    requires
        divided(panels, area, true, columns, left, right),
    ensures
        panels.system is Some,
        ({
            let (title, list) = panels.system->0;
            let column = Area {
                x: area.x,
                y: area.y,
                width: panels.title.width,
                height: area.height,
            };
            &&& may_divide(
                column,
                Direction::Vertical,
                seq![
                    Share::Length(3),
                    Share::Percentage(50),
                    Share::Length(3),
                    Share::Percentage(40),
                    Share::Length(3),
                ],
                seq![panels.title, panels.projects, title, list, panels.instructions],
            )
            &&& panels.title.y + panels.title.height <= panels.projects.y
            &&& panels.projects.y + panels.projects.height <= title.y
            &&& title.y + title.height <= list.y
            &&& list.y + list.height <= panels.instructions.y
        }),
{
    let (title, list) = panels.system->0;
    assert(inside(columns[0], area));
    assert(left.len() == 5);
    assert(left =~= seq![panels.title, panels.projects, title, list, panels.instructions]);
    assert(inside(left[0], columns[0]) && left[0].width == columns[0].width);
}

} // verus!
