//! The container component: rows of child widgets, and the flow layout that
//! places them.

use crate::arena::{insert_at, next_id};
use crate::dimension::Dimension;
use crate::position::{clamp, clamp_coordinate, Position};
use crate::ui::action::{Action, Outcome, ScheduledAction, Scheduler};
use crate::ui::error::Error;
use crate::ui::event::{Handler, HandlerId, Listener};
use crate::ui::spatial::{Spatial, SpatialView};
use crate::ui::style::Margins;
use crate::ui::widget::{
    lemma_attach_container, lemma_attach_spatial, Context, ManagerView, WidgetBuilder, WidgetId,
};
use vstd::prelude::*;

verus! {

/// Component alignment
#[derive(Clone, Copy, Debug, PartialEq, Eq, Structural)]
pub enum Alignment {
    /// Align to the left
    Left,
    /// Center in a row
    Center,
    /// Align to the right
    Right,
}

/// A column with a child widget in it
#[derive(Clone, Copy, Debug, PartialEq, Eq, Structural)]
pub struct Column {
    /// The child widget
    pub child: WidgetId,
    /// Alignment of the child within the row
    pub alignment: Alignment,
    /// The ID of the resize handler that the container has with the child
    pub resized_handler_id: HandlerId,
}

/// A column as the layout sees it: the child, its alignment, and the size
/// that it likes to have, where the child has one
#[derive(Clone, Copy, Debug, PartialEq, Eq, Structural)]
pub struct Cell {
    /// The child widget
    pub child: WidgetId,
    /// Alignment of the child within the row
    pub alignment: Alignment,
    /// The preferred size of the child; `None` for a child that is gone or
    /// has no place in space
    pub size: Option<Dimension>,
}

/// The rows as sequences.
pub open spec fn grid<T>(rows: Seq<Vec<T>>) -> Seq<Seq<T>> {
    rows.map_values(|row: Vec<T>| row@)
}

/// The width that a cell takes in its row.
pub open spec fn cell_width(cell: Cell) -> int {
    match cell.size {
        Some(size) => size.width as int,
        None => 0,
    }
}

/// The height that a cell asks of its row.
pub open spec fn cell_height(cell: Cell) -> int {
    match cell.size {
        Some(size) => size.height as int,
        None => 0,
    }
}

/// The height of a row: that of its highest cell.
pub open spec fn row_height(cells: Seq<Cell>) -> int
    decreases cells.len(),
{
    if cells.len() == 0 {
        0
    } else {
        let rest = row_height(cells.drop_last());
        let height = cell_height(cells.last());
        if height > rest {
            height
        } else {
            rest
        }
    }
}

/// The sum of the widths of the cells that have the given alignment.
pub open spec fn aligned_width(cells: Seq<Cell>, alignment: Alignment) -> int
    decreases cells.len(),
{
    if cells.len() == 0 {
        0
    } else {
        aligned_width(cells.drop_last(), alignment) + (if cells.last().alignment == alignment {
            cell_width(cells.last())
        } else {
            0
        })
    }
}

/// Where the centered cells start between `lo` and `hi`: such that the space
/// that their width leaves is split evenly, the odd unit going to the right.
pub open spec fn center_start(lo: int, hi: int, width: int) -> int {
    lo + (hi - lo - width) / 2
}

/// The x coordinate of the cell `i` of a row between `left_edge` and
/// `right_edge`. The cells that are aligned left follow each other from the
/// left edge; those aligned right follow each other from the right edge
/// inward; the centered ones follow each other in the middle of what the
/// other two groups leave.
pub open spec fn column_x(left_edge: int, right_edge: int, cells: Seq<Cell>, i: int) -> int {
    let before = aligned_width(cells.take(i), cells[i].alignment);
    match cells[i].alignment {
        Alignment::Left => left_edge + before,
        Alignment::Right => right_edge - before - cell_width(cells[i]),
        Alignment::Center => center_start(
            left_edge + aligned_width(cells, Alignment::Left),
            right_edge - aligned_width(cells, Alignment::Right),
            aligned_width(cells, Alignment::Center),
        ) + before,
    }
}

/// A row of three, aligned left, centered and aligned right: the first cell
/// lies at the left edge and the last one ends at the right edge; the
/// centered one lies in the middle of the space that the two leave, the odd
/// unit of the space going to its right.
pub proof fn lemma_row_of_three(left_edge: int, right_edge: int, cells: Seq<Cell>)
    requires
        cells.len() == 3,
        cells[0].alignment == Alignment::Left,
        cells[1].alignment == Alignment::Center,
        cells[2].alignment == Alignment::Right,
    ensures
        column_x(left_edge, right_edge, cells, 0) == left_edge,
        column_x(left_edge, right_edge, cells, 2) + cell_width(cells[2]) == right_edge,
        ({
            let before = column_x(left_edge, right_edge, cells, 1) - (left_edge + cell_width(
                cells[0],
            ));
            let behind = (right_edge - cell_width(cells[2])) - (column_x(
                left_edge,
                right_edge,
                cells,
                1,
            ) + cell_width(cells[1]));
            before == behind || before + 1 == behind
        }),
{
    let two = cells.drop_last();
    let one = two.drop_last();
    let none = one.drop_last();
    assert(none.len() == 0);
    assert(cells.take(0) =~= none);
    assert(cells.take(1) =~= one);
    assert(cells.take(2) =~= two);
    assert(one.last() == cells[0]);
    assert(two.last() == cells[1]);
    reveal_with_fuel(aligned_width, 4);
    assert(aligned_width(cells, Alignment::Left) == cell_width(cells[0]));
    assert(aligned_width(cells, Alignment::Center) == cell_width(cells[1]));
    assert(aligned_width(cells, Alignment::Right) == cell_width(cells[2]));
}

/// The y coordinate of the row `r`: the rows follow each other from `top`,
/// each one after the height of the one before it and the gap.
pub open spec fn row_y(top: int, gap: int, rows: Seq<Seq<Cell>>, r: int) -> int
    decreases r,
{
    if r <= 0 {
        top
    } else {
        row_y(top, gap, rows, r - 1) + row_height(rows[r - 1]) + gap
    }
}

/// The action that places the cell `i` of a row.
pub open spec fn cell_action(
    source_id: WidgetId,
    left_edge: int,
    right_edge: int,
    y: int,
    cells: Seq<Cell>,
    i: int,
) -> ScheduledAction {
    ScheduledAction {
        source_id,
        target_id: cells[i].child,
        action: Action::SetPosition(
            Position { x: clamp(column_x(left_edge, right_edge, cells, i)), y: clamp(y) },
        ),
    }
}

/// The actions that place the first `n` cells of a row, in their order: one
/// for each cell that has a size.
pub open spec fn row_actions(
    source_id: WidgetId,
    left_edge: int,
    right_edge: int,
    y: int,
    cells: Seq<Cell>,
    n: int,
) -> Seq<ScheduledAction>
    decreases n,
{
    if n <= 0 {
        Seq::empty()
    } else {
        let rest = row_actions(source_id, left_edge, right_edge, y, cells, n - 1);
        if cells[n - 1].size.is_some() {
            rest.push(cell_action(source_id, left_edge, right_edge, y, cells, n - 1))
        } else {
            rest
        }
    }
}

/// The actions that place the cells of the first `n` rows, row by row.
pub open spec fn rows_actions(
    source_id: WidgetId,
    left_edge: int,
    right_edge: int,
    top: int,
    gap: int,
    rows: Seq<Seq<Cell>>,
    n: int,
) -> Seq<ScheduledAction>
    decreases n,
{
    if n <= 0 {
        Seq::empty()
    } else {
        rows_actions(source_id, left_edge, right_edge, top, gap, rows, n - 1) + row_actions(
            source_id,
            left_edge,
            right_edge,
            row_y(top, gap, rows, n - 1),
            rows[n - 1],
            rows[n - 1].len() as int,
        )
    }
}

/// The actions that place the children of a container that lies at `origin`
/// and has the given size and margins. The rows lie between the left and the
/// right margin; the first one starts below the top margin, and every other
/// one after the height of the row before it and both vertical margins.
pub open spec fn arrangement(
    source_id: WidgetId,
    origin: Position,
    size: Dimension,
    margins: Margins,
    rows: Seq<Seq<Cell>>,
) -> Seq<ScheduledAction> {
    rows_actions(
        source_id,
        origin.x + margins.left,
        origin.x + size.width - margins.right,
        origin.y + margins.top,
        margins.top + margins.bottom,
        rows,
        rows.len() as int,
    )
}

/// What a row asks for: the widths of its three groups, and its height
pub struct Measure {
    /// The sum of the widths of the cells aligned left
    pub left: i128,
    /// The sum of the widths of the centered cells
    pub center: i128,
    /// The sum of the widths of the cells aligned right
    pub right: i128,
    /// The height of the highest cell
    pub height: i128,
}

/// Measures a row
pub fn measure(cells: &Vec<Cell>) -> (m: Measure)
    ensures
        m.left == aligned_width(cells@, Alignment::Left),
        m.center == aligned_width(cells@, Alignment::Center),
        m.right == aligned_width(cells@, Alignment::Right),
        m.height == row_height(cells@),
        0 <= m.left <= cells@.len() * 0x1_0000_0000,
        0 <= m.center <= cells@.len() * 0x1_0000_0000,
        0 <= m.right <= cells@.len() * 0x1_0000_0000,
        0 <= m.height < 0x1_0000_0000,
{
    let mut m = Measure { left: 0, center: 0, right: 0, height: 0 };
    let mut i: usize = 0;
    while i < cells.len()
        invariant
            i <= cells@.len(),
            m.left == aligned_width(cells@.take(i as int), Alignment::Left),
            m.center == aligned_width(cells@.take(i as int), Alignment::Center),
            m.right == aligned_width(cells@.take(i as int), Alignment::Right),
            m.height == row_height(cells@.take(i as int)),
            0 <= m.left <= i * 0x1_0000_0000,
            0 <= m.center <= i * 0x1_0000_0000,
            0 <= m.right <= i * 0x1_0000_0000,
            0 <= m.height < 0x1_0000_0000,
        decreases cells@.len() - i,
    {
        let cell = cells[i];
        assert(cells@.take(i + 1).drop_last() =~= cells@.take(i as int));
        assert(cells@.take(i + 1).last() == cell);
        match cell.size {
            Some(size) => {
                let width: i128 = size.width as i128;
                let height: i128 = size.height as i128;
                match cell.alignment {
                    Alignment::Left => {
                        m.left = m.left + width;
                    },
                    Alignment::Center => {
                        m.center = m.center + width;
                    },
                    Alignment::Right => {
                        m.right = m.right + width;
                    },
                }
                if height > m.height {
                    m.height = height;
                }
            },
            None => {},
        }
        i += 1;
    }
    assert(cells@.take(cells@.len() as int) =~= cells@);
    m
}

/// The half of a value, rounded down
fn half(value: i128) -> (r: i128)
    requires
        -0x1_0000_0000_0000_0000_0000_0000_0000 < value < 0x1_0000_0000_0000_0000_0000_0000_0000,
    ensures
        r == value as int / 2,
{
    if value >= 0 {
        value / 2
    } else {
        -((1 - value) / 2)
    }
}

/// Schedules the actions that place the cells of one row, and returns the
/// height of the row
fn place_row(
    source_id: WidgetId,
    left_edge: i128,
    right_edge: i128,
    y: i128,
    cells: &Vec<Cell>,
    scheduler: &mut Scheduler,
) -> (height: i128)
    requires
        -0x1_0000_0000_0000 < left_edge < 0x1_0000_0000_0000,
        -0x1_0000_0000_0000 < right_edge < 0x1_0000_0000_0000,
    ensures
        final(scheduler)@ == old(scheduler)@ + row_actions(
            source_id,
            left_edge as int,
            right_edge as int,
            y as int,
            cells@,
            cells@.len() as int,
        ),
        height == row_height(cells@),
        0 <= height < 0x1_0000_0000,
{
    let m = measure(cells);
    let count: usize = cells.len();
    assert(cells@.len() == count && count <= 0xFFFF_FFFF_FFFF_FFFF);
    let center_edge: i128 = left_edge + m.left + half(
        right_edge - m.right - left_edge - m.left - m.center,
    );
    let mut left: i128 = 0;
    let mut center: i128 = 0;
    let mut right: i128 = 0;
    let mut i: usize = 0;
    assert(scheduler@ =~= old(scheduler)@ + Seq::<ScheduledAction>::empty());
    while i < cells.len()
        invariant
            i <= cells@.len(),
            -0x1_0000_0000_0000 < left_edge < 0x1_0000_0000_0000,
            -0x1_0000_0000_0000 < right_edge < 0x1_0000_0000_0000,
            m.left == aligned_width(cells@, Alignment::Left),
            m.center == aligned_width(cells@, Alignment::Center),
            m.right == aligned_width(cells@, Alignment::Right),
            0 <= m.left <= cells@.len() * 0x1_0000_0000,
            0 <= m.center <= cells@.len() * 0x1_0000_0000,
            0 <= m.right <= cells@.len() * 0x1_0000_0000,
            cells@.len() <= 0xFFFF_FFFF_FFFF_FFFF,
            center_edge == center_start(
                left_edge + m.left,
                right_edge - m.right,
                m.center as int,
            ),
            left == aligned_width(cells@.take(i as int), Alignment::Left),
            center == aligned_width(cells@.take(i as int), Alignment::Center),
            right == aligned_width(cells@.take(i as int), Alignment::Right),
            0 <= left <= i * 0x1_0000_0000,
            0 <= center <= i * 0x1_0000_0000,
            0 <= right <= i * 0x1_0000_0000,
            scheduler@ == old(scheduler)@ + row_actions(
                source_id,
                left_edge as int,
                right_edge as int,
                y as int,
                cells@,
                i as int,
            ),
        decreases cells@.len() - i,
    {
        let cell = cells[i];
        assert(cells@.take(i + 1).drop_last() =~= cells@.take(i as int));
        assert(cells@.take(i + 1).last() == cell);
        match cell.size {
            Some(size) => {
                let width: i128 = size.width as i128;
                let x: i128 = match cell.alignment {
                    Alignment::Left => {
                        let x = left_edge + left;
                        left = left + width;
                        x
                    },
                    Alignment::Center => {
                        let x = center_edge + center;
                        center = center + width;
                        x
                    },
                    Alignment::Right => {
                        let x = right_edge - right - width;
                        right = right + width;
                        x
                    },
                };
                assert(x == column_x(left_edge as int, right_edge as int, cells@, i as int));
                scheduler.schedule(
                    ScheduledAction {
                        source_id,
                        target_id: cell.child,
                        action: Action::SetPosition(
                            Position { x: clamp_coordinate(x), y: clamp_coordinate(y) },
                        ),
                    },
                );
                assert(scheduler@ =~= old(scheduler)@ + row_actions(
                    source_id,
                    left_edge as int,
                    right_edge as int,
                    y as int,
                    cells@,
                    i + 1,
                ));
            },
            None => {},
        }
        i += 1;
    }
    m.height
}

/// Schedules the actions that place the children of a container: the flow
/// layout, row by row from the top
pub fn arrange(
    source_id: WidgetId,
    origin: Position,
    size: Dimension,
    margins: Margins,
    rows: &Vec<Vec<Cell>>,
    scheduler: &mut Scheduler,
)
    ensures
        final(scheduler)@ == old(scheduler)@ + arrangement(
            source_id,
            origin,
            size,
            margins,
            grid(rows@),
        ),
{
    let left_edge: i128 = origin.x as i128 + margins.left as i128;
    let right_edge: i128 = origin.x as i128 + size.width as i128 - margins.right as i128;
    let top: i128 = origin.y as i128 + margins.top as i128;
    let gap: i128 = margins.top as i128 + margins.bottom as i128;
    let mut y: i128 = top;
    let mut r: usize = 0;
    let count: usize = rows.len();
    assert(rows@.len() == count && count <= 0xFFFF_FFFF_FFFF_FFFF);
    assert(scheduler@ =~= old(scheduler)@ + Seq::<ScheduledAction>::empty());
    while r < rows.len()
        invariant
            r <= rows@.len(),
            rows@.len() <= 0xFFFF_FFFF_FFFF_FFFF,
            left_edge == origin.x + margins.left,
            right_edge == origin.x + size.width - margins.right,
            top == origin.y + margins.top,
            gap == margins.top + margins.bottom,
            y == row_y(top as int, gap as int, grid(rows@), r as int),
            top <= y <= top + r * 0x4_0000_0000,
            scheduler@ == old(scheduler)@ + rows_actions(
                source_id,
                left_edge as int,
                right_edge as int,
                top as int,
                gap as int,
                grid(rows@),
                r as int,
            ),
        decreases rows@.len() - r,
    {
        let row = &rows[r];
        assert(grid(rows@)[r as int] == row@);
        let height = place_row(source_id, left_edge, right_edge, y, row, scheduler);
        y = y + height + gap;
        r += 1;
        assert(scheduler@ =~= old(scheduler)@ + rows_actions(
            source_id,
            left_edge as int,
            right_edge as int,
            top as int,
            gap as int,
            grid(rows@),
            r as int,
        ));
    }
}

/// A column as the layout sees it in a state: with the size that the child
/// likes to have, where the child is there and has a spatial component.
pub open spec fn cell_of(state: ManagerView, column: Column) -> Cell {
    Cell {
        child: column.child,
        alignment: column.alignment,
        size: match state.spatial(column.child) {
            Ok(spatial) => Some(spatial.preferred_size),
            Err(_) => None,
        },
    }
}

/// A row as the layout sees it in a state.
pub open spec fn row_cells(state: ManagerView, row: Seq<Column>) -> Seq<Cell> {
    row.map_values(|column: Column| cell_of(state, column))
}

/// The rows as the layout sees them in a state.
pub open spec fn cells_of(state: ManagerView, rows: Seq<Seq<Column>>) -> Seq<Seq<Cell>> {
    rows.map_values(|row: Seq<Column>| row_cells(state, row))
}

/// What placing the children of a container comes to: nothing changes yet,
/// and one action is scheduled for each child that has a size, which will
/// move the child to its place.
pub open spec fn laid_out(state: ManagerView, id: WidgetId) -> Outcome {
    match state.container(id) {
        Ok(container) => match state.spatial(id) {
            Ok(spatial) => Outcome {
                state,
                scheduled: arrangement(
                    id,
                    spatial.position,
                    spatial.preferred_size,
                    container.margins,
                    cells_of(state, container.rows),
                ),
                result: Ok(()),
            },
            Err(error) => Outcome::failed(state, error),
        },
        Err(error) => Outcome::failed(state, error),
    }
}

/// The listener with which a container follows its own moves.
pub open spec fn moved_listener(id: WidgetId) -> Listener {
    Listener { target_id: id, handler: Handler::ContainerMoved }
}

/// The listener with which a container follows the size of a child.
pub open spec fn resized_listener(id: WidgetId) -> Listener {
    Listener { target_id: id, handler: Handler::ChildResized }
}

/// The state after the widget has been decorated with a container: as before
/// where it has one already; else it has a spatial component, a container
/// with the margins and without rows, and handles its own moves.
pub open spec fn decorated(state: ManagerView, id: WidgetId, margins: Margins) -> ManagerView {
    if state.container(id).is_ok() {
        state
    } else {
        let attached = crate::ui::spatial::decorated(state, id).attach_container(
            id,
            ContainerView { margins, rows: Seq::empty() },
        );
        let spatial = attached.spatial(id).unwrap();
        attached.with_spatial(
            id,
            SpatialView {
                move_handlers: insert_at(
                    spatial.move_handlers,
                    next_id(spatial.move_handlers),
                    moved_listener(id),
                ),
                ..spatial
            },
        )
    }
}

/// Decoration is idempotent: a widget that has been decorated with a
/// container has one, and to decorate it once more changes nothing, whatever
/// the margins.
pub proof fn lemma_decorated_twice(
    state: ManagerView,
    id: WidgetId,
    margins: Margins,
    other: Margins,
)
    requires
        state.wf(),
        state.widget(id).is_some(),
        state.has_room_for(id),
    ensures
        decorated(state, id, margins).wf(),
        decorated(state, id, margins).container(id).is_ok(),
        decorated(decorated(state, id, margins), id, other) == decorated(state, id, margins),
{
    if !state.container(id).is_ok() {
        let placed = crate::ui::spatial::decorated(state, id);
        crate::ui::spatial::lemma_decorated_twice(state, id);
        let view = ContainerView { margins, rows: Seq::empty() };
        lemma_attach_container(placed, id, view);
        let attached = placed.attach_container(id, view);
        assert(attached.spatial(id).is_ok());
        let spatial = attached.spatial(id).unwrap();
        lemma_attach_spatial(
            attached,
            id,
            SpatialView {
                move_handlers: insert_at(
                    spatial.move_handlers,
                    next_id(spatial.move_handlers),
                    moved_listener(id),
                ),
                ..spatial
            },
        );
    }
}

/// The state after a child has been added to the last row of a container:
/// the container follows the size of the child, and has one more column.
pub open spec fn with_child(
    state: ManagerView,
    id: WidgetId,
    child: WidgetId,
    alignment: Alignment,
) -> ManagerView {
    let spatial = state.spatial(child).unwrap();
    let handler_id = next_id(spatial.resize_handlers);
    let listening = state.with_spatial(
        child,
        SpatialView {
            resize_handlers: insert_at(spatial.resize_handlers, handler_id, resized_listener(id)),
            ..spatial
        },
    );
    let container = listening.container(id).unwrap();
    listening.with_container(
        id,
        ContainerView {
            rows: with_column(
                container.rows,
                Column { child, alignment, resized_handler_id: handler_id as HandlerId },
            ),
            ..container
        },
    )
}

/// The columns of a row without those of a child.
pub open spec fn without_child(row: Seq<Column>, child: WidgetId) -> Seq<Column>
    decreases row.len(),
{
    if row.len() == 0 {
        Seq::empty()
    } else {
        let rest = without_child(row.drop_last(), child);
        if row.last().child == child {
            rest
        } else {
            rest.push(row.last())
        }
    }
}

/// The first `n` rows without the columns of a child, and the other rows as
/// they are.
pub open spec fn forgetting_up_to(rows: Seq<Seq<Column>>, child: WidgetId, n: int) -> Seq<
    Seq<Column>,
> {
    Seq::new(
        rows.len(),
        |r: int|
            if r < n {
                without_child(rows[r], child)
            } else {
                rows[r]
            },
    )
}

/// Updates the position of all children
pub fn layout(context: &Context, scheduler: &mut Scheduler) -> (r: Result<(), Error>)
    requires
        context.wf(),
    ensures
        Outcome::describes(
            laid_out(context@, context.current()),
            context@,
            old(scheduler)@,
            final(scheduler)@,
            r,
        ),
{
    let widget_id = context.widget_id();
    let container = match context.container(widget_id) {
        Ok(container) => container,
        Err(error) => {
            assert(scheduler@ =~= old(scheduler)@ + Seq::empty());
            return Err(error);
        },
    };
    let spatial = match context.spatial(widget_id) {
        Ok(spatial) => spatial,
        Err(error) => {
            assert(scheduler@ =~= old(scheduler)@ + Seq::empty());
            return Err(error);
        },
    };
    let rows = container.rows();
    let mut cells: Vec<Vec<Cell>> = Vec::new();
    let mut r: usize = 0;
    assert(grid(cells@) =~= cells_of(context@, grid(rows@)).take(0));
    while r < rows.len()
        invariant
            r <= rows@.len(),
            context.wf(),
            grid(cells@) == cells_of(context@, grid(rows@)).take(r as int),
        decreases rows@.len() - r,
    {
        let row = &rows[r];
        let mut line: Vec<Cell> = Vec::new();
        let mut c: usize = 0;
        assert(line@ =~= row_cells(context@, row@).take(0));
        while c < row.len()
            invariant
                c <= row@.len(),
                context.wf(),
                line@ == row_cells(context@, row@).take(c as int),
            decreases row@.len() - c,
        {
            let column = row[c];
            let size = match context.spatial(column.child) {
                Ok(child) => Some(*child.preferred_size()),
                Err(_) => None,
            };
            line.push(Cell { child: column.child, alignment: column.alignment, size });
            c += 1;
            assert(line@ =~= row_cells(context@, row@).take(c as int));
        }
        assert(line@ =~= row_cells(context@, row@));
        let ghost before = grid(cells@);
        let ghost last = line@;
        cells.push(line);
        assert(grid(rows@)[r as int] == row@);
        r += 1;
        assert(grid(cells@) =~= before.push(last));
        assert(grid(cells@) =~= cells_of(context@, grid(rows@)).take(r as int));
    }
    assert(grid(cells@) =~= cells_of(context@, grid(rows@)));
    arrange(
        widget_id,
        *spatial.position(),
        *spatial.preferred_size(),
        *container.margins(),
        &cells,
        scheduler,
    );
    Ok(())
}

/// A component with child components
#[derive(Debug)]
pub struct Container {
    /// The margins between the edges of the container and its children
    margins: Margins,
    /// The child components as a list of rows
    rows: Vec<Vec<Column>>,
}

/// What a container holds.
pub struct ContainerView {
    /// The margins between the edges of the container and its children
    pub margins: Margins,
    /// The rows, each one a sequence of columns
    pub rows: Seq<Seq<Column>>,
}

impl ContainerView {
    /// The container after a child has been taken out: no row has a column
    /// of the child, and the other columns are in their rows in their order.
    pub open spec fn forgetting(self, child: WidgetId) -> ContainerView {
        ContainerView {
            rows: forgetting_up_to(self.rows, child, self.rows.len() as int),
            ..self
        }
    }
}

/// The rows after a column has been added: to the last row, or to a first
/// row where there was none.
pub open spec fn with_column(rows: Seq<Seq<Column>>, column: Column) -> Seq<Seq<Column>> {
    if rows.len() == 0 {
        seq![seq![column]]
    } else {
        rows.update(rows.len() - 1, rows.last().push(column))
    }
}

/// Whether a new row can be started: not while the last row is still empty.
pub open spec fn takes_row(rows: Seq<Seq<Column>>) -> bool {
    rows.len() == 0 || rows.last().len() != 0
}

impl View for Container {
    type V = ContainerView;

    closed spec fn view(&self) -> ContainerView {
        ContainerView { margins: self.margins, rows: grid(self.rows@) }
    }
}

impl Container {
    /// Creates a new container without rows
    pub fn new(margins: Margins) -> (container: Container)
        ensures
            container@ == (ContainerView { margins, rows: Seq::empty() }),
    {
        let container = Container { margins, rows: Vec::new() };
        assert(grid(container.rows@) =~= Seq::<Seq<Column>>::empty());
        container
    }

    /// Decorates a widget with a container, and with the spatial component
    /// that a container needs, if it does not have one already
    pub fn decorate(builder: &mut WidgetBuilder, margins: Margins) -> (r: Result<(), Error>)
        requires
            old(builder).wf(),
        ensures
            final(builder).wf(),
            final(builder).current() == old(builder).current(),
            r == Ok::<(), Error>(()),
            final(builder)@ == decorated(old(builder)@, old(builder).current(), margins),
            final(builder)@.container(old(builder).current()).is_ok(),
            old(builder)@.container(old(builder).current()).is_err()
                ==> final(builder)@.spatial(old(builder).current()).is_ok(),
    {
        proof {
            builder.lemma_wf();
        }
        let widget_id = builder.widget_id();
        let present = match builder.has_container() {
            Ok(present) => present,
            Err(error) => {
                return Err(error);
            },
        };
        if present {
            return Ok(());
        }
        match Spatial::decorate(builder) {
            Ok(()) => {},
            Err(error) => {
                return Err(error);
            },
        }
        proof {
            builder.lemma_wf();
        }
        match builder.set_container(Container::new(margins)) {
            Ok(()) => {},
            Err(error) => {
                return Err(error);
            },
        }
        proof {
            builder.lemma_wf();
        }
        match builder.spatial_mut() {
            Ok(spatial) => {
                spatial.add_move_handler(
                    Listener { target_id: widget_id, handler: Handler::ContainerMoved },
                );
            },
            Err(error) => {
                return Err(error);
            },
        }
        Ok(())
    }

    /// Adds a child widget to the last row of the container of a widget, and
    /// lets the container follow the size of the child. Fails, and changes
    /// nothing, where the widget is no container or the child has no
    /// spatial component
    pub fn add_column(
        context: &mut Context,
        id: WidgetId,
        child: WidgetId,
        alignment: Alignment,
    ) -> (r: Result<(), Error>)
        requires
            old(context).wf(),
        ensures
            final(context).wf(),
            final(context).current() == old(context).current(),
            r == (match old(context)@.container(id) {
                Ok(_) => match old(context)@.spatial(child) {
                    Ok(_) => Ok::<(), Error>(()),
                    Err(error) => Err(error),
                },
                Err(error) => Err(error),
            }),
            final(context)@ == (if r.is_ok() {
                with_child(old(context)@, id, child, alignment)
            } else {
                old(context)@
            }),
    {
        match context.container(id) {
            Ok(_) => {},
            Err(error) => {
                return Err(error);
            },
        }
        let resized_handler_id = match context.spatial_mut(child) {
            Ok(spatial) => spatial.add_resize_handler(
                Listener { target_id: id, handler: Handler::ChildResized },
            ),
            Err(error) => {
                return Err(error);
            },
        };
        match context.container_mut(id) {
            Ok(container) => {
                container.push_column(Column { child, alignment, resized_handler_id });
                Ok(())
            },
            Err(error) => Err(error),
        }
    }

    /// Returns the margins
    pub fn margins(&self) -> (margins: &Margins)
        ensures
            *margins == self@.margins,
    {
        &self.margins
    }

    /// Takes the columns of a child out of all rows
    pub fn forget(&mut self, child: WidgetId)
        ensures
            final(self)@ == old(self)@.forgetting(child),
    {
        let count = self.rows.len();
        let mut r: usize = 0;
        assert(grid(self.rows@) =~= forgetting_up_to(grid(old(self).rows@), child, 0));
        while r < count
            invariant
                r <= count,
                count == self.rows@.len(),
                count == old(self).rows@.len(),
                self.margins == old(self).margins,
                grid(self.rows@) == forgetting_up_to(grid(old(self).rows@), child, r as int),
            decreases count - r,
        {
            let mut kept: Vec<Column> = Vec::new();
            let mut c: usize = 0;
            let ghost row = self.rows@[r as int]@;
            proof {
                let start = grid(old(self).rows@);
                assert(grid(self.rows@)[r as int] == row);
                assert(forgetting_up_to(start, child, r as int)[r as int] == start[r as int]);
            }
            assert(row.take(0) =~= Seq::<Column>::empty());
            while c < self.rows[r].len()
                invariant
                    r < self.rows@.len(),
                    row == self.rows@[r as int]@,
                    c <= row.len(),
                    kept@ == without_child(row.take(c as int), child),
                decreases row.len() - c,
            {
                let column = self.rows[r][c];
                proof {
                    assert(row.take(c + 1).drop_last() =~= row.take(c as int));
                    assert(row.take(c + 1).last() == column);
                }
                if column.child != child {
                    kept.push(column);
                }
                c += 1;
            }
            assert(row.take(row.len() as int) =~= row);
            let ghost before = grid(self.rows@);
            let ghost rest = kept@;
            self.rows[r] = kept;
            proof {
                let start = grid(old(self).rows@);
                let now = grid(self.rows@);
                let next = forgetting_up_to(start, child, r + 1);
                assert(before == forgetting_up_to(start, child, r as int));
                assert forall|j: int| 0 <= j < count implies now[j] == next[j] by {
                    if j != r {
                        assert(now[j] == before[j]);
                    } else {
                        assert(now[j] == rest);
                    }
                }
                assert(now =~= next);
            }
            r += 1;
        }
    }

    /// Returns the rows
    pub fn rows(&self) -> (rows: &Vec<Vec<Column>>)
        ensures
            grid(rows@) == self@.rows,
    {
        &self.rows
    }

    /// Adds a column to the last row; where there is no row yet, the column
    /// starts the first one
    pub fn push_column(&mut self, column: Column)
        ensures
            final(self)@ == (ContainerView {
                rows: with_column(old(self)@.rows, column),
                ..old(self)@
            }),
    {
        let len = self.rows.len();
        if len == 0 {
            let mut row: Vec<Column> = Vec::new();
            row.push(column);
            self.rows.push(row);
            assert(grid(self.rows@) =~= with_column(grid(old(self).rows@), column));
        } else {
            self.rows[len - 1].push(column);
            assert(grid(self.rows@) =~= with_column(grid(old(self).rows@), column));
        }
    }

    /// Adds a row if the current row is not empty
    pub fn add_row(&mut self) -> (added: bool)
        ensures
            added == takes_row(old(self)@.rows),
            final(self)@ == (ContainerView {
                rows: if added {
                    old(self)@.rows.push(Seq::empty())
                } else {
                    old(self)@.rows
                },
                ..old(self)@
            }),
    {
        let len = self.rows.len();
        if len == 0 || self.rows[len - 1].len() != 0 {
            self.rows.push(Vec::new());
            assert(grid(self.rows@) =~= grid(old(self).rows@).push(Seq::empty()));
            true
        } else {
            false
        }
    }
}

} // verus!
