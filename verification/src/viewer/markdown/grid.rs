//! The grid of a table: which cell owns which slot.
//!
//! A cell names the position of its top-left corner, or leaves it to be
//! worked out, and the rows and columns it spans. The grid has one slot for
//! each position that the table declares. Working out which cell owns which
//! slot has two steps: every cell gets a position (`resolved`), and then the
//! positions are gone through row by row, each from left to right, and the
//! first cell at a position that is still free takes it and all free slots
//! that its span reaches (`materialized`). A cell whose position is taken
//! or lies outside the grid gets nothing.

use vstd::prelude::*;
use crate::document::bodytext::{span_of, Table, TableCell, TableCellModel, TableModel};

verus! {

/// A position in the grid of a table.
pub struct Place {
    pub row: int,
    pub col: int,
}

/// What a slot of the grid holds.
#[derive(Debug, Clone, Copy, PartialEq, Eq, Structural)]
pub enum Slot {
    /// No cell reaches the slot.
    Free,
    /// The top-left corner of the cell with this place in the table's list
    /// of cells.
    Anchor(usize),
    /// A slot that the span of a cell reaches, other than its corner.
    Merged,
}

impl DeepView for Slot {
    type V = Slot;

    open spec fn deep_view(&self) -> Slot {
        *self
    }
}

/// The row that a cell declares, and 0 where it declares none.
pub open spec fn declared_row(cell: TableCellModel) -> int {
    match cell.row_address {
        Some(r) => r as int,
        None => 0,
    }
}

/// All cells declare the same row. Such a list is one run of cells, to be
/// cut into rows.
pub open spec fn one_logical_row(cells: Seq<TableCellModel>) -> bool {
    forall|i: int| 0 <= i < cells.len() ==> declared_row(#[trigger] cells[i]) == declared_row(cells[0])
}

/// The column behind the last of the first `n` cells that stands in the row
/// `row`, and 0 where none of them does.
pub open spec fn column_behind(cells: Seq<TableCellModel>, places: Seq<Place>, n: int, row: int)
    -> int
    decreases n,
{
    if n <= 0 {
        0
    } else if places[n - 1].row == row {
        places[n - 1].col + span_of(cells[n - 1].col_span)
    } else {
        column_behind(cells, places, n - 1, row)
    }
}

/// The position of the cell `k`, given the positions `before` of the cells
/// before it.
///
/// Its row: in a run of cells that all declare the same row, the first
/// cell stands in row 0, and a cell whose declared column is not to the
/// right of the cell before it starts the next row, as long as the table
/// declares another one; in any other list, the row that the cell declares.
/// Its column: the one it declares, or else the column behind the last
/// cell before it in its row.
pub open spec fn place_of(cells: Seq<TableCellModel>, rows: int, before: Seq<Place>, k: int)
    -> Place {
    let cell = cells[k];
    let row = if one_logical_row(cells) {
        if k <= 0 {
            0
        } else {
            match cell.col_address {
                Some(c) => if c <= before[k - 1].col && before[k - 1].row + 1 < rows {
                    before[k - 1].row + 1
                } else {
                    before[k - 1].row
                },
                None => before[k - 1].row,
            }
        }
    } else {
        declared_row(cell)
    };
    let col = match cell.col_address {
        Some(c) => c as int,
        None => column_behind(cells, before, k, row),
    };
    Place { row, col }
}

/// The positions of the first `n` cells of a table that declares `rows`
/// rows.
pub open spec fn resolved(cells: Seq<TableCellModel>, rows: int, n: int) -> Seq<Place>
    decreases n,
{
    if n <= 0 {
        Seq::empty()
    } else {
        let before = resolved(cells, rows, n - 1);
        before.push(place_of(cells, rows, before, n - 1))
    }
}

/// The first of the first `n` cells that stands at the position
/// (`row`, `col`), if one does.
pub open spec fn claimant(places: Seq<Place>, n: int, row: int, col: int) -> Option<int>
    decreases n,
{
    if n <= 0 {
        None
    } else {
        match claimant(places, n - 1, row, col) {
            Some(i) => Some(i),
            None => if places[n - 1] == (Place { row, col }) {
                Some(n - 1)
            } else {
                None
            },
        }
    }
}

/// A grid of `rows` rows and `cols` columns in which every slot is free.
pub open spec fn free_grid(rows: int, cols: int) -> Seq<Seq<Slot>> {
    Seq::new(rows as nat, |y: int| Seq::new(cols as nat, |x: int| Slot::Free))
}

/// `grid` has `rows` rows of `cols` slots each.
pub open spec fn rectangular(grid: Seq<Seq<Slot>>, rows: int, cols: int) -> bool {
    grid.len() == rows && forall|y: int| 0 <= y < rows ==> (#[trigger] grid[y]).len() == cols
}

/// `grid` after the cell `cell` has taken the position (`row`, `col`): of
/// the slots that its span reaches, those that were free are its own, the
/// corner as its anchor and the others as merged; the slots that were
/// taken stay as they were.
pub open spec fn covered(
    grid: Seq<Seq<Slot>>,
    row: int,
    col: int,
    row_span: int,
    col_span: int,
    cell: int,
) -> Seq<Seq<Slot>> {
    Seq::new(
        grid.len(),
        |y: int|
            Seq::new(
                grid[y].len(),
                |x: int|
                    if row <= y < row + row_span && col <= x < col + col_span && grid[y][x]
                        is Free {
                        if y == row && x == col {
                            Slot::Anchor(cell as usize)
                        } else {
                            Slot::Merged
                        }
                    } else {
                        grid[y][x]
                    },
            ),
    )
}

/// `grid` after the position (`row`, `col`) had its turn: the first cell at
/// that position takes it, if there is such a cell and the slot is free.
pub open spec fn claimed(
    grid: Seq<Seq<Slot>>,
    cells: Seq<TableCellModel>,
    places: Seq<Place>,
    row: int,
    col: int,
) -> Seq<Seq<Slot>> {
    match claimant(places, places.len() as int, row, col) {
        Some(i) => if grid[row][col] is Free {
            covered(grid, row, col, span_of(cells[i].row_span), span_of(cells[i].col_span), i)
        } else {
            grid
        },
        None => grid,
    }
}

/// The grid when the turn comes to the position (`row`, `col`): every
/// position in a row above, and every position to the left in the same
/// row, had its turn.
pub open spec fn grid_before(
    cells: Seq<TableCellModel>,
    places: Seq<Place>,
    rows: int,
    cols: int,
    row: int,
    col: int,
) -> Seq<Seq<Slot>>
    decreases row, col,
{
    if col > 0 {
        claimed(grid_before(cells, places, rows, cols, row, col - 1), cells, places, row, col - 1)
    } else if row > 0 {
        grid_before(cells, places, rows, cols, row - 1, cols)
    } else {
        free_grid(rows, cols)
    }
}

/// The positions of the cells of a table.
pub open spec fn places_of(table: TableModel) -> Seq<Place> {
    resolved(table.cells, table.row_count as int, table.cells.len() as int)
}

/// The grid of a table: as many rows and columns as the table declares,
/// and in each slot what the cells leave there.
pub open spec fn materialized(table: TableModel) -> Seq<Seq<Slot>> {
    grid_before(
        table.cells,
        places_of(table),
        table.row_count as int,
        table.col_count as int,
        table.row_count as int,
        0,
    )
}

/// A grid of `rows` rows and `cols` columns with `value` in every slot.
pub fn new_grid<T: Copy>(rows: usize, cols: usize, value: T) -> (grid: Vec<Vec<T>>)
    ensures
        grid@.len() == rows,
        forall|y: int| 0 <= y < rows ==> (#[trigger] grid@[y])@.len() == cols,
        forall|y: int, x: int| 0 <= y < rows && 0 <= x < cols ==> grid@[y]@[x] == value,
{
    let mut grid: Vec<Vec<T>> = Vec::new();
    let mut y: usize = 0;
    while y < rows
        invariant
            y <= rows,
            grid@.len() == y,
            forall|k: int| 0 <= k < y ==> (#[trigger] grid@[k])@.len() == cols,
            forall|k: int, x: int| 0 <= k < y && 0 <= x < cols ==> grid@[k]@[x] == value,
        decreases rows - y,
    {
        let mut line: Vec<T> = Vec::new();
        let mut x: usize = 0;
        while x < cols
            invariant
                x <= cols,
                line@.len() == x,
                forall|k: int| 0 <= k < x ==> line@[k] == value,
            decreases cols - x,
        {
            line.push(value);
            x += 1;
        }
        grid.push(line);
        y += 1;
    }
    grid
}

/// The position of a cell, as the program holds it.
#[derive(Clone, Copy)]
struct CellPlace {
    row: usize,
    col: u128,
}

spec fn places_view(places: Seq<CellPlace>) -> Seq<Place> {
    Seq::new(places.len(), |i: int| Place { row: places[i].row as int, col: places[i].col as int })
}

/// The positions are within what the arithmetic on them can hold.
spec fn places_bounded(places: Seq<CellPlace>) -> bool {
    forall|k: int|
        0 <= k < places.len() ==> (#[trigger] places[k]).row <= 65535 && places[k].col <= 65535 * (k
            + 1)
}

fn row_of(cell: &TableCell) -> (row: usize)
    ensures
        row == declared_row(cell@),
        row <= 65535,
{
    match cell.row_address {
        Some(r) => r as usize,
        None => 0,
    }
}

fn span(declared: u16) -> (n: usize)
    ensures
        n == span_of(declared),
        1 <= n <= 65535,
{
    if declared == 0 {
        1
    } else {
        declared as usize
    }
}

fn is_one_logical_row(table: &Table) -> (one: bool)
    ensures
        one == one_logical_row(table@.cells),
{
    if table.cells.len() == 0 {
        return true;
    }
    let first = row_of(&table.cells[0]);
    let ghost cells = table@.cells;
    let mut i: usize = 1;
    while i < table.cells.len()
        invariant
            1 <= i <= table.cells.len(),
            cells == table@.cells,
            first == declared_row(cells[0]),
            forall|k: int| 0 <= k < i ==> declared_row(#[trigger] cells[k]) == first,
        decreases table.cells.len() - i,
    {
        assert(cells[i as int] == table.cells@[i as int]@);
        if row_of(&table.cells[i]) != first {
            return false;
        }
        i += 1;
    }
    true
}

fn find_column_behind(table: &Table, places: &Vec<CellPlace>, row: usize) -> (col: u128)
    requires
        places@.len() <= table.cells@.len(),
        places_bounded(places@),
    ensures
        col == column_behind(table@.cells, places_view(places@), places@.len() as int, row as int),
        col <= 65535 * (places@.len() + 1),
{
    let ghost cells = table@.cells;
    let ghost view = places_view(places@);
    let mut n: usize = places.len();
    while n > 0
        invariant
            n <= places@.len() <= table.cells@.len(),
            cells == table@.cells,
            view == places_view(places@),
            places_bounded(places@),
            column_behind(cells, view, places@.len() as int, row as int) == column_behind(
                cells,
                view,
                n as int,
                row as int,
            ),
        decreases n,
    {
        let place = places[n - 1];
        if place.row == row {
            return place.col + span(table.cells[n - 1].col_span) as u128;
        }
        n -= 1;
    }
    0
}

/// Works out the position of every cell.
fn resolve_addresses(table: &Table) -> (places: Vec<CellPlace>)
    ensures
        places_view(places@) == places_of(table@),
        places@.len() == table.cells@.len(),
        places_bounded(places@),
{
    let one = is_one_logical_row(table);
    let rows = table.row_count as usize;
    let ghost cells = table@.cells;
    let mut places: Vec<CellPlace> = Vec::new();
    let mut i: usize = 0;
    while i < table.cells.len()
        invariant
            i <= table.cells.len(),
            cells == table@.cells,
            rows == table.row_count,
            one == one_logical_row(cells),
            places@.len() == i,
            places_bounded(places@),
            places_view(places@) == resolved(cells, rows as int, i as int),
        decreases table.cells.len() - i,
    {
        let cell = &table.cells[i];
        let row: usize = if one {
            if i == 0 {
                0
            } else {
                let last = places[i - 1];
                match cell.col_address {
                    Some(c) => if c as u128 <= last.col && last.row + 1 < rows {
                        last.row + 1
                    } else {
                        last.row
                    },
                    None => last.row,
                }
            }
        } else {
            row_of(cell)
        };
        let col: u128 = match cell.col_address {
            Some(c) => c as u128,
            None => find_column_behind(table, &places, row),
        };
        places.push(CellPlace { row, col });
        proof {
            assert forall|k: int| 0 <= k < places@.len() implies (#[trigger] places@[k]).row <= 65535
                && places@[k].col <= 65535 * (k + 1) by {
            }
        }
        i += 1;
    }
    places
}

/// `claims` holds, for every position of the grid, the first of the first
/// `n` cells that stands there.
spec fn claims_hold(
    claims: Seq<Vec<Option<usize>>>,
    places: Seq<Place>,
    n: int,
    rows: int,
    cols: int,
) -> bool {
    &&& claims.len() == rows
    &&& forall|y: int| 0 <= y < rows ==> (#[trigger] claims[y])@.len() == cols
    &&& forall|y: int, x: int|
        0 <= y < rows && 0 <= x < cols ==> match #[trigger] claims[y]@[x] {
            Some(i) => claimant(places, n, y, x) == Some(i as int),
            None => claimant(places, n, y, x) is None,
        }
}

/// Finds, for every position of the grid, the first cell that stands there.
fn first_claims(places: &Vec<CellPlace>, rows: usize, cols: usize) -> (claims: Vec<
    Vec<Option<usize>>,
>)
    ensures
        claims_hold(claims@, places_view(places@), places@.len() as int, rows as int, cols as int),
{
    let mut claims: Vec<Vec<Option<usize>>> = new_grid(rows, cols, None);
    let ghost view = places_view(places@);
    let mut i: usize = 0;
    while i < places.len()
        invariant
            i <= places.len(),
            view == places_view(places@),
            claims_hold(claims@, view, i as int, rows as int, cols as int),
        decreases places.len() - i,
    {
        let place = places[i];
        if place.row < rows && place.col < cols as u128 {
            let x = place.col as usize;
            if claims[place.row][x].is_none() {
                claims[place.row][x] = Some(i);
            }
        }
        proof {
            assert forall|y: int, x: int| 0 <= y < rows && 0 <= x < cols implies match #[trigger] claims@[y]@[x] {
                Some(k) => claimant(view, i + 1, y, x) == Some(k as int),
                None => claimant(view, i + 1, y, x) is None,
            } by {
            }
        }
        i += 1;
    }
    claims
}

/// Lets the cell `cell` take the position (`row`, `col`) and every free
/// slot that its span reaches.
fn cover(
    grid: &mut Vec<Vec<Slot>>,
    row: usize,
    col: usize,
    row_span: usize,
    col_span: usize,
    cell: usize,
    rows: usize,
    cols: usize,
)
    requires
        rectangular(old(grid).deep_view(), rows as int, cols as int),
        row < rows <= 65535,
        col < cols <= 65535,
        row_span <= 65535,
        col_span <= 65535,
    ensures
        final(grid).deep_view() == covered(
            old(grid).deep_view(),
            row as int,
            col as int,
            row_span as int,
            col_span as int,
            cell as int,
        ),
        rectangular(final(grid).deep_view(), rows as int, cols as int),
{
    let ghost start = grid.deep_view();
    let ghost want = covered(
        start,
        row as int,
        col as int,
        row_span as int,
        col_span as int,
        cell as int,
    );
    let row_end = if row + row_span < rows {
        row + row_span
    } else {
        rows
    };
    let col_end = if col + col_span < cols {
        col + col_span
    } else {
        cols
    };
    let mut y: usize = row;
    while y < row_end
        invariant
            row <= y,
            row_end <= rows,
            col_end <= cols,
            row_end == if row + row_span < rows { row + row_span } else { rows as int },
            col_end == if col + col_span < cols { col + col_span } else { cols as int },
            rectangular(start, rows as int, cols as int),
            rectangular(grid.deep_view(), rows as int, cols as int),
            want == covered(
                start,
                row as int,
                col as int,
                row_span as int,
                col_span as int,
                cell as int,
            ),
            forall|b: int, a: int|
                0 <= b < rows && 0 <= a < cols ==> #[trigger] grid.deep_view()[b][a] == if b < y {
                    want[b][a]
                } else {
                    start[b][a]
                },
        decreases rows - y,
    {
        let mut x: usize = col;
        while x < col_end
            invariant
                row <= y < row_end,
                col <= x,
                row_end <= rows,
                col_end <= cols,
                row_end == if row + row_span < rows { row + row_span } else { rows as int },
                col_end == if col + col_span < cols { col + col_span } else { cols as int },
                rectangular(start, rows as int, cols as int),
                rectangular(grid.deep_view(), rows as int, cols as int),
                want == covered(
                    start,
                    row as int,
                    col as int,
                    row_span as int,
                    col_span as int,
                    cell as int,
                ),
                forall|b: int, a: int|
                    0 <= b < rows && 0 <= a < cols ==> #[trigger] grid.deep_view()[b][a] == if b < y
                        || (b == y && a < x) {
                        want[b][a]
                    } else {
                        start[b][a]
                    },
            decreases cols - x,
        {
            let ghost before = grid.deep_view();
            assert(before[y as int][x as int] == grid@[y as int]@[x as int]);
            if grid[y][x] == Slot::Free {
                if y == row && x == col {
                    grid[y][x] = Slot::Anchor(cell);
                } else {
                    grid[y][x] = Slot::Merged;
                }
            }
            proof {
                let after = grid.deep_view();
                assert forall|b: int| 0 <= b < rows implies (#[trigger] after[b]).len() == cols by {
                    assert(before[b].len() == cols);
                }
                assert forall|b: int, a: int| 0 <= b < rows && 0 <= a < cols implies #[trigger] after[b][a]
                    == if b < y || (b == y && a < x + 1) {
                    want[b][a]
                } else {
                    start[b][a]
                } by {
                    if b != y || a != x {
                        assert(after[b][a] == before[b][a]);
                    }
                }
            }
            x += 1;
        }
        proof {
            let now = grid.deep_view();
            assert forall|b: int, a: int| 0 <= b < rows && 0 <= a < cols implies #[trigger] now[b][a]
                == if b < y + 1 {
                want[b][a]
            } else {
                start[b][a]
            } by {
            }
        }
        y += 1;
    }
    proof {
        let now = grid.deep_view();
        assert forall|b: int| 0 <= b < rows implies #[trigger] now[b] =~= want[b] by {
            assert forall|a: int| 0 <= a < cols implies now[b][a] == want[b][a] by {
            }
        }
    }
}

/// Resolves a table into its grid: for each position that the table
/// declares, whether a cell has its corner there, and which; whether the
/// span of a cell reaches it; or whether it is free.
pub fn materialize(table: &Table) -> (grid: Vec<Vec<Slot>>)
    ensures
        grid.deep_view() == materialized(table@),
        rectangular(grid.deep_view(), table.row_count as int, table.col_count as int),
{
    let rows = table.row_count as usize;
    let cols = table.col_count as usize;
    let places = resolve_addresses(table);
    let claims = first_claims(&places, rows, cols);
    let ghost cells = table@.cells;
    let ghost view = places_view(places@);
    let mut grid: Vec<Vec<Slot>> = new_grid(rows, cols, Slot::Free);
    assert(grid.deep_view() =~= free_grid(rows as int, cols as int)) by {
        assert forall|y: int| 0 <= y < rows implies #[trigger] grid.deep_view()[y] =~= free_grid(
            rows as int,
            cols as int,
        )[y] by {}
    }
    let mut y: usize = 0;
    while y < rows
        invariant
            y <= rows,
            rows == table.row_count,
            cols == table.col_count,
            cells == table@.cells,
            view == places_view(places@),
            view == places_of(table@),
            places@.len() == table.cells@.len(),
            claims_hold(claims@, view, places@.len() as int, rows as int, cols as int),
            rectangular(grid.deep_view(), rows as int, cols as int),
            grid.deep_view() == grid_before(cells, view, rows as int, cols as int, y as int, 0),
        decreases rows - y,
    {
        let mut x: usize = 0;
        while x < cols
            invariant
                y < rows,
                x <= cols,
                rows == table.row_count,
                cols == table.col_count,
                cells == table@.cells,
                view == places_view(places@),
                places@.len() == table.cells@.len(),
                claims_hold(claims@, view, places@.len() as int, rows as int, cols as int),
                rectangular(grid.deep_view(), rows as int, cols as int),
                grid.deep_view() == grid_before(
                    cells,
                    view,
                    rows as int,
                    cols as int,
                    y as int,
                    x as int,
                ),
            decreases cols - x,
        {
            let ghost before = grid.deep_view();
            assert(before[y as int].len() == cols);
            match claims[y][x] {
                Some(i) => {
                    proof {
                        lemma_claimant_is_cell(view, places@.len() as int, y as int, x as int);
                    }
                    if grid[y][x] == Slot::Free {
                        let cell = &table.cells[i];
                        cover(
                            &mut grid,
                            y,
                            x,
                            span(cell.row_span),
                            span(cell.col_span),
                            i,
                            rows,
                            cols,
                        );
                    }
                },
                None => {},
            }
            x += 1;
        }
        y += 1;
    }
    grid
}

/// The first cell at a position is one of the cells, it stands at the
/// position, and no cell before it does.
pub proof fn lemma_claimant_is_cell(places: Seq<Place>, n: int, row: int, col: int)
    requires
        0 <= n <= places.len(),
    ensures
        match claimant(places, n, row, col) {
            Some(i) => {
                &&& 0 <= i < n
                &&& places[i] == (Place { row, col })
                &&& forall|j: int| 0 <= j < i ==> places[j] != (Place { row, col })
            },
            None => forall|j: int| 0 <= j < n ==> places[j] != (Place { row, col }),
        },
    decreases n,
{
    if n > 0 {
        lemma_claimant_is_cell(places, n - 1, row, col);
    }
}

/// A grid has a cell's corner in one of its slots.
pub open spec fn has_anchor(grid: Seq<Seq<Slot>>) -> bool {
    exists|y: int, x: int| 0 <= y < grid.len() && 0 <= x < grid[y].len() && grid[y][x] is Anchor
}

/// Every slot on the way to the position (`row`, `col`) is one that a cell
/// of the table put there.
spec fn slots_of_cells(grid: Seq<Seq<Slot>>, n: int) -> bool {
    forall|y: int, x: int|
        0 <= y < grid.len() && 0 <= x < grid[y].len() ==> match #[trigger] grid[y][x] {
            Slot::Anchor(i) => 0 <= i < n,
            _ => true,
        }
}

proof fn lemma_grid_before(
    cells: Seq<TableCellModel>,
    places: Seq<Place>,
    rows: int,
    cols: int,
    row: int,
    col: int,
)
    requires
        0 <= rows,
        0 <= cols,
        0 <= row <= rows,
        0 <= col <= cols,
        row == rows ==> col == 0,
        places.len() == cells.len(),
        cells.len() <= usize::MAX,
    ensures
        rectangular(grid_before(cells, places, rows, cols, row, col), rows, cols),
        slots_of_cells(grid_before(cells, places, rows, cols, row, col), cells.len() as int),
    decreases row, col,
{
    if col > 0 {
        lemma_grid_before(cells, places, rows, cols, row, col - 1);
        lemma_claimant_is_cell(places, places.len() as int, row, col - 1);
        let before = grid_before(cells, places, rows, cols, row, col - 1);
        let after = claimed(before, cells, places, row, col - 1);
        assert forall|y: int, x: int| 0 <= y < after.len() && 0 <= x < after[y].len() implies match #[trigger] after[y][x] {
            Slot::Anchor(i) => 0 <= i < cells.len(),
            _ => true,
        } by {
        }
        assert forall|y: int| 0 <= y < rows implies (#[trigger] after[y]).len() == cols by {
        }
    } else if row > 0 {
        lemma_grid_before(cells, places, rows, cols, row - 1, cols);
    }
}

/// The grid of a table has the rows and columns that the table declares,
/// and a corner in it is the corner of one of the table's cells.
pub proof fn lemma_anchors_are_cells(table: TableModel, y: int, x: int)
    requires
        0 <= y < table.row_count,
        0 <= x < table.col_count,
        table.cells.len() <= usize::MAX,
    ensures
        rectangular(materialized(table), table.row_count as int, table.col_count as int),
        materialized(table)[y][x] matches Slot::Anchor(i) ==> 0 <= i < table.cells.len(),
{
    lemma_resolved_len(table.cells, table.row_count as int, table.cells.len() as int);
    lemma_grid_before(
        table.cells,
        places_of(table),
        table.row_count as int,
        table.col_count as int,
        table.row_count as int,
        0,
    );
}

/// Every one of the first `n` cells gets a position.
pub proof fn lemma_resolved_len(cells: Seq<TableCellModel>, rows: int, n: int)
    requires
        0 <= n,
    ensures
        resolved(cells, rows, n).len() == n,
    decreases n,
{
    if n > 0 {
        lemma_resolved_len(cells, rows, n - 1);
    }
}

/// Whether a grid has a cell's corner in one of its slots.
pub fn any_anchor(grid: &Vec<Vec<Slot>>) -> (found: bool)
    ensures
        found == has_anchor(grid.deep_view()),
{
    let ghost model = grid.deep_view();
    let mut y: usize = 0;
    while y < grid.len()
        invariant
            y <= grid.len(),
            model == grid.deep_view(),
            forall|b: int, a: int| 0 <= b < y && 0 <= a < model[b].len() ==> !(model[b][a] is Anchor),
        decreases grid.len() - y,
    {
        let row = &grid[y];
        let mut x: usize = 0;
        while x < row.len()
            invariant
                x <= row.len(),
                y < grid.len(),
                model == grid.deep_view(),
                model[y as int] == row.deep_view(),
                forall|a: int| 0 <= a < x ==> !(model[y as int][a] is Anchor),
            decreases row.len() - x,
        {
            assert(model[y as int][x as int] == row@[x as int]);
            match row[x] {
                Slot::Anchor(_) => {
                    return true;
                },
                _ => {},
            }
            x += 1;
        }
        y += 1;
    }
    false
}

/// Every corner in the grid is the corner of the first cell that stands
/// at its position.
spec fn anchors_are_claimants(grid: Seq<Seq<Slot>>, places: Seq<Place>) -> bool {
    forall|y: int, x: int|
        0 <= y < grid.len() && 0 <= x < grid[y].len() ==> match #[trigger] grid[y][x] {
            Slot::Anchor(i) => claimant(places, places.len() as int, y, x) == Some(i as int),
            _ => true,
        }
}

/// A position that had its turn, and at which a cell stands, is free no
/// longer.
spec fn claimed_are_taken(
    grid: Seq<Seq<Slot>>,
    places: Seq<Place>,
    row: int,
    col: int,
) -> bool {
    forall|y: int, x: int|
        0 <= y < grid.len() && 0 <= x < grid[y].len() && (y < row || (y == row && x < col))
            && claimant(places, places.len() as int, y, x) is Some ==> !(#[trigger] grid[y][x]
            is Free)
}

proof fn lemma_grid_owners(
    cells: Seq<TableCellModel>,
    places: Seq<Place>,
    rows: int,
    cols: int,
    row: int,
    col: int,
)
    requires
        0 <= rows,
        0 <= cols,
        0 <= row <= rows,
        0 <= col <= cols,
        row == rows ==> col == 0,
        places.len() == cells.len(),
        cells.len() <= usize::MAX,
    ensures
        rectangular(grid_before(cells, places, rows, cols, row, col), rows, cols),
        anchors_are_claimants(grid_before(cells, places, rows, cols, row, col), places),
        claimed_are_taken(grid_before(cells, places, rows, cols, row, col), places, row, col),
    decreases row, col,
{
    lemma_grid_before(cells, places, rows, cols, row, col);
    let now = grid_before(cells, places, rows, cols, row, col);
    if col > 0 {
        lemma_grid_owners(cells, places, rows, cols, row, col - 1);
        lemma_claimant_is_cell(places, places.len() as int, row, col - 1);
        assert forall|y: int, x: int| 0 <= y < now.len() && 0 <= x < now[y].len() implies match #[trigger] now[y][x] {
            Slot::Anchor(i) => claimant(places, places.len() as int, y, x) == Some(i as int),
            _ => true,
        } by {
        }
        assert forall|y: int, x: int|
            0 <= y < now.len() && 0 <= x < now[y].len() && (y < row || (y == row && x < col))
                && claimant(places, places.len() as int, y, x) is Some implies !(#[trigger] now[y][x]
            is Free) by {
        }
    } else if row > 0 {
        lemma_grid_owners(cells, places, rows, cols, row - 1, cols);
        assert forall|y: int, x: int|
            0 <= y < now.len() && 0 <= x < now[y].len() && (y < row || (y == row && x < col))
                && claimant(places, places.len() as int, y, x) is Some implies !(#[trigger] now[y][x]
            is Free) by {
        }
    }
}

/// Where two cells stand at the same position of the grid, the first one
/// wins: the slot there is taken, its corner is not the second cell's, and
/// the second cell has its corner nowhere in the grid.
pub proof fn lemma_first_cell_wins(table: TableModel, first: int, second: int)
    requires
        table.cells.len() <= usize::MAX,
        0 <= first < second < table.cells.len(),
        places_of(table)[first] == places_of(table)[second],
        0 <= places_of(table)[first].row < table.row_count,
        0 <= places_of(table)[first].col < table.col_count,
    ensures
        !(materialized(table)[places_of(table)[first].row][places_of(table)[first].col] is Free),
        forall|y: int, x: int|
            0 <= y < table.row_count && 0 <= x < table.col_count ==> #[trigger] materialized(
                table,
            )[y][x] != Slot::Anchor(second as usize),
{
    let places = places_of(table);
    let rows = table.row_count as int;
    let cols = table.col_count as int;
    let grid = materialized(table);
    lemma_resolved_len(table.cells, rows, table.cells.len() as int);
    lemma_grid_owners(table.cells, places, rows, cols, rows, 0);
    let place = places[first];
    lemma_claimant_is_cell(places, places.len() as int, place.row, place.col);
    assert forall|y: int, x: int| 0 <= y < rows && 0 <= x < cols implies #[trigger] grid[y][x]
        != Slot::Anchor(second as usize) by {
        if grid[y][x] == Slot::Anchor(second as usize) {
            lemma_claimant_is_cell(places, places.len() as int, y, x);
        }
    }
}

/// The position that a cell declares, where it declares both its row and
/// its column.
pub open spec fn declared_place(cell: TableCellModel) -> Option<Place> {
    match (cell.row_address, cell.col_address) {
        (Some(r), Some(c)) => Some(Place { row: r as int, col: c as int }),
        _ => None,
    }
}

/// One of the cells declares the position (`row`, `col`).
pub open spec fn has_cell_at(cells: Seq<TableCellModel>, row: int, col: int) -> bool {
    exists|i: int|
        0 <= i < cells.len() && declared_place(#[trigger] cells[i]) == Some(Place { row, col })
}

/// The cells of the table fill its grid: each spans one row and one
/// column and declares a position inside the grid, and at every position
/// of the grid stands one of them.
pub open spec fn fills_grid(table: TableModel) -> bool {
    &&& forall|i: int|
        0 <= i < table.cells.len() ==> {
            &&& (#[trigger] table.cells[i]).row_span == 1
            &&& table.cells[i].col_span == 1
            &&& declared_place(table.cells[i]) is Some
            &&& 0 <= declared_place(table.cells[i])->0.row < table.row_count
            &&& 0 <= declared_place(table.cells[i])->0.col < table.col_count
        }
    &&& forall|y: int, x: int|
        0 <= y < table.row_count && 0 <= x < table.col_count ==> #[trigger] has_cell_at(
            table.cells,
            y,
            x,
        )
}

proof fn lemma_full_grid_places(table: TableModel, n: int)
    requires
        fills_grid(table),
        0 <= n <= table.cells.len(),
    ensures
        resolved(table.cells, table.row_count as int, n).len() == n,
        forall|i: int|
            0 <= i < n ==> Some(#[trigger] resolved(table.cells, table.row_count as int, n)[i])
                == declared_place(table.cells[i]),
    decreases n,
{
    if n > 0 {
        lemma_full_grid_places(table, n - 1);
        let cells = table.cells;
        let rows = table.row_count as int;
        let cell = cells[n - 1];
        if one_logical_row(cells) {
            // some cell stands at the top left, so the row that all declare is the first
            assert(has_cell_at(cells, 0, 0));
            if rows > 1 {
                assert(has_cell_at(cells, 1, 0));
            }
        }
        let now = resolved(cells, rows, n);
        assert forall|i: int| 0 <= i < n implies Some(#[trigger] now[i]) == declared_place(
            cells[i],
        ) by {
        }
    }
}

proof fn lemma_full_grid_before(
    table: TableModel,
    row: int,
    col: int,
)
    requires
        fills_grid(table),
        table.cells.len() <= usize::MAX,
        0 <= row <= table.row_count,
        0 <= col <= table.col_count,
        row == table.row_count ==> col == 0,
    ensures
        ({
            let grid = grid_before(
                table.cells,
                places_of(table),
                table.row_count as int,
                table.col_count as int,
                row,
                col,
            );
            &&& rectangular(grid, table.row_count as int, table.col_count as int)
            &&& forall|y: int, x: int|
                0 <= y < table.row_count && 0 <= x < table.col_count ==> #[trigger] grid[y][x] == if y
                    < row || (y == row && x < col) {
                    Slot::Anchor(
                        claimant(places_of(table), table.cells.len() as int, y, x)->0 as usize,
                    )
                } else {
                    Slot::Free
                }
        }),
    decreases row, col,
{
    let cells = table.cells;
    let places = places_of(table);
    let rows = table.row_count as int;
    let cols = table.col_count as int;
    lemma_full_grid_places(table, cells.len() as int);
    lemma_grid_before(cells, places, rows, cols, row, col);
    let now = grid_before(cells, places, rows, cols, row, col);
    if col > 0 {
        lemma_full_grid_before(table, row, col - 1);
        // a cell stands at the position whose turn it is
        assert(has_cell_at(cells, row, col - 1));
        let i = choose|i: int|
            0 <= i < cells.len() && declared_place(#[trigger] cells[i]) == Some(
                Place { row: row, col: col - 1 },
            );
        assert(places[i] == Place { row: row, col: col - 1 });
        lemma_claimant_is_cell(places, places.len() as int, row, col - 1);
        assert forall|y: int, x: int| 0 <= y < rows && 0 <= x < cols implies #[trigger] now[y][x]
            == if y < row || (y == row && x < col) {
            Slot::Anchor(claimant(places, cells.len() as int, y, x)->0 as usize)
        } else {
            Slot::Free
        } by {
        }
    } else if row > 0 {
        lemma_full_grid_before(table, row - 1, cols);
        assert forall|y: int, x: int| 0 <= y < rows && 0 <= x < cols implies #[trigger] now[y][x]
            == if y < row || (y == row && x < col) {
            Slot::Anchor(claimant(places, cells.len() as int, y, x)->0 as usize)
        } else {
            Slot::Free
        } by {
        }
    } else {
        assert forall|y: int, x: int| 0 <= y < rows && 0 <= x < cols implies #[trigger] now[y][x]
            == Slot::Free by {}
    }
}

/// Where the cells of a table fill its grid, every slot of the grid holds
/// the corner of a cell that declares its position, and none is left free
/// or to a span.
pub proof fn lemma_full_grid_has_no_blank(table: TableModel, y: int, x: int)
    requires
        fills_grid(table),
        table.cells.len() <= usize::MAX,
        0 <= y < table.row_count,
        0 <= x < table.col_count,
    ensures
        rectangular(materialized(table), table.row_count as int, table.col_count as int),
        materialized(table)[y][x] is Anchor,
        0 <= materialized(table)[y][x]->Anchor_0 < table.cells.len(),
        declared_place(table.cells[materialized(table)[y][x]->Anchor_0 as int]) == Some(
            Place { row: y, col: x },
        ),
{
    lemma_full_grid_before(table, table.row_count as int, 0);
    lemma_full_grid_places(table, table.cells.len() as int);
    let places = places_of(table);
    assert(has_cell_at(table.cells, y, x));
    let i = choose|i: int|
        0 <= i < table.cells.len() && declared_place(#[trigger] table.cells[i]) == Some(
            Place { row: y, col: x },
        );
    assert(places[i] == Place { row: y, col: x });
    lemma_claimant_is_cell(places, places.len() as int, y, x);
}

/// A table of two rows and two columns with one cell, which stands at the
/// top left and spans both rows and both columns: the grid has the corner
/// of the cell at the top left and is merged everywhere else.
pub proof fn lemma_one_cell_grid(table: TableModel)
    requires
        table.row_count == 2,
        table.col_count == 2,
        table.cells.len() == 1,
        declared_place(table.cells[0]) == Some(Place { row: 0, col: 0 }),
        table.cells[0].row_span == 2,
        table.cells[0].col_span == 2,
    ensures
        materialized(table) == seq![
            seq![Slot::Anchor(0), Slot::Merged],
            seq![Slot::Merged, Slot::Merged],
        ],
{
    let cells = table.cells;
    let places = places_of(table);
    assert(resolved(cells, 2, 0) =~= Seq::<Place>::empty());
    assert(one_logical_row(cells));
    assert(place_of(cells, 2, resolved(cells, 2, 0), 0) == Place { row: 0, col: 0 });
    assert(places =~= seq![Place { row: 0, col: 0 }]);
    assert(claimant(places, 0, 0, 0) is None);
    assert(claimant(places, 1, 0, 0) == Some(0int));
    assert(claimant(places, 0, 0, 1) is None);
    assert(claimant(places, 1, 0, 1) is None);
    assert(claimant(places, 0, 1, 0) is None);
    assert(claimant(places, 1, 1, 0) is None);
    assert(claimant(places, 0, 1, 1) is None);
    assert(claimant(places, 1, 1, 1) is None);
    let g00 = grid_before(cells, places, 2, 2, 0, 0);
    assert(g00 == free_grid(2, 2));
    let g01 = grid_before(cells, places, 2, 2, 0, 1);
    let want = seq![seq![Slot::Anchor(0), Slot::Merged], seq![Slot::Merged, Slot::Merged]];
    assert(g01 == claimed(g00, cells, places, 0, 0));
    assert(g01 == covered(g00, 0, 0, 2, 2, 0));
    assert(g01.len() == 2 && g01[0].len() == 2 && g01[1].len() == 2);
    assert(g01[0] =~= want[0]);
    assert(g01[1] =~= want[1]);
    assert(g01 =~= want);
    let g02 = grid_before(cells, places, 2, 2, 0, 2);
    assert(g02 == claimed(g01, cells, places, 0, 1));
    assert(g02 == want);
    let g10 = grid_before(cells, places, 2, 2, 1, 0);
    assert(g10 == g02);
    let g11 = grid_before(cells, places, 2, 2, 1, 1);
    assert(g11 == claimed(g10, cells, places, 1, 0));
    let g12 = grid_before(cells, places, 2, 2, 1, 2);
    assert(g12 == claimed(g11, cells, places, 1, 1));
    let g20 = grid_before(cells, places, 2, 2, 2, 0);
    assert(g20 == g12);
    assert(materialized(table) == want);
}

} // verus!
