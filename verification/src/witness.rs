//! Layout-driven initialization of a witness grid. A layout is a grid of
//! cells; each cell says how to compute the value of one slot (or of a run
//! of consecutive slots) from the witness computed so far and from a list of
//! named intermediate values. The grid is written row by row, column by
//! column, so a cell may read slots written before it.

use vstd::prelude::*;

verus! {

/// Intermediate values of the witness computation, referenced by cells
/// through their position.
pub struct Variables<T> {
    pub values: Vec<T>,
}

impl<T: Copy> Variables<T> {
    pub fn get(&self, i: usize) -> (r: T)
        requires
            i < self.values@.len(),
        ensures
            r == self.values@[i as int],
    {
        self.values[i]
    }
}

/// The contents of a witness grid, column by column.
pub open spec fn grid_view<T>(w: Seq<Vec<T>>) -> Seq<Seq<T>> {
    w.map_values(|c: Vec<T>| c@)
}

/// Whether two grids have the same shape: as many columns, each of the same
/// height.
pub open spec fn same_dims<T>(a: Seq<Seq<T>>, b: Seq<Seq<T>>) -> bool {
    &&& a.len() == b.len()
    &&& forall|i: int| 0 <= i < a.len() ==> (#[trigger] a[i]).len() == b[i].len()
}

/// One slot of the grid replaced.
pub open spec fn grid_set<T>(g: Seq<Seq<T>>, c: int, r: int, x: T) -> Seq<Seq<T>> {
    g.update(c, g[c].update(r, x))
}

/// Replacing a slot keeps the grid's shape.
pub proof fn lemma_grid_set_dims<T>(g: Seq<Seq<T>>, c: int, r: int, x: T)
    requires
        0 <= c < g.len(),
        0 <= r < g[c].len(),
    ensures
        same_dims(grid_set(g, c, r, x), g),
{
    let g2 = grid_set(g, c, r, x);
    assert forall|i: int| 0 <= i < g2.len() implies (#[trigger] g2[i]).len() == g[i].len() by {
        if i == c {
            assert(g2[i] == g[c].update(r, x));
        } else {
            assert(g2[i] == g[i]);
        }
    }
}

/// A witness cell: computes the value of one slot from the witness computed
/// so far and the intermediate variables. A cell of length `n` fills `n`
/// consecutive columns of one row, one value per index.
pub trait WitnessCell<T>: Sized {
    /// How many consecutive columns the cell fills.
    spec fn spec_length(&self) -> int;

    /// When the cell can be read against a grid: its sources are in bounds.
    spec fn valid(&self, witness: Seq<Seq<T>>, variables: Seq<T>, index: int) -> bool;

    /// The value the cell computes.
    spec fn spec_value(&self, witness: Seq<Seq<T>>, variables: Seq<T>, index: int) -> T;

    fn length(&self) -> (r: usize)
        ensures
            r == self.spec_length(),
    ;

    fn value(&self, witness: &Vec<Vec<T>>, variables: &Variables<T>, index: usize) -> (r: T)
        requires
            self.valid(grid_view(witness@), variables.values@, index as int),
        ensures
            r == self.spec_value(grid_view(witness@), variables.values@, index as int),
    ;
}

/// A closed set of cell kinds covering the common layouts: a constant, a
/// copy of an already-written slot, or an intermediate variable.
pub enum LayoutCell<T> {
    /// Always the given value.
    Constant(T),
    /// The value already written at the given row and column.
    CopyFrom { row: usize, col: usize },
    /// The intermediate variable at the given position.
    Variable { index: usize },
}

impl<T: Copy> WitnessCell<T> for LayoutCell<T> {
    open spec fn spec_length(&self) -> int {
        1
    }

    open spec fn valid(&self, witness: Seq<Seq<T>>, variables: Seq<T>, index: int) -> bool {
        match *self {
            LayoutCell::Constant(_) => true,
            LayoutCell::CopyFrom { row, col } => col < witness.len() && row < witness[
                col as int
            ].len(),
            LayoutCell::Variable { index: v } => v < variables.len(),
        }
    }

    open spec fn spec_value(&self, witness: Seq<Seq<T>>, variables: Seq<T>, index: int) -> T {
        match *self {
            LayoutCell::Constant(x) => x,
            LayoutCell::CopyFrom { row, col } => witness[col as int][row as int],
            LayoutCell::Variable { index: v } => variables[v as int],
        }
    }

    fn length(&self) -> (r: usize) {
        1
    }

    fn value(&self, witness: &Vec<Vec<T>>, variables: &Variables<T>, index: usize) -> (r: T) {
        match self {
            LayoutCell::Constant(x) => *x,
            LayoutCell::CopyFrom { row, col } => witness[*col][*row],
            LayoutCell::Variable { index: v } => variables.get(*v),
        }
    }
}

/// Initialize a witness cell based on layout and computed variables.
pub fn init_cell<T: Copy, W: WitnessCell<T>>(
    witness: &mut Vec<Vec<T>>,
    offset: usize,
    row: usize,
    col: usize,
    index: usize,
    layout: &Vec<Vec<W>>,
    variables: &Variables<T>,
)
    requires
        row < layout@.len(),
        col < layout@[row as int]@.len(),
        layout@[row as int]@[col as int].valid(
            grid_view(old(witness)@),
            variables.values@,
            index as int,
        ),
        col + index < old(witness)@.len(),
        row + offset < old(witness)@[col + index]@.len(),
    ensures
        grid_view(final(witness)@) == grid_set(
            grid_view(old(witness)@),
            col + index,
            row + offset,
            layout@[row as int]@[col as int].spec_value(
                grid_view(old(witness)@),
                variables.values@,
                index as int,
            ),
        ),
{
    let ghost g0 = grid_view(witness@);
    let n: usize = witness.len();
    proof {
        assert(g0.len() == n as int);
    }
    let v = layout[row][col].value(witness, variables, index);
    let target: usize = col + index;
    let mut column = witness.remove(target);
    let h: usize = column.len();
    proof {
        assert(column@ == g0[target as int]);
        assert(row + offset < h);
    }
    column.set(row + offset, v);
    witness.insert(target, column);
    proof {
        assert(witness@ =~= old(witness)@.update(target as int, column));
        assert(column@ =~= g0[target as int].update((row + offset) as int, v));
        assert(grid_view(witness@) =~~= grid_set(g0, target as int, (row + offset) as int, v));
    }
}

/// The grid after the first `n` indices of the cell at `(row, col)` have
/// been written, in order.
pub open spec fn cell_steps<T, W: WitnessCell<T>>(
    g: Seq<Seq<T>>,
    offset: int,
    row: int,
    col: int,
    layout: Seq<Seq<W>>,
    vars: Seq<T>,
    n: int,
) -> Seq<Seq<T>>
    decreases n,
{
    if n <= 0 {
        g
    } else {
        let g1 = cell_steps(g, offset, row, col, layout, vars, n - 1);
        grid_set(
            g1,
            col + n - 1,
            row + offset,
            layout[row][col].spec_value(g1, vars, n - 1),
        )
    }
}

/// The grid after the first `ncols` cells of a row have been written, in
/// order, each over all of its indices.
pub open spec fn row_steps<T, W: WitnessCell<T>>(
    g: Seq<Seq<T>>,
    offset: int,
    row: int,
    layout: Seq<Seq<W>>,
    vars: Seq<T>,
    ncols: int,
) -> Seq<Seq<T>>
    decreases ncols,
{
    if ncols <= 0 {
        g
    } else {
        let g1 = row_steps(g, offset, row, layout, vars, ncols - 1);
        cell_steps(g1, offset, row, ncols - 1, layout, vars, layout[row][ncols - 1].spec_length())
    }
}

/// The grid after the first `nrows` rows have been written, in order.
pub open spec fn rows_steps<T, W: WitnessCell<T>>(
    g: Seq<Seq<T>>,
    offset: int,
    layout: Seq<Seq<W>>,
    vars: Seq<T>,
    nrows: int,
) -> Seq<Seq<T>>
    decreases nrows,
{
    if nrows <= 0 {
        g
    } else {
        let g1 = rows_steps(g, offset, layout, vars, nrows - 1);
        row_steps(g1, offset, nrows - 1, layout, vars, layout[0].len() as int)
    }
}

/// The bounds a row's writes need, stated over the grid's shape only, so
/// that they keep holding while the grid is being written.
pub open spec fn row_writes_ok<T, W: WitnessCell<T>>(
    g: Seq<Seq<T>>,
    offset: int,
    row: int,
    layout: Seq<Seq<W>>,
    vars: Seq<T>,
) -> bool {
    &&& 0 <= row < layout.len()
    &&& 0 <= offset
    &&& layout[0].len() <= layout[row].len()
    &&& forall|col: int|
        0 <= col < layout[0].len() ==> col + (#[trigger] layout[row][col]).spec_length()
            <= g.len()
    &&& forall|t: int| 0 <= t < g.len() ==> row + offset < (#[trigger] g[t]).len()
    &&& forall|col: int, index: int, g2: Seq<Seq<T>>|
        0 <= col < layout[0].len() && 0 <= index < layout[row][col].spec_length() && same_dims(
            g2,
            g,
        ) ==> (#[trigger] layout[row][col].valid(g2, vars, index))
}

/// A cell's steps keep the grid's shape.
proof fn lemma_cell_steps_dims<T, W: WitnessCell<T>>(
    g: Seq<Seq<T>>,
    offset: int,
    row: int,
    col: int,
    layout: Seq<Seq<W>>,
    vars: Seq<T>,
    n: int,
)
    requires
        0 <= col,
        col + n <= g.len(),
        0 <= row + offset,
        forall|t: int| 0 <= t < g.len() ==> row + offset < (#[trigger] g[t]).len(),
    ensures
        same_dims(cell_steps(g, offset, row, col, layout, vars, n), g),
    decreases n,
{
    if n > 0 {
        lemma_cell_steps_dims(g, offset, row, col, layout, vars, n - 1);
        let g1 = cell_steps(g, offset, row, col, layout, vars, n - 1);
        assert(g1[col + n - 1].len() == g[col + n - 1].len());
        lemma_grid_set_dims(
            g1,
            col + n - 1,
            row + offset,
            layout[row][col].spec_value(g1, vars, n - 1),
        );
    }
}

/// A row's steps keep the grid's shape.
proof fn lemma_row_steps_dims<T, W: WitnessCell<T>>(
    g: Seq<Seq<T>>,
    offset: int,
    row: int,
    layout: Seq<Seq<W>>,
    vars: Seq<T>,
    ncols: int,
)
    requires
        row_writes_ok(g, offset, row, layout, vars),
        0 <= ncols <= layout[0].len(),
    ensures
        same_dims(row_steps(g, offset, row, layout, vars, ncols), g),
    decreases ncols,
{
    if ncols > 0 {
        lemma_row_steps_dims(g, offset, row, layout, vars, ncols - 1);
        let g1 = row_steps(g, offset, row, layout, vars, ncols - 1);
        assert(ncols - 1 + layout[row][ncols - 1].spec_length() <= g.len());
        assert(g1.len() == g.len());
        assert forall|t: int| 0 <= t < g1.len() implies row + offset < (#[trigger] g1[t]).len() by {
            assert(g1[t].len() == g[t].len());
        }
        lemma_cell_steps_dims(
            g1,
            offset,
            row,
            ncols - 1,
            layout,
            vars,
            layout[row][ncols - 1].spec_length(),
        );
        let g2 = cell_steps(g1, offset, row, ncols - 1, layout, vars, layout[row][ncols - 1].spec_length());
        assert(same_dims(g2, g1) && same_dims(g1, g));
        assert forall|i: int| 0 <= i < g2.len() implies (#[trigger] g2[i]).len() == g[i].len() by {
            assert(g2[i].len() == g1[i].len());
        }
    }
}

/// Initialize a witness row based on layout and computed variables.
pub fn init_row<T: Copy, W: WitnessCell<T>>(
    witness: &mut Vec<Vec<T>>,
    offset: usize,
    row: usize,
    layout: &Vec<Vec<W>>,
    variables: &Variables<T>,
)
    requires
        row_writes_ok(
            grid_view(old(witness)@),
            offset as int,
            row as int,
            layout@.map_values(|c: Vec<W>| c@),
            variables.values@,
        ),
    ensures
        grid_view(final(witness)@) == row_steps(
            grid_view(old(witness)@),
            offset as int,
            row as int,
            layout@.map_values(|c: Vec<W>| c@),
            variables.values@,
            layout@[0]@.len() as int,
        ),
{
    let ghost g0 = grid_view(witness@);
    let ghost lv = layout@.map_values(|c: Vec<W>| c@);
    let ghost vars = variables.values@;
    let ncols: usize = layout[0].len();
    let mut col: usize = 0;
    while col < ncols
        invariant
            ncols == lv[0].len(),
            lv == layout@.map_values(|c: Vec<W>| c@),
            vars == variables.values@,
            row_writes_ok(g0, offset as int, row as int, lv, vars),
            col <= ncols,
            grid_view(witness@) == row_steps(g0, offset as int, row as int, lv, vars, col as int),
        decreases ncols - col,
    {
        proof {
            lemma_row_steps_dims(g0, offset as int, row as int, lv, vars, col as int);
        }
        let cell_len: usize = layout[row][col].length();
        let mut index: usize = 0;
        let ghost gcol = grid_view(witness@);
        while index < cell_len
            invariant
                ncols == lv[0].len(),
                lv == layout@.map_values(|c: Vec<W>| c@),
                vars == variables.values@,
                row_writes_ok(g0, offset as int, row as int, lv, vars),
                col < ncols,
                row < layout@.len(),
                col < layout@[row as int]@.len(),
                cell_len == lv[row as int][col as int].spec_length(),
                index <= cell_len,
                gcol == row_steps(g0, offset as int, row as int, lv, vars, col as int),
                same_dims(gcol, g0),
                grid_view(witness@) == cell_steps(
                    gcol,
                    offset as int,
                    row as int,
                    col as int,
                    lv,
                    vars,
                    index as int,
                ),
            decreases cell_len - index,
        {
            proof {
                assert(lv[row as int][col as int] == layout@[row as int]@[col as int]);
                assert(col as int + lv[row as int][col as int].spec_length() <= g0.len());
                assert forall|t: int| 0 <= t < gcol.len() implies row + offset < (
                #[trigger] gcol[t]).len() by {
                    assert(gcol[t].len() == g0[t].len());
                }
                lemma_cell_steps_dims(
                    gcol,
                    offset as int,
                    row as int,
                    col as int,
                    lv,
                    vars,
                    index as int,
                );
                let cur = grid_view(witness@);
                assert(same_dims(cur, gcol));
                assert forall|i: int| 0 <= i < cur.len() implies (#[trigger] cur[i]).len()
                    == g0[i].len() by {
                    assert(cur[i].len() == gcol[i].len());
                }
                assert(same_dims(cur, g0));
                assert(row + offset < g0[col + index].len());
                assert(cur[col + index].len() == g0[col + index].len());
                assert(lv[row as int][col as int].valid(cur, vars, index as int));
            }
            init_cell(witness, offset, row, col, index, layout, variables);
            proof {
                assert(grid_view(witness@) == cell_steps(
                    gcol,
                    offset as int,
                    row as int,
                    col as int,
                    lv,
                    vars,
                    index as int + 1,
                ));
            }
            index = index + 1;
        }
        col = col + 1;
    }
}

/// The bounds every row's writes need.
pub open spec fn layout_writes_ok<T, W: WitnessCell<T>>(
    g: Seq<Seq<T>>,
    offset: int,
    layout: Seq<Seq<W>>,
    vars: Seq<T>,
) -> bool {
    forall|row: int| 0 <= row < layout.len() ==> #[trigger] row_writes_ok(
        g,
        offset,
        row,
        layout,
        vars,
    )
}

/// Every row's steps keep the grid's shape.
proof fn lemma_rows_steps_dims<T, W: WitnessCell<T>>(
    g: Seq<Seq<T>>,
    offset: int,
    layout: Seq<Seq<W>>,
    vars: Seq<T>,
    nrows: int,
)
    requires
        layout_writes_ok(g, offset, layout, vars),
        0 <= nrows <= layout.len(),
    ensures
        same_dims(rows_steps(g, offset, layout, vars, nrows), g),
    decreases nrows,
{
    if nrows > 0 {
        lemma_rows_steps_dims(g, offset, layout, vars, nrows - 1);
        let g1 = rows_steps(g, offset, layout, vars, nrows - 1);
        lemma_row_writes_ok_same_dims(g, g1, offset, nrows - 1, layout, vars);
        lemma_row_steps_dims(g1, offset, nrows - 1, layout, vars, layout[0].len() as int);
        let g2 = row_steps(g1, offset, nrows - 1, layout, vars, layout[0].len() as int);
        assert forall|i: int| 0 <= i < g2.len() implies (#[trigger] g2[i]).len() == g[i].len() by {
            assert(g2[i].len() == g1[i].len());
        }
    }
}

/// `row_writes_ok` carries over to any grid of the same shape.
proof fn lemma_row_writes_ok_same_dims<T, W: WitnessCell<T>>(
    g: Seq<Seq<T>>,
    g2: Seq<Seq<T>>,
    offset: int,
    row: int,
    layout: Seq<Seq<W>>,
    vars: Seq<T>,
)
    requires
        row_writes_ok(g, offset, row, layout, vars),
        same_dims(g2, g),
    ensures
        row_writes_ok(g2, offset, row, layout, vars),
{
    assert forall|col: int, index: int, g3: Seq<Seq<T>>|
        0 <= col < layout[0].len() && 0 <= index < layout[row][col].spec_length() && same_dims(
            g3,
            g2,
        ) implies (#[trigger] layout[row][col].valid(g3, vars, index)) by {
        assert(same_dims(g3, g));
    }
}

/// Initialize a witness based on layout and computed variables.
pub fn init<T: Copy, W: WitnessCell<T>>(
    witness: &mut Vec<Vec<T>>,
    offset: usize,
    layout: &Vec<Vec<W>>,
    variables: &Variables<T>,
)
    requires
        layout_writes_ok(
            grid_view(old(witness)@),
            offset as int,
            layout@.map_values(|c: Vec<W>| c@),
            variables.values@,
        ),
    ensures
        grid_view(final(witness)@) == rows_steps(
            grid_view(old(witness)@),
            offset as int,
            layout@.map_values(|c: Vec<W>| c@),
            variables.values@,
            layout@.len() as int,
        ),
{
    let ghost g0 = grid_view(witness@);
    let ghost lv = layout@.map_values(|c: Vec<W>| c@);
    let ghost vars = variables.values@;
    let nrows: usize = layout.len();
    let mut row: usize = 0;
    while row < nrows
        invariant
            nrows == lv.len(),
            lv == layout@.map_values(|c: Vec<W>| c@),
            vars == variables.values@,
            layout_writes_ok(g0, offset as int, lv, vars),
            row <= nrows,
            grid_view(witness@) == rows_steps(g0, offset as int, lv, vars, row as int),
        decreases nrows - row,
    {
        proof {
            lemma_rows_steps_dims(g0, offset as int, lv, vars, row as int);
            lemma_row_writes_ok_same_dims(
                g0,
                grid_view(witness@),
                offset as int,
                row as int,
                lv,
                vars,
            );
        }
        init_row(witness, offset, row, layout, variables);
        row = row + 1;
    }
}

} // verus!
