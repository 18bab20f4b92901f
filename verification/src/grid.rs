use vstd::prelude::*;

use crate::cell::{alive_odds, cell_rect, next_state, Cell, P, P_SCALE};
use crate::format::{grid_text, import_problem, parse_rows, row_text, unrecognized, unrecognized_in, utf8_len, ImportError};
use crate::text::{join_lines, texts};
use crate::{div_i32, divides, fits_i32, trunc_div};

verus! {

/// `v`, or 0 where `v` is negative: the number of steps in a range `0..v`.
pub open spec fn nonneg(v: int) -> nat {
    if v < 0 {
        0
    } else {
        v as nat
    }
}

/// Whether `alive` has `rows` rows of `cols` cells each (a negative count
/// meaning none).
pub open spec fn has_shape(alive: Seq<Seq<bool>>, rows: int, cols: int) -> bool {
    &&& alive.len() == nonneg(rows)
    &&& forall|i: int| 0 <= i < alive.len() ==> (#[trigger] alive[i]).len() == nonneg(cols)
}

/// The eight places looked at for the neighbours of the cell in column `x`,
/// row `y` of a grid of `w` columns and `h` rows, as (column, row) pairs, in
/// the order they are visited. At an edge the place beyond it is replaced by
/// the edge itself, so a place may occur twice and may be the cell itself.
pub open spec fn neighbour_places(x: int, y: int, w: int, h: int) -> Seq<(int, int)> {
    let min_y = if y - 1 > 0 { y - 1 } else { 0 };
    let max_y = if y + 1 < h - 1 { y + 1 } else { h - 1 };
    let min_x = if x - 1 > 0 { x - 1 } else { 0 };
    let max_x = if x + 1 < w - 1 { x + 1 } else { w - 1 };
    seq![
        (min_x, y),
        (min_x, max_y),
        (x, max_y),
        (max_x, max_y),
        (max_x, y),
        (max_x, min_y),
        (x, min_y),
        (min_x, min_y),
    ]
}

/// How many of the places in `ps` hold a live cell, each place counted as
/// often as it occurs.
pub open spec fn count_alive(alive: Seq<Seq<bool>>, ps: Seq<(int, int)>) -> int
    decreases ps.len(),
{
    if ps.len() == 0 {
        0
    } else {
        count_alive(alive, ps.drop_last()) + if alive[ps.last().1][ps.last().0] {
            1int
        } else {
            0int
        }
    }
}

/// The number of live neighbours that the cell in column `x`, row `y` is given.
pub open spec fn live_neighbours(alive: Seq<Seq<bool>>, x: int, y: int, w: int, h: int) -> int {
    count_alive(alive, neighbour_places(x, y, w, h))
}

/// The next generation of a grid of `w` columns and `h` rows: every cell
/// follows the rule of life with its neighbours counted in the old grid.
pub open spec fn next_generation(alive: Seq<Seq<bool>>, w: int, h: int) -> Seq<Seq<bool>> {
    Seq::new(
        alive.len(),
        |i: int|
            Seq::new(
                alive[i].len(),
                |j: int| next_state(alive[i][j], live_neighbours(alive, j, i, w, h)),
            ),
    )
}

/// The grid with the cell in column `x`, row `y` flipped, if there is one.
pub open spec fn toggled(alive: Seq<Seq<bool>>, x: int, y: int) -> Seq<Seq<bool>> {
    Seq::new(
        alive.len(),
        |i: int| Seq::new(alive[i].len(), |j: int| if i == y && j == x { !alive[i][j] } else { alive[i][j] }),
    )
}

/// Whether every cell is alive.
pub open spec fn all_alive(alive: Seq<Seq<bool>>) -> bool {
    forall|i: int, j: int| 0 <= i < alive.len() && 0 <= j < alive[i].len() ==> alive[i][j]
}

/// Whether every cell is dead.
pub open spec fn all_dead(alive: Seq<Seq<bool>>) -> bool {
    forall|i: int, j: int| 0 <= i < alive.len() && 0 <= j < alive[i].len() ==> !alive[i][j]
}

/// 1 when the cell in column `x`, row `y` is alive, 0 otherwise.
pub open spec fn alive_count(alive: Seq<Seq<bool>>, x: int, y: int) -> int {
    if alive[y][x] {
        1
    } else {
        0
    }
}

/// `v` moved onto `0..n`: below 0 it becomes 0, at or above `n` it becomes `n - 1`.
pub open spec fn onto(v: int, n: int) -> int {
    if v < 0 {
        0
    } else if v > n - 1 {
        n - 1
    } else {
        v
    }
}

/// The neighbours of a cell are the eight cells around it, each place beyond
/// an edge of the grid read at the edge instead: the count is the sum over
/// the eight offsets of whether the cell at the offset, moved onto the grid,
/// is alive.
pub proof fn lemma_neighbours_are_adjacent(alive: Seq<Seq<bool>>, x: int, y: int, w: int, h: int)
    requires
        0 <= x < w,
        0 <= y < h,
    ensures
        live_neighbours(alive, x, y, w, h) == alive_count(alive, onto(x - 1, w), onto(y - 1, h))
            + alive_count(alive, onto(x, w), onto(y - 1, h)) + alive_count(
            alive,
            onto(x + 1, w),
            onto(y - 1, h),
        ) + alive_count(alive, onto(x - 1, w), onto(y, h)) + alive_count(
            alive,
            onto(x + 1, w),
            onto(y, h),
        ) + alive_count(alive, onto(x - 1, w), onto(y + 1, h)) + alive_count(
            alive,
            onto(x, w),
            onto(y + 1, h),
        ) + alive_count(alive, onto(x + 1, w), onto(y + 1, h)),
{
    let ps = neighbour_places(x, y, w, h);
    let p1 = ps.drop_last();
    let p2 = p1.drop_last();
    let p3 = p2.drop_last();
    let p4 = p3.drop_last();
    let p5 = p4.drop_last();
    let p6 = p5.drop_last();
    let p7 = p6.drop_last();
    let p8 = p7.drop_last();
    assert(p8.len() == 0);
    assert(count_alive(alive, p8) == 0);
    assert(count_alive(alive, p7) == count_alive(alive, p8) + alive_count(alive, p7.last().0, p7.last().1));
    assert(count_alive(alive, p6) == count_alive(alive, p7) + alive_count(alive, p6.last().0, p6.last().1));
    assert(count_alive(alive, p5) == count_alive(alive, p6) + alive_count(alive, p5.last().0, p5.last().1));
    assert(count_alive(alive, p4) == count_alive(alive, p5) + alive_count(alive, p4.last().0, p4.last().1));
    assert(count_alive(alive, p3) == count_alive(alive, p4) + alive_count(alive, p3.last().0, p3.last().1));
    assert(count_alive(alive, p2) == count_alive(alive, p3) + alive_count(alive, p2.last().0, p2.last().1));
    assert(count_alive(alive, p1) == count_alive(alive, p2) + alive_count(alive, p1.last().0, p1.last().1));
    assert(count_alive(alive, ps) == count_alive(alive, p1) + alive_count(alive, ps.last().0, ps.last().1));
}

/// Away from the edges, the live neighbours of a cell are the live cells
/// among the eight cells around it, whatever the size of the grid.
pub proof fn lemma_interior_neighbours(alive: Seq<Seq<bool>>, x: int, y: int, w: int, h: int)
    requires
        1 <= x,
        x + 1 < w,
        1 <= y,
        y + 1 < h,
    ensures
        live_neighbours(alive, x, y, w, h) == alive_count(alive, x - 1, y - 1) + alive_count(
            alive,
            x,
            y - 1,
        ) + alive_count(alive, x + 1, y - 1) + alive_count(alive, x - 1, y) + alive_count(
            alive,
            x + 1,
            y,
        ) + alive_count(alive, x - 1, y + 1) + alive_count(alive, x, y + 1) + alive_count(
            alive,
            x + 1,
            y + 1,
        ),
{
    lemma_neighbours_are_adjacent(alive, x, y, w, h);
}

/// A click flips exactly the cell it lands on: that cell changes state, every
/// other cell keeps its own, and the grid keeps its shape.
pub proof fn lemma_toggle_flips_one(alive: Seq<Seq<bool>>, x: int, y: int)
    ensures
        toggled(alive, x, y).len() == alive.len(),
        forall|i: int| 0 <= i < alive.len() ==> (#[trigger] toggled(alive, x, y)[i]).len() == alive[i].len(),
        0 <= y < alive.len() && 0 <= x < alive[y].len() ==> toggled(alive, x, y)[y][x] != alive[y][x],
        forall|i: int, j: int|
            0 <= i < alive.len() && 0 <= j < alive[i].len() && (i != y || j != x) ==> #[trigger] toggled(
                alive,
                x,
                y,
            )[i][j] == alive[i][j],
{
}

/// Away from the edges, a cell's next state follows the rule of life with
/// the live cells among the eight cells around it in the current grid.
pub proof fn lemma_interior_generation(alive: Seq<Seq<bool>>, x: int, y: int, w: int, h: int)
    requires
        has_shape(alive, h, w),
        1 <= x,
        x + 1 < w,
        1 <= y,
        y + 1 < h,
    ensures
        ({
            let around = alive_count(alive, x - 1, y - 1) + alive_count(alive, x, y - 1)
                + alive_count(alive, x + 1, y - 1) + alive_count(alive, x - 1, y) + alive_count(
                alive,
                x + 1,
                y,
            ) + alive_count(alive, x - 1, y + 1) + alive_count(alive, x, y + 1) + alive_count(
                alive,
                x + 1,
                y + 1,
            );
            &&& next_generation(alive, w, h)[y][x] == (if alive[y][x] {
                around == 2 || around == 3
            } else {
                around == 3
            })
            &&& has_shape(next_generation(alive, w, h), h, w)
        }),
{
    lemma_interior_neighbours(alive, x, y, w, h);
}

/// Two clicks on the same place undo each other: flipping a cell twice gives
/// the grid back.
pub proof fn lemma_toggle_twice(alive: Seq<Seq<bool>>, x: int, y: int)
    ensures
        toggled(toggled(alive, x, y), x, y) == alive,
{
    assert(toggled(toggled(alive, x, y), x, y) =~~= alive);
}

/// No place holds a live cell in a grid where every cell is dead.
proof fn lemma_count_dead(alive: Seq<Seq<bool>>, ps: Seq<(int, int)>)
    requires
        all_dead(alive),
        forall|k: int|
            0 <= k < ps.len() ==> 0 <= (#[trigger] ps[k]).1 < alive.len() && 0 <= ps[k].0
                < alive[ps[k].1].len(),
    ensures
        count_alive(alive, ps) == 0,
    decreases ps.len(),
{
    if ps.len() > 0 {
        lemma_count_dead(alive, ps.drop_last());
        assert(ps.last() == ps[ps.len() - 1]);
    }
}

/// A grid with no live cell stays without one: nothing is born where no
/// cell has live neighbours.
pub proof fn lemma_dead_grid_stays_dead(alive: Seq<Seq<bool>>, w: int, h: int)
    requires
        w >= 1,
        h >= 1,
        has_shape(alive, h, w),
        all_dead(alive),
    ensures
        all_dead(next_generation(alive, w, h)),
{
    let next = next_generation(alive, w, h);
    assert forall|i: int, j: int| 0 <= i < next.len() && 0 <= j < next[i].len() implies !next[i][j] by {
        let ps = neighbour_places(j, i, w, h);
        assert forall|k: int| 0 <= k < ps.len() implies 0 <= (#[trigger] ps[k]).1 < alive.len() && 0
            <= ps[k].0 < alive[ps[k].1].len() by {}
        lemma_count_dead(alive, ps);
    }
}

/// Whether `c` is the cell in column `x`, row `y` of a grid drawn at `scale`.
pub open spec fn well_placed(c: Cell, x: int, y: int, scale: int) -> bool {
    &&& c.x == x
    &&& c.y == y
    &&& c.rect == cell_rect(x, y, scale)
}

/// The alive states of rows of cells.
pub open spec fn alive_of(cells: Seq<Vec<Cell>>) -> Seq<Seq<bool>> {
    Seq::new(cells.len(), |i: int| Seq::new(cells[i]@.len(), |j: int| cells[i]@[j].alive))
}

/// Whether `odds` gives, for each cell of `alive`, odds of life out of
/// `P_SCALE` that the cell's state agrees with: odds 0 only for a dead
/// cell, odds `P_SCALE` only for a live one.
pub open spec fn odds_agree(odds: Seq<Seq<int>>, alive: Seq<Seq<bool>>) -> bool {
    &&& odds.len() == alive.len()
    &&& forall|i: int| 0 <= i < odds.len() ==> (#[trigger] odds[i]).len() == alive[i].len()
    &&& forall|i: int, j: int|
        0 <= i < odds.len() && 0 <= j < odds[i].len() ==> {
            &&& 0 <= #[trigger] odds[i][j] <= P_SCALE
            &&& odds[i][j] == 0 ==> !alive[i][j]
            &&& odds[i][j] == P_SCALE ==> alive[i][j]
        }
}

/// The odds of a grid whose cells are known: `P_SCALE` for each live cell,
/// 0 for each dead one.
pub open spec fn certain_odds(alive: Seq<Seq<bool>>) -> Seq<Seq<int>> {
    Seq::new(
        alive.len(),
        |i: int| Seq::new(alive[i].len(), |j: int| if alive[i][j] { P_SCALE as int } else { 0 }),
    )
}

/// The same odds `o` for each cell of `rows` rows of `cols` cells.
pub open spec fn uniform_odds(rows: int, cols: int, o: int) -> Seq<Seq<int>> {
    Seq::new(nonneg(rows), |i: int| Seq::new(nonneg(cols), |j: int| o))
}

/// The odds after the cell in column `x`, row `y` is flipped: its odds of
/// life become its former odds of death.
pub open spec fn toggled_odds(odds: Seq<Seq<int>>, x: int, y: int) -> Seq<Seq<int>> {
    Seq::new(
        odds.len(),
        |i: int|
            Seq::new(
                odds[i].len(),
                |j: int| if i == y && j == x { P_SCALE - odds[i][j] } else { odds[i][j] },
            ),
    )
}

/// The field of cells: `max_y` rows of `max_x` cells, each drawn as a square
/// of `scale` pixels.
pub struct Grid {
    cells: Vec<Vec<Cell>>,
    max_x: i32,
    max_y: i32,
    scale: i32,
    odds: Ghost<Seq<Seq<int>>>,
}

impl View for Grid {
    /// Whether each cell is alive, row by row.
    type V = Seq<Seq<bool>>;

    closed spec fn view(&self) -> Seq<Seq<bool>> {
        alive_of(self.cells@)
    }
}

/// `k * scale` fits in an `i32` for every `k` of a range `0..extent / scale`,
/// whatever the sign of `scale`: such a `k * scale` lies between 0 and `extent`.
proof fn lemma_scaled_index(k: int, extent: int, scale: int)
    requires
        scale != 0,
        0 <= k < trunc_div(extent, scale),
        fits_i32(extent),
    ensures
        fits_i32(k * scale),
{
    if scale > 0 {
        assert(extent >= 0);
        let q = extent / scale;
        vstd::arithmetic::div_mod::lemma_fundamental_div_mod(extent, scale);
        assert(k + 1 <= q);
        assert((k + 1) * scale <= q * scale) by (nonlinear_arith)
            requires
                k + 1 <= q,
                scale > 0,
        ;
        assert(0 <= k * scale) by (nonlinear_arith)
            requires
                0 <= k,
                scale > 0,
        ;
        assert((k + 1) * scale == k * scale + scale) by (nonlinear_arith);
    } else {
        let m = -scale;
        let e = -extent;
        assert(extent < 0);
        let q = e / m;
        assert(trunc_div(extent, scale) == q);
        vstd::arithmetic::div_mod::lemma_fundamental_div_mod(e, m);
        assert((k + 1) * m <= q * m) by (nonlinear_arith)
            requires
                k + 1 <= q,
                m > 0,
        ;
        assert(0 <= k * m) by (nonlinear_arith)
            requires
                0 <= k,
                m > 0,
        ;
        assert((k + 1) * m == k * m + m) by (nonlinear_arith);
        assert(k * scale == -(k * m)) by (nonlinear_arith)
            requires
                scale == -m,
        ;
    }
}

impl Grid {
    /// The number of columns.
    pub closed spec fn columns(&self) -> int {
        self.max_x as int
    }

    /// The number of rows.
    pub closed spec fn rows(&self) -> int {
        self.max_y as int
    }

    /// The side of a cell, in pixels.
    pub closed spec fn cell_size(&self) -> int {
        self.scale as int
    }

    /// The grid's invariant: `rows()` rows of `columns()` cells (none when a
    /// count is negative), the cell at row `i`, column `j` placed there, and
    /// a cell size other than 0.
    #[verifier::type_invariant]
    spec fn wf(&self) -> bool {
        &&& self.scale != 0
        &&& self.cells@.len() == nonneg(self.max_y as int)
        &&& forall|i: int|
            0 <= i < self.cells@.len() ==> (#[trigger] self.cells@[i])@.len() == nonneg(
                self.max_x as int,
            )
        &&& forall|i: int, j: int|
            0 <= i < self.cells@.len() && 0 <= j < self.cells@[i]@.len() ==> well_placed(
                #[trigger] self.cells@[i]@[j],
                j,
                i,
                self.scale as int,
            )
        &&& odds_agree(self.odds@, alive_of(self.cells@))
    }

    /// The odds of life, out of `P_SCALE`, that each cell was drawn with:
    /// the odds handed to the random draw for a cell of a grid built at
    /// random, `P_SCALE` or 0 for a cell whose state is known (read from a
    /// file, or computed by a generation), and the odds of the other state
    /// for a cell flipped by a click.
    pub closed spec fn life_odds(&self) -> Seq<Seq<int>> {
        self.odds@
    }

    /// The number of columns.
    pub fn max_x(&self) -> (r: i32)
        ensures
            r == self.columns(),
            has_shape(self@, self.rows(), self.columns()),
            fits_i32(self.rows()),
            fits_i32(self.columns()),
            self.cell_size() != 0,
    {
        proof {
            use_type_invariant(self);
        }
        self.max_x
    }

    /// The number of rows.
    pub fn max_y(&self) -> (r: i32)
        ensures
            r == self.rows(),
            has_shape(self@, self.rows(), self.columns()),
            fits_i32(self.rows()),
            fits_i32(self.columns()),
            self.cell_size() != 0,
    {
        proof {
            use_type_invariant(self);
        }
        self.max_y
    }

    /// The side of a cell, in pixels.
    pub fn scale(&self) -> (r: i32)
        ensures
            r == self.cell_size(),
            has_shape(self@, self.rows(), self.columns()),
            fits_i32(self.rows()),
            fits_i32(self.columns()),
            self.cell_size() != 0,
    {
        proof {
            use_type_invariant(self);
        }
        self.scale
    }

    /// The cells, row by row.
    pub fn cells(&self) -> (r: &Vec<Vec<Cell>>)
        ensures
            odds_agree(self.life_odds(), self@),
            has_shape(self@, self.rows(), self.columns()),
            fits_i32(self.rows()),
            fits_i32(self.columns()),
            self.cell_size() != 0,
            r@.len() == self@.len(),
            forall|i: int| 0 <= i < r@.len() ==> (#[trigger] r@[i])@.len() == self@[i].len(),
            forall|i: int, j: int|
                0 <= i < r@.len() && 0 <= j < r@[i]@.len() ==> #[trigger] r@[i]@[j] == (Cell {
                    x: j as i32,
                    y: i as i32,
                    rect: cell_rect(j, i, self.cell_size()),
                    alive: self@[i][j],
                }),
    {
        proof {
            use_type_invariant(self);
        }
        &self.cells
    }
    /// A grid of `trunc_div(height, scale)` rows and `trunc_div(width, scale)`
    /// columns whose cells are drawn at random by `Cell::build` with `p`: each
    /// is dead with probability `p` out of `P_SCALE`, so with `p` at or above
    /// `P_SCALE` every cell is dead and with `p == 0` every cell is alive.
    pub fn build_with(height: i32, width: i32, scale: i32, p: u32) -> (g: Grid)
        requires
            divides(height as int, scale as int),
            divides(width as int, scale as int),
        ensures
            g.rows() == trunc_div(height as int, scale as int),
            g.columns() == trunc_div(width as int, scale as int),
            g.cell_size() == scale,
            p >= P_SCALE ==> all_dead(g@),
            p == 0 ==> all_alive(g@),
            g.life_odds() == uniform_odds(
                trunc_div(height as int, scale as int),
                trunc_div(width as int, scale as int),
                alive_odds(p) as int,
            ),
    {
        let rows = div_i32(height, scale);
        let cols = div_i32(width, scale);
        let mut cells: Vec<Vec<Cell>> = Vec::new();
        let mut i: i32 = 0;
        while i < rows
            invariant
                scale != 0,
                rows == trunc_div(height as int, scale as int),
                cols == trunc_div(width as int, scale as int),
                0 <= i <= nonneg(rows as int),
                cells@.len() == i,
                forall|k: int| 0 <= k < i ==> (#[trigger] cells@[k])@.len() == nonneg(cols as int),
                forall|k: int, j: int|
                    0 <= k < i && 0 <= j < cells@[k]@.len() ==> well_placed(
                        #[trigger] cells@[k]@[j],
                        j,
                        k,
                        scale as int,
                    ) && (p >= P_SCALE ==> !cells@[k]@[j].alive) && (p == 0
                        ==> cells@[k]@[j].alive),
            decreases rows - i,
        {
            proof {
                lemma_scaled_index(i as int, height as int, scale as int);
            }
            let mut line: Vec<Cell> = Vec::new();
            let mut j: i32 = 0;
            while j < cols
                invariant
                    scale != 0,
                        cols == trunc_div(width as int, scale as int),
                    fits_i32(i * scale),
                    0 <= j <= nonneg(cols as int),
                    line@.len() == j,
                    forall|l: int|
                        0 <= l < j ==> well_placed(#[trigger] line@[l], l, i as int, scale as int)
                            && (p >= P_SCALE ==> !line@[l].alive) && (p == 0
                            ==> line@[l].alive),
                decreases cols - j,
            {
                proof {
                    lemma_scaled_index(j as int, width as int, scale as int);
                }
                line.push(Cell::build(j, i, scale, p));
                j += 1;
            }
            cells.push(line);
            i += 1;
        }
        Grid {
            cells,
            max_x: cols,
            max_y: rows,
            scale,
            odds: Ghost(uniform_odds(rows as int, cols as int, alive_odds(p) as int)),
        }
    }

    /// A grid of `trunc_div(height, scale)` rows and `trunc_div(width, scale)`
    /// columns whose cells are drawn at random, each dead with probability
    /// `P` out of `P_SCALE`: `build_with` at `P`.
    pub fn build(height: i32, width: i32, scale: i32) -> (g: Grid)
        requires
            divides(height as int, scale as int),
            divides(width as int, scale as int),
        ensures
            g.rows() == trunc_div(height as int, scale as int),
            g.columns() == trunc_div(width as int, scale as int),
            g.cell_size() == scale,
            g.life_odds() == uniform_odds(
                trunc_div(height as int, scale as int),
                trunc_div(width as int, scale as int),
                (P_SCALE - P) as int,
            ),
    {
        Grid::build_with(height, width, scale, P)
    }

    /// A grid of `trunc_div(height, scale)` rows and `trunc_div(width, scale)`
    /// columns with every cell dead.
    pub fn build_empty(height: i32, width: i32, scale: i32) -> (g: Grid)
        requires
            divides(height as int, scale as int),
            divides(width as int, scale as int),
        ensures
            g.rows() == trunc_div(height as int, scale as int),
            g.columns() == trunc_div(width as int, scale as int),
            g.cell_size() == scale,
            all_dead(g@),
            g.life_odds() == uniform_odds(
                trunc_div(height as int, scale as int),
                trunc_div(width as int, scale as int),
                0,
            ),
    {
        Grid::build_with(height, width, scale, P_SCALE)
    }
    /// 1 when the cell in column `x`, row `y` is alive, 0 when it is dead.
    fn alive_at(&self, x: i32, y: i32) -> (n: i32)
        requires
            self.wf(),
            0 <= x < self.columns(),
            0 <= y < self.rows(),
        ensures
            n == (if self@[y as int][x as int] { 1int } else { 0int }),
    {
        if self.cells[y as usize][x as usize].alive {
            1
        } else {
            0
        }
    }

    /// The number of live neighbours of `cell`, counted over the places of
    /// `neighbour_places`.
    pub fn get_alive_neighbours(&self, cell: &Cell) -> (n: i32)
        requires
            0 <= cell.x < self.columns(),
            0 <= cell.y < self.rows(),
        ensures
            n == live_neighbours(self@, cell.x as int, cell.y as int, self.columns(), self.rows()),
            0 <= n <= 8,
    {
        proof {
            use_type_invariant(self);
        }
        let min_y = if cell.y - 1 > 0 { cell.y - 1 } else { 0 };
        let max_y = if cell.y + 1 < self.max_y - 1 { cell.y + 1 } else { self.max_y - 1 };
        let min_x = if cell.x - 1 > 0 { cell.x - 1 } else { 0 };
        let max_x = if cell.x + 1 < self.max_x - 1 { cell.x + 1 } else { self.max_x - 1 };

        let places: Vec<(i32, i32)> = vec![
            (min_x, cell.y),
            (min_x, max_y),
            (cell.x, max_y),
            (max_x, max_y),
            (max_x, cell.y),
            (max_x, min_y),
            (cell.x, min_y),
            (min_x, min_y),
        ];
        let ghost ps = neighbour_places(cell.x as int, cell.y as int, self.columns(), self.rows());
        assert(places@.len() == ps.len());
        assert forall|k: int| 0 <= k < 8 implies (#[trigger] places@[k]).0 == ps[k].0 && places@[k].1
            == ps[k].1 && 0 <= places@[k].0 < self.columns() && 0 <= places@[k].1 < self.rows() by {}
        let mut count: i32 = 0;
        let mut k: usize = 0;
        while k < places.len()
            invariant
                self.wf(),
                places@.len() == 8,
                ps.len() == 8,
                forall|l: int|
                    0 <= l < 8 ==> (#[trigger] places@[l]).0 == ps[l].0 && places@[l].1 == ps[l].1
                        && 0 <= places@[l].0 < self.columns() && 0 <= places@[l].1 < self.rows(),
                0 <= k <= 8,
                count == count_alive(self@, ps.take(k as int)),
                0 <= count <= k,
            decreases 8 - k,
        {
            let (x, y) = places[k];
            count = count + self.alive_at(x, y);
            proof {
                assert(ps.take(k + 1).drop_last() =~= ps.take(k as int));
            }
            k += 1;
        }
        proof {
            assert(ps.take(8) =~= ps);
        }
        count
    }
    /// Advances the grid one generation: every cell follows the rule of life,
    /// its live neighbours counted in the grid as it was before the step.
    pub fn tick(&mut self)
        ensures
            final(self).rows() == old(self).rows(),
            final(self).columns() == old(self).columns(),
            final(self).cell_size() == old(self).cell_size(),
            final(self)@ == next_generation(old(self)@, old(self).columns(), old(self).rows()),
            final(self).life_odds() == certain_odds(final(self)@),
    {
        proof {
            use_type_invariant(&*self);
        }
        let ghost before = self@;
        let mut new_cells: Vec<Vec<Cell>> = Vec::new();
        let n = self.cells.len();
        let mut i: usize = 0;
        while i < n
            invariant
                self.wf(),
                self@ == before,
                n == self.cells@.len(),
                0 <= i <= n,
                new_cells@.len() == i,
                forall|k: int|
                    0 <= k < i ==> (#[trigger] new_cells@[k])@.len() == nonneg(self.max_x as int),
                forall|k: int, l: int|
                    0 <= k < i && 0 <= l < new_cells@[k]@.len() ==> well_placed(
                        #[trigger] new_cells@[k]@[l],
                        l,
                        k,
                        self.scale as int,
                    ) && new_cells@[k]@[l].alive == next_state(
                        before[k][l],
                        live_neighbours(before, l, k, self.max_x as int, self.max_y as int),
                    ),
            decreases n - i,
        {
            let mut new_line: Vec<Cell> = Vec::new();
            let m = self.cells[i].len();
            let mut j: usize = 0;
            while j < m
                invariant
                    self.wf(),
                    self@ == before,
                    n == self.cells@.len(),
                    0 <= i < n,
                    m == self.cells@[i as int]@.len(),
                    0 <= j <= m,
                    new_line@.len() == j,
                    forall|l: int|
                        0 <= l < j ==> well_placed(
                            #[trigger] new_line@[l],
                            l,
                            i as int,
                            self.scale as int,
                        ) && new_line@[l].alive == next_state(
                            before[i as int][l],
                            live_neighbours(before, l, i as int, self.max_x as int, self.max_y as int),
                        ),
                decreases m - j,
            {
                let cell = &self.cells[i][j];
                let neighbours = self.get_alive_neighbours(cell);
                new_line.push(cell.tick(neighbours));
                j += 1;
            }
            new_cells.push(new_line);
            i += 1;
        }
        proof {
            assert(alive_of(new_cells@) =~~= next_generation(before, self.max_x as int, self.max_y as int));
        }
        let ghost odds = certain_odds(alive_of(new_cells@));
        *self = Grid {
            cells: new_cells,
            max_x: self.max_x,
            max_y: self.max_y,
            scale: self.scale,
            odds: Ghost(odds),
        };
    }

    /// A left click at pixel (`mouse_x`, `mouse_y`) flips the cell under it,
    /// if there is one; without a left click nothing changes. Answers whether
    /// there was a left click.
    pub fn update(&mut self, left: bool, mouse_x: i32, mouse_y: i32) -> (clicked: bool)
        requires
            left ==> divides(mouse_x as int, old(self).cell_size()) && divides(
                mouse_y as int,
                old(self).cell_size(),
            ),
        ensures
            clicked == left,
            final(self).rows() == old(self).rows(),
            final(self).columns() == old(self).columns(),
            final(self).cell_size() == old(self).cell_size(),
            final(self)@ == (if left {
                toggled(
                    old(self)@,
                    trunc_div(mouse_x as int, old(self).cell_size()),
                    trunc_div(mouse_y as int, old(self).cell_size()),
                )
            } else {
                old(self)@
            }),
            final(self).life_odds() == (if left {
                toggled_odds(
                    old(self).life_odds(),
                    trunc_div(mouse_x as int, old(self).cell_size()),
                    trunc_div(mouse_y as int, old(self).cell_size()),
                )
            } else {
                old(self).life_odds()
            }),
    {
        proof {
            use_type_invariant(&*self);
        }
        if left {
            let ghost before = self@;
            let pos: (i32, i32) = (div_i32(mouse_x, self.scale), div_i32(mouse_y, self.scale));
            let mut new_cells: Vec<Vec<Cell>> = Vec::new();
            let n = self.cells.len();
            let mut i: usize = 0;
            while i < n
                invariant
                    self.wf(),
                    self@ == before,
                    n == self.cells@.len(),
                    0 <= i <= n,
                    new_cells@.len() == i,
                    forall|k: int|
                        0 <= k < i ==> (#[trigger] new_cells@[k])@.len() == nonneg(
                            self.max_x as int,
                        ),
                    forall|k: int, l: int|
                        0 <= k < i && 0 <= l < new_cells@[k]@.len() ==> well_placed(
                            #[trigger] new_cells@[k]@[l],
                            l,
                            k,
                            self.scale as int,
                        ) && new_cells@[k]@[l].alive == (if k == pos.1 && l == pos.0 {
                            !before[k][l]
                        } else {
                            before[k][l]
                        }),
                decreases n - i,
            {
                let mut new_line: Vec<Cell> = Vec::new();
                let m = self.cells[i].len();
                let mut j: usize = 0;
                while j < m
                    invariant
                        self.wf(),
                        self@ == before,
                        n == self.cells@.len(),
                        0 <= i < n,
                        m == self.cells@[i as int]@.len(),
                        0 <= j <= m,
                        new_line@.len() == j,
                        forall|l: int|
                            0 <= l < j ==> well_placed(
                                #[trigger] new_line@[l],
                                l,
                                i as int,
                                self.scale as int,
                            ) && new_line@[l].alive == (if i == pos.1 && l == pos.0 {
                                !before[i as int][l]
                            } else {
                                before[i as int][l]
                            }),
                    decreases m - j,
                {
                    let cell = &self.cells[i][j];
                    if cell.y == pos.1 && cell.x == pos.0 {
                        new_line.push(cell.update());
                    } else {
                        new_line.push(cell.copy());
                    }
                    j += 1;
                }
                new_cells.push(new_line);
                i += 1;
            }
            proof {
                assert(alive_of(new_cells@) =~~= toggled(before, pos.0 as int, pos.1 as int));
            }
            let ghost odds = toggled_odds(self.odds@, pos.0 as int, pos.1 as int);
            *self = Grid {
                cells: new_cells,
                max_x: self.max_x,
                max_y: self.max_y,
                scale: self.scale,
                odds: Ghost(odds),
            };
            return true;
        }
        false
    }
    /// The grid as text: one line per row, `'1'` for a live cell and `'0'`
    /// for a dead one, the rows separated by `'\n'` (no `'\n'` after the last).
    pub fn export_text(&self) -> (text: String)
        ensures
            text@ == grid_text(self@),
    {
        proof {
            use_type_invariant(self);
        }
        let ghost rows_text = Seq::new(self@.len(), |i: int| row_text(self@[i]));
        let mut text = String::new();
        let n = self.cells.len();
        let mut i: usize = 0;
        proof {
            reveal_strlit("\n");
            reveal_strlit("1");
            reveal_strlit("0");
        }
        while i < n
            invariant
                self.wf(),
                n == self.cells@.len(),
                0 <= i <= n,
                rows_text == Seq::new(self@.len(), |k: int| row_text(self@[k])),
                text@ == join_lines(rows_text.take(i as int)),
                "\n"@ == seq!['\n'],
                "1"@ == seq!['1'],
                "0"@ == seq!['0'],
            decreases n - i,
        {
            if i > 0 {
                text.append("\n");
            }
            let ghost prefix = text@;
            let m = self.cells[i].len();
            let mut j: usize = 0;
            while j < m
                invariant
                    self.wf(),
                    n == self.cells@.len(),
                    0 <= i < n,
                    m == self.cells@[i as int]@.len(),
                    m == self@[i as int].len(),
                    0 <= j <= m,
                    text@ =~= prefix + row_text(self@[i as int]).take(j as int),
                    "1"@ == seq!['1'],
                    "0"@ == seq!['0'],
                decreases m - j,
            {
                if self.cells[i][j].alive {
                    text.append("1");
                } else {
                    text.append("0");
                }
                proof {
                    assert(row_text(self@[i as int]).take(j + 1) =~= row_text(self@[i as int]).take(
                        j as int,
                    ).push(row_text(self@[i as int])[j as int]));
                }
                j += 1;
            }
            proof {
                assert(row_text(self@[i as int]).take(m as int) =~= row_text(self@[i as int]));
                assert(rows_text.take(i + 1).drop_last() =~= rows_text.take(i as int));
                assert(rows_text.take(i + 1).last() == rows_text[i as int]);
                if i == 0 {
                    assert(prefix =~= Seq::<char>::empty());
                    assert(text@ =~= rows_text[0]);
                }
            }
            i += 1;
        }
        proof {
            assert(rows_text.take(n as int) =~= rows_text);
        }
        text
    }

    /// Reads `lines` as a grid of `trunc_div(height, scale)` rows and
    /// `trunc_div(width, scale)` columns: the cell in column `j` of row `i` is
    /// alive exactly when character `j` of line `i` is `'1'`. Refused, with the
    /// first problem found, when there is not one line per row, when the first
    /// line's length in bytes is not the number of columns, or when a line is
    /// shorter than that.
    pub fn try_build_from_lines(height: i32, width: i32, scale: i32, lines: &Vec<String>) -> (r:
        Result<Grid, ImportError>)
        requires
            divides(height as int, scale as int),
            divides(width as int, scale as int),
        ensures
            match r {
                Ok(g) => {
                    &&& import_problem(
                        texts(lines@),
                        trunc_div(height as int, scale as int) as i32,
                        trunc_div(width as int, scale as int) as i32,
                    ) is None
                    &&& g.rows() == trunc_div(height as int, scale as int)
                    &&& g.columns() == trunc_div(width as int, scale as int)
                    &&& g.cell_size() == scale
                    &&& g.life_odds() == certain_odds(g@)
                    &&& g@ == parse_rows(
                        texts(lines@),
                        trunc_div(height as int, scale as int),
                        trunc_div(width as int, scale as int),
                    )
                },
                Err(e) => import_problem(
                    texts(lines@),
                    trunc_div(height as int, scale as int) as i32,
                    trunc_div(width as int, scale as int) as i32,
                ) == Some(e),
            },
    {
        let rows = div_i32(height, scale);
        let cols = div_i32(width, scale);
        let ghost ls = texts(lines@);
        if #[verifier::truncate] (lines.len() as i32) != rows {
            return Err(ImportError::LineCount);
        }
        if lines.len() == 0 {
            return Err(ImportError::NoLines);
        }
        if #[verifier::truncate] (lines[0].as_str().len() as i32) != cols {
            return Err(ImportError::LineLength);
        }
        let len = lines.len();
        assert(len as i32 == rows && rows >= 0 ==> len >= rows as usize) by (bit_vector);
        let mut i: i32 = 0;
        while i < rows
            invariant
                ls == texts(lines@),
                rows == trunc_div(height as int, scale as int),
                cols == trunc_div(width as int, scale as int),
                (ls.len() as i32) == rows,
                ls.len() > 0,
                (utf8_len(ls[0]) as i32) == cols,
                0 <= i <= nonneg(rows as int),
                rows >= 0 ==> lines@.len() >= rows,
                forall|k: int| 0 <= k < i ==> (#[trigger] ls[k]).len() >= cols,
            decreases rows - i,
        {
            if cols > 0 && lines[i as usize].as_str().unicode_len() < cols as usize {
                proof {
                    assert(ls[i as int].len() < cols);
                }
                return Err(ImportError::ShortLine);
            }
            i += 1;
        }
        let mut cells: Vec<Vec<Cell>> = Vec::new();
        let mut i: i32 = 0;
        while i < rows
            invariant
                scale != 0,
                ls == texts(lines@),
                rows == trunc_div(height as int, scale as int),
                cols == trunc_div(width as int, scale as int),
                rows >= 0 ==> lines@.len() >= rows,
                forall|k: int| 0 <= k < rows ==> (#[trigger] ls[k]).len() >= cols,
                0 <= i <= nonneg(rows as int),
                cells@.len() == i,
                forall|k: int| 0 <= k < i ==> (#[trigger] cells@[k])@.len() == nonneg(cols as int),
                forall|k: int, j: int|
                    0 <= k < i && 0 <= j < cells@[k]@.len() ==> well_placed(
                        #[trigger] cells@[k]@[j],
                        j,
                        k,
                        scale as int,
                    ) && cells@[k]@[j].alive == (ls[k][j] == '1'),
            decreases rows - i,
        {
            proof {
                lemma_scaled_index(i as int, height as int, scale as int);
            }
            let line = lines[i as usize].as_str();
            assert(line@ == ls[i as int]);
            let mut row: Vec<Cell> = Vec::new();
            let mut j: i32 = 0;
            while j < cols
                invariant
                    scale != 0,
                    cols == trunc_div(width as int, scale as int),
                    fits_i32(i * scale),
                    line@.len() >= cols,
                    0 <= j <= nonneg(cols as int),
                    row@.len() == j,
                    forall|l: int|
                        0 <= l < j ==> well_placed(#[trigger] row@[l], l, i as int, scale as int)
                            && row@[l].alive == (line@[l] == '1'),
                decreases cols - j,
            {
                proof {
                    lemma_scaled_index(j as int, width as int, scale as int);
                }
                let ch = line.get_char(j as usize);
                let p: u32 = if ch == '1' {
                    0
                } else {
                    P_SCALE
                };
                row.push(Cell::build(j, i, scale, p));
                j += 1;
            }
            cells.push(row);
            i += 1;
        }
        let ghost odds = certain_odds(alive_of(cells@));
        let g = Grid { cells, max_x: cols, max_y: rows, scale, odds: Ghost(odds) };
        proof {
            assert(g@ =~~= parse_rows(ls, rows as int, cols as int));
        }
        Ok(g)
    }

    /// How many of the characters read as cells (the first `cols` of each of
    /// the first `rows` lines) are neither `'0'` nor `'1'`; each is read as a
    /// dead cell.
    pub fn unrecognized_cells(lines: &Vec<String>, rows: i32, cols: i32) -> (n: u64)
        requires
            rows <= lines@.len(),
            forall|i: int| 0 <= i < rows ==> (#[trigger] lines@[i])@.len() >= cols,
        ensures
            n == unrecognized(texts(lines@), rows as int, cols as int),
    {
        let ghost ls = texts(lines@);
        let ghost c = nonneg(cols as int);
        let mut count: u64 = 0;
        let mut i: i32 = 0;
        while i < rows
            invariant
                ls == texts(lines@),
                c == nonneg(cols as int),
                rows <= lines@.len(),
                forall|k: int| 0 <= k < rows ==> (#[trigger] lines@[k])@.len() >= cols,
                0 <= i <= nonneg(rows as int),
                count == unrecognized(ls, i as int, cols as int),
                count <= i * c,
            decreases rows - i,
        {
            let line = lines[i as usize].as_str();
            assert(line@ == ls[i as int]);
            let ghost before = count;
            let mut j: i32 = 0;
            while j < cols
                invariant
                    line@ == ls[i as int],
                    line@.len() >= cols,
                    c == nonneg(cols as int),
                    0 <= i < rows,
                    0 <= j <= c,
                    before <= i * c,
                    count == before + unrecognized_in(ls[i as int], j as int),
                    count <= i * c + j,
                decreases cols - j,
            {
                let ch = line.get_char(j as usize);
                if ch != '0' && ch != '1' {
                    assert(i * c + j + 1 <= (i + 1) * c) by (nonlinear_arith)
                        requires
                            j < c,
                    ;
                    assert((i + 1) * c <= 0x8000_0000 * 0x8000_0000) by (nonlinear_arith)
                        requires
                            0 <= i < rows,
                            rows <= 0x7fff_ffff,
                            0 <= c <= 0x8000_0000,
                    ;
                    count = count + 1;
                }
                j += 1;
            }
            assert(i * c + c == (i + 1) * c) by (nonlinear_arith);
            i += 1;
        }
        count
    }
}

} // verus!
