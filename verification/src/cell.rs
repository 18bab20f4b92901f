use vstd::prelude::*;

use crate::fits_i32;
use crate::random::{gen_ratio, thread_rng};

verus! {

/// Probabilities of a new cell being dead are given as `p` out of `P_SCALE`.
pub const P_SCALE: u32 = 100;

/// How likely a randomly built cell is to start dead, out of `P_SCALE`:
/// `P_SCALE` (or more) means no alive cell, 0 means no dead cell.
pub const P: u32 = 75;

/// A rectangle on the screen, in pixels: its top-left corner, width and height.
#[derive(Clone, Copy, Debug, PartialEq, Eq, Structural)]
pub struct Rect {
    pub x: i32,
    pub y: i32,
    pub w: u32,
    pub h: u32,
}

/// One cell of the grid: its column `x`, its row `y`, the square it is drawn
/// in, and whether it is alive.
#[derive(Clone, Copy, Debug, PartialEq, Eq, Structural)]
pub struct Cell {
    pub x: i32,
    pub y: i32,
    pub rect: Rect,
    pub alive: bool,
}

/// The square of side `scale` that the cell in column `x`, row `y` is drawn in.
pub open spec fn cell_rect(x: int, y: int, scale: int) -> Rect {
    Rect { x: (x * scale) as i32, y: (y * scale) as i32, w: scale as u32, h: scale as u32 }
}

/// The rule of life: a live cell survives with two or three live neighbours,
/// a dead cell comes alive with exactly three.
pub open spec fn next_state(alive: bool, neighbours: int) -> bool {
    if alive {
        neighbours == 2 || neighbours == 3
    } else {
        neighbours == 3
    }
}

/// The odds, out of `P_SCALE`, that a cell built with `p` starts alive: what
/// is left of `P_SCALE` once the chance `p` of being dead (at most all of it)
/// is taken away.
#[verifier::allow_in_spec]
pub fn alive_odds(p: u32) -> u32
    returns
        (P_SCALE - (if p < P_SCALE {
            p
        } else {
            P_SCALE
        })) as u32,
{
    let dead = if p < P_SCALE {
        p
    } else {
        P_SCALE
    };
    P_SCALE - dead
}

/// The starting probability: a random cell is alive with odds 25 out of
/// 100, neither sure to live nor sure to die.
pub proof fn lemma_start_odds()
    ensures
        alive_odds(P) == 25,
        P_SCALE == 100,
        0 < alive_odds(P) < P_SCALE,
{
}

/// The odds of life and the chance of death (at most all of it) make up
/// `P_SCALE` together, so a cell that is likelier to be dead is less likely
/// to be alive.
pub proof fn lemma_alive_odds(p: u32, q: u32)
    ensures
        alive_odds(p) + (if p < P_SCALE { p } else { P_SCALE }) == P_SCALE,
        alive_odds(0) == P_SCALE,
        p >= P_SCALE ==> alive_odds(p) == 0,
        p <= q ==> alive_odds(q) <= alive_odds(p),
{
}

/// The rule of life, case by case: a live cell with fewer than two live
/// neighbours dies, with two or three lives on, with more than three dies;
/// a dead cell with exactly three live neighbours is born and otherwise
/// stays dead.
pub proof fn lemma_rule_of_life(neighbours: int)
    ensures
        neighbours < 2 ==> !next_state(true, neighbours),
        neighbours == 2 || neighbours == 3 ==> next_state(true, neighbours),
        neighbours > 3 ==> !next_state(true, neighbours),
        neighbours == 3 ==> next_state(false, neighbours),
        neighbours != 3 ==> !next_state(false, neighbours),
{
}

/// The square of the cell in column `x`, row `y` holds exactly the pixels
/// whose coordinates divided by a positive `scale`, rounded toward zero,
/// are `x` and `y`: a click lands in the square of the cell it flips.
pub proof fn lemma_square_holds_clicks(x: int, y: int, scale: int, px: int, py: int)
    requires
        scale > 0,
        0 <= x,
        0 <= y,
        0 <= px,
        0 <= py,
        fits_i32(x * scale),
        fits_i32(y * scale),
        fits_i32(scale),
    ensures
        cell_rect(x, y, scale).x == x * scale,
        cell_rect(x, y, scale).y == y * scale,
        cell_rect(x, y, scale).w == scale,
        cell_rect(x, y, scale).h == scale,
        (x * scale <= px < x * scale + scale) == (crate::trunc_div(px, scale) == x),
        (y * scale <= py < y * scale + scale) == (crate::trunc_div(py, scale) == y),
{
    assert((x * scale <= px < x * scale + scale) == (px / scale == x)) by (nonlinear_arith)
        requires
            scale > 0,
            0 <= x,
            0 <= px,
    {
        vstd::arithmetic::div_mod::lemma_fundamental_div_mod(px, scale);
        if x * scale <= px < x * scale + scale {
            vstd::arithmetic::div_mod::lemma_fundamental_div_mod_converse_div(px, scale, x, px - x * scale);
        }
    }
    assert((y * scale <= py < y * scale + scale) == (py / scale == y)) by (nonlinear_arith)
        requires
            scale > 0,
            0 <= y,
            0 <= py,
    {
        vstd::arithmetic::div_mod::lemma_fundamental_div_mod(py, scale);
        if y * scale <= py < y * scale + scale {
            vstd::arithmetic::div_mod::lemma_fundamental_div_mod_converse_div(py, scale, y, py - y * scale);
        }
    }
}

impl Cell {
    /// The cell in column `x`, row `y`, drawn at `scale` pixels per cell.
    pub fn new(x: i32, y: i32, scale: i32, alive: bool) -> (c: Cell)
        requires
            fits_i32(x * scale),
            fits_i32(y * scale),
        ensures
            c.x == x,
            c.y == y,
            c.rect == cell_rect(x as int, y as int, scale as int),
            c.alive == alive,
    {
        Cell {
            x: x,
            y: y,
            rect: Rect { x: x * scale, y: y * scale, w: scale as u32, h: scale as u32 },
            alive: alive,
        }
    }

    /// A cell that is dead with probability `p` out of `P_SCALE`, drawn at
    /// random: the draw is alive with odds `alive_odds(p)` out of `P_SCALE`,
    /// so with `p` at or above `P_SCALE` the cell is always dead, with `p == 0`
    /// always alive.
    pub fn build(x: i32, y: i32, scale: i32, p: u32) -> (c: Cell)
        requires
            fits_i32(x * scale),
            fits_i32(y * scale),
        ensures
            c.x == x,
            c.y == y,
            c.rect == cell_rect(x as int, y as int, scale as int),
            p >= P_SCALE ==> !c.alive,
            p == 0 ==> c.alive,
    {
        let mut rng = thread_rng();
        let alive = gen_ratio(&mut rng, alive_odds(p), P_SCALE);
        Cell::new(x, y, scale, alive)
    }

    /// The same cell one generation later, given its number of live neighbours.
    pub fn tick(&self, neighbours: i32) -> (c: Cell)
        ensures
            c.x == self.x,
            c.y == self.y,
            c.rect == self.rect,
            c.alive == next_state(self.alive, neighbours as int),
    {
        let next: bool;
        if self.alive {
            next = neighbours == 2 || neighbours == 3;
        } else {
            next = neighbours == 3;
        }
        Cell { x: self.x, y: self.y, rect: self.rect, alive: next }
    }

    /// The same cell with its state flipped.
    pub fn update(&self) -> (c: Cell)
        ensures
            c.x == self.x,
            c.y == self.y,
            c.rect == self.rect,
            c.alive == !self.alive,
    {
        Cell { x: self.x, y: self.y, rect: self.rect, alive: !self.alive }
    }

    /// An identical cell.
    pub fn copy(&self) -> (c: Cell)
        ensures
            c == *self,
    {
        Cell { x: self.x, y: self.y, rect: self.rect, alive: self.alive }
    }
}

} // verus!
