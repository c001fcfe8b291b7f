//! Properties of the transition rule, proved over the model in `rules`.

use vstd::prelude::*;
use crate::grid::FlatLand;
use crate::rules::{
    generations, grid_width, is_rectangular, neighbor_count, next_generation, sample, window,
    wrap_next, wrap_prev,
};

verus! {

/// `g` with the cell in column `x` of row `y` set to `v`.
pub open spec fn with_cell(g: Seq<Seq<bool>>, x: int, y: int, v: bool) -> Seq<Seq<bool>> {
    g.update(y, g[y].update(x, v))
}

/// A `w` by `h` generation whose live cells are those where `live` holds.
pub open spec fn pattern(w: int, h: int, live: spec_fn(int, int) -> bool) -> Seq<Seq<bool>> {
    Seq::new(h as nat, |y: int| Seq::new(w as nat, |x: int| live(x, y)))
}

/// A `w` by `h` generation of dead cells.
pub open spec fn dead_grid(w: int, h: int) -> Seq<Seq<bool>> {
    pattern(w, h, |x: int, y: int| false)
}

/// A single live cell at `(cx, cy)`.
pub open spec fn lone_cell(w: int, h: int, cx: int, cy: int) -> Seq<Seq<bool>> {
    pattern(w, h, |x: int, y: int| x == cx && y == cy)
}

/// A 2x2 block whose top-left cell is `(bx, by)`.
pub open spec fn block(w: int, h: int, bx: int, by: int) -> Seq<Seq<bool>> {
    pattern(
        w,
        h,
        |x: int, y: int| (x == bx || x == wrap_next(bx, w)) && (y == by || y == wrap_next(by, h)),
    )
}

/// Three live cells in a row, centred on `(cx, cy)`.
pub open spec fn horizontal_line(w: int, h: int, cx: int, cy: int) -> Seq<Seq<bool>> {
    pattern(
        w,
        h,
        |x: int, y: int| y == cy && (x == wrap_prev(cx, w) || x == cx || x == wrap_next(cx, w)),
    )
}

/// Three live cells in a column, centred on `(cx, cy)`.
pub open spec fn vertical_line(w: int, h: int, cx: int, cy: int) -> Seq<Seq<bool>> {
    pattern(
        w,
        h,
        |x: int, y: int| x == cx && (y == wrap_prev(cy, h) || y == cy || y == wrap_next(cy, h)),
    )
}

/// A tick is a function of the cells alone: two grids with equal cells have
/// equal successors, after any number of ticks.
pub proof fn lemma_tick_deterministic(a: FlatLand, b: FlatLand, n: nat)
    requires
        a.wf(),
        b.wf(),
        a@ == b@,
    ensures
        next_generation(a@) == next_generation(b@),
        generations(a@, n) == generations(b@, n),
{
}

/// The grid wraps at its corners: on a grid at least 2x2, a live cell at
/// `(0, 0)` counts toward `(w-1, h-1)`, and a live cell at `(w-1, h-1)` counts
/// toward `(0, 0)`.
pub proof fn lemma_corners_are_neighbors(g: Seq<Seq<bool>>)
    requires
        is_rectangular(g),
        grid_width(g) >= 2,
        g.len() >= 2,
    ensures
        ({
            let (w, h) = (grid_width(g), g.len() as int);
            neighbor_count(with_cell(g, 0, 0, true), w - 1, h - 1) > neighbor_count(
                with_cell(g, 0, 0, false),
                w - 1,
                h - 1,
            )
        }),
        ({
            let (w, h) = (grid_width(g), g.len() as int);
            neighbor_count(with_cell(g, w - 1, h - 1, true), 0, 0) > neighbor_count(
                with_cell(g, w - 1, h - 1, false),
                0,
                0,
            )
        }),
        ({
            let (w, h) = (grid_width(g), g.len() as int);
            &&& window(2, w - 1, w) == 0 && window(2, h - 1, h) == 0
            &&& window(0, 0, w) == w - 1 && window(0, 0, h) == h - 1
            &&& g[0][0] ==> neighbor_count(g, w - 1, h - 1) >= 1
            &&& g[h - 1][w - 1] ==> neighbor_count(g, 0, 0) >= 1
        }),
{
}

/// Every position of the window around a cell lies inside the grid; on an
/// axis of length one, all three positions are the cell's own coordinate.
pub proof fn lemma_window_in_range(i: int, n: int)
    requires
        0 <= i < n,
    ensures
        forall|k: int| 0 <= k < 3 ==> 0 <= #[trigger] window(k, i, n) < n,
        n == 1 ==> forall|k: int| 0 <= k < 3 ==> #[trigger] window(k, i, n) == i,
{
}

/// On a grid of one column, each of the cells above and below is sampled
/// three times and the cell itself never; likewise across a grid of one row.
/// On a single cell the count is zero.
pub proof fn lemma_thin_grid_count(g: Seq<Seq<bool>>, x: int, y: int)
    requires
        is_rectangular(g),
        grid_width(g) == 1 || g.len() == 1,
        0 <= x < grid_width(g),
        0 <= y < g.len(),
    ensures
        grid_width(g) == 1 ==> neighbor_count(g, x, y) == 3 * (sample(
            g,
            x,
            wrap_prev(y, g.len() as int),
            x,
            y,
        ) + sample(g, x, wrap_next(y, g.len() as int), x, y)),
        g.len() == 1 ==> neighbor_count(g, x, y) == 3 * (sample(
            g,
            wrap_prev(x, grid_width(g)),
            y,
            x,
            y,
        ) + sample(g, wrap_next(x, grid_width(g)), y, x, y)),
        grid_width(g) == 1 && g.len() == 1 ==> neighbor_count(g, x, y) == 0,
{
}

/// A generation that the rule maps to itself stays unchanged after any number
/// of ticks.
pub proof fn lemma_still_life_stays(g: Seq<Seq<bool>>, n: nat)
    requires
        next_generation(g) == g,
    ensures
        generations(g, n) == g,
    decreases n,
{
    if n > 0 {
        lemma_still_life_stays(g, (n - 1) as nat);
    }
}

/// An all-dead grid stays all dead after any number of ticks.
pub proof fn lemma_dead_grid_stays_dead(w: nat, h: nat, n: nat)
    ensures
        next_generation(dead_grid(w as int, h as int)) == dead_grid(w as int, h as int),
        generations(dead_grid(w as int, h as int), n) == dead_grid(w as int, h as int),
{
    let g = dead_grid(w as int, h as int);
    assert forall|y: int| 0 <= y < h implies #[trigger] next_generation(g)[y] =~= g[y] by {
        assert(grid_width(g) == w);
    }
    assert(next_generation(g) =~= g);
    lemma_still_life_stays(g, n);
}

/// A live cell with no live neighbour is dead after one tick.
pub proof fn lemma_isolated_cell_dies(g: Seq<Seq<bool>>, x: int, y: int)
    requires
        is_rectangular(g),
        0 <= x < grid_width(g),
        0 <= y < g.len(),
        neighbor_count(g, x, y) == 0,
    ensures
        !next_generation(g)[y][x],
{
}

/// A single live cell on an otherwise dead grid, of any size, dies after one
/// tick.
pub proof fn lemma_lone_cell_dies(w: nat, h: nat, cx: int, cy: int)
    requires
        0 <= cx < w,
        0 <= cy < h,
    ensures
        neighbor_count(lone_cell(w as int, h as int, cx, cy), cx, cy) == 0,
        !next_generation(lone_cell(w as int, h as int, cx, cy))[cy][cx],
{
    let g = lone_cell(w as int, h as int, cx, cy);
    assert(grid_width(g) == w);
}

/// A 2x2 block on an otherwise dead grid of at least 4x4 is a still life.
pub proof fn lemma_block_is_still(w: int, h: int, bx: int, by: int, n: nat)
    requires
        w >= 4,
        h >= 4,
        0 <= bx < w,
        0 <= by < h,
    ensures
        next_generation(block(w, h, bx, by)) == block(w, h, bx, by),
        generations(block(w, h, bx, by), n) == block(w, h, bx, by),
{
    let g = block(w, h, bx, by);
    assert(grid_width(g) == w);
    assert forall|y: int| 0 <= y < h implies #[trigger] next_generation(g)[y] =~= g[y] by {
        assert forall|x: int| 0 <= x < w implies #[trigger] next_generation(g)[y][x] == g[y][x] by {
        }
    }
    assert(next_generation(g) =~= g);
    lemma_still_life_stays(g, n);
}

proof fn lemma_horizontal_cell(w: int, h: int, cx: int, cy: int, x: int, y: int)
    requires
        w >= 4,
        h >= 4,
        0 <= cx < w,
        0 <= cy < h,
        0 <= x < w,
        0 <= y < h,
    ensures
        next_generation(horizontal_line(w, h, cx, cy))[y][x] == vertical_line(w, h, cx, cy)[y][x],
{
    assert(grid_width(horizontal_line(w, h, cx, cy)) == w);
}

proof fn lemma_vertical_cell(w: int, h: int, cx: int, cy: int, x: int, y: int)
    requires
        w >= 4,
        h >= 4,
        0 <= cx < w,
        0 <= cy < h,
        0 <= x < w,
        0 <= y < h,
    ensures
        next_generation(vertical_line(w, h, cx, cy))[y][x] == horizontal_line(w, h, cx, cy)[y][x],
{
    assert(grid_width(vertical_line(w, h, cx, cy)) == w);
}

/// A three-cell line on an otherwise dead grid of at least 4x4 turns from
/// horizontal to vertical and back on each tick, so it matches itself two
/// ticks later.
pub proof fn lemma_blinker_oscillates(w: int, h: int, cx: int, cy: int)
    requires
        w >= 4,
        h >= 4,
        0 <= cx < w,
        0 <= cy < h,
    ensures
        next_generation(horizontal_line(w, h, cx, cy)) == vertical_line(w, h, cx, cy),
        next_generation(vertical_line(w, h, cx, cy)) == horizontal_line(w, h, cx, cy),
        generations(horizontal_line(w, h, cx, cy), 2) == horizontal_line(w, h, cx, cy),
        horizontal_line(w, h, cx, cy) != vertical_line(w, h, cx, cy),
{
    let a = horizontal_line(w, h, cx, cy);
    let b = vertical_line(w, h, cx, cy);
    assert(grid_width(a) == w && grid_width(b) == w);
    assert forall|y: int| 0 <= y < h implies #[trigger] next_generation(a)[y] =~= b[y] by {
        assert forall|x: int| 0 <= x < w implies #[trigger] next_generation(a)[y][x] == b[y][x] by {
            lemma_horizontal_cell(w, h, cx, cy, x, y);
        }
    }
    assert(next_generation(a) =~= b);
    assert forall|y: int| 0 <= y < h implies #[trigger] next_generation(b)[y] =~= a[y] by {
        assert forall|x: int| 0 <= x < w implies #[trigger] next_generation(b)[y][x] == a[y][x] by {
            lemma_vertical_cell(w, h, cx, cy, x, y);
        }
    }
    assert(next_generation(b) =~= a);
    assert(generations(a, 1) == next_generation(generations(a, 0)));
    assert(generations(a, 2) == next_generation(generations(a, 1)));
    assert(a[cy][wrap_next(cx, w)] != b[cy][wrap_next(cx, w)]);
}

} // verus!
