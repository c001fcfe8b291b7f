//! The mathematical model of a generation: a sequence of rows of cells.

use vstd::prelude::*;

verus! {

/// Number of columns of a generation (zero for a generation without rows).
pub open spec fn grid_width(g: Seq<Seq<bool>>) -> int {
    if g.len() > 0 {
        g[0].len() as int
    } else {
        0
    }
}

/// Every row has the same length.
pub open spec fn is_rectangular(g: Seq<Seq<bool>>) -> bool {
    forall|y: int| 0 <= y < g.len() ==> #[trigger] g[y].len() == grid_width(g)
}

/// The coordinate before `i` on an axis of length `n`, wrapping at the edge.
pub open spec fn wrap_prev(i: int, n: int) -> int {
    if i == 0 {
        n - 1
    } else {
        i - 1
    }
}

/// The coordinate after `i` on an axis of length `n`, wrapping at the edge.
pub open spec fn wrap_next(i: int, n: int) -> int {
    if i == n - 1 {
        0
    } else {
        i + 1
    }
}

/// Coordinate `k` (0, 1 or 2) of the three-wide window centred on `i`.
pub open spec fn window(k: int, i: int, n: int) -> int {
    if k == 0 {
        wrap_prev(i, n)
    } else if k == 1 {
        i
    } else {
        wrap_next(i, n)
    }
}

/// One sampled position `(sx, sy)` counts for the cell `(x, y)` when it is
/// alive and is not the cell itself.
pub open spec fn sample(g: Seq<Seq<bool>>, sx: int, sy: int, x: int, y: int) -> int {
    if g[sy][sx] && !(sx == x && sy == y) {
        1
    } else {
        0
    }
}

/// The live-neighbour count of `(x, y)`: the eight wrapped positions around it.
pub open spec fn neighbor_count(g: Seq<Seq<bool>>, x: int, y: int) -> int {
    let l = wrap_prev(x, grid_width(g));
    let r = wrap_next(x, grid_width(g));
    let u = wrap_prev(y, g.len() as int);
    let d = wrap_next(y, g.len() as int);
    sample(g, l, u, x, y) + sample(g, x, u, x, y) + sample(g, r, u, x, y) + sample(g, l, y, x, y)
        + sample(g, r, y, x, y) + sample(g, l, d, x, y) + sample(g, x, d, x, y) + sample(
        g,
        r,
        d,
        x,
        y,
    )
}

/// Birth on three neighbours, survival on two or three, death otherwise.
pub open spec fn next_state(alive: bool, count: int) -> bool {
    count == 3 || (count == 2 && alive)
}

/// The generation that follows `g`.
pub open spec fn next_generation(g: Seq<Seq<bool>>) -> Seq<Seq<bool>> {
    Seq::new(
        g.len(),
        |y: int|
            Seq::new(
                grid_width(g) as nat,
                |x: int| next_state(g[y][x], neighbor_count(g, x, y)),
            ),
    )
}

/// The generation reached from `g` after `n` ticks.
pub open spec fn generations(g: Seq<Seq<bool>>, n: nat) -> Seq<Seq<bool>>
    decreases n,
{
    if n == 0 {
        g
    } else {
        next_generation(generations(g, (n - 1) as nat))
    }
}

} // verus!
