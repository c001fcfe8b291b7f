//! The grid of cells, its wrap-around neighbourhoods, and the tick.

use vstd::prelude::*;
use crate::rules::{grid_width, neighbor_count, next_generation, next_state, window, wrap_next, wrap_prev};

verus! {

#[verifier::external_type_specification]
#[verifier::external_body]
pub struct ExRandError(rand::Error);

#[verifier::external_type_specification]
#[verifier::external_body]
pub struct ExStdRng(rand::rngs::StdRng);

/// Relies on rand's SeedableRng::from_rng for StdRng, given rand::rngs::OsRng:
/// it seeds the generator from the operating system's random source, or
/// returns the error that try_fill_bytes met.
#[verifier::external_body]
fn seeded_generator() -> (r: Result<rand::rngs::StdRng, rand::Error>) {
    <rand::rngs::StdRng as rand::SeedableRng>::from_rng(rand::rngs::OsRng)
}

/// Relies on rand::Rng::gen::<bool> on StdRng: one uniformly drawn boolean;
/// nothing is promised of it.
#[verifier::external_body]
fn draw_bool(rng: &mut rand::rngs::StdRng) -> bool {
    rand::Rng::gen::<bool>(rng)
}

/// What can go wrong when a grid is made or read.
#[derive(Clone, Copy, Debug, PartialEq, Eq, Structural)]
pub enum LifeError {
    /// A grid needs at least one row and one column.
    InvalidDimensions,
    /// A coordinate lies outside the grid.
    IndexOutOfRange,
    /// The operating system's random source could not be read.
    RandomSourceFailed,
}

/// One row of cells.
#[derive(Clone)]
pub struct LineLand {
    pub size: usize,
    pub particles: Vec<bool>,
}

/// A toroidal grid of `size` rows of `row_length` cells each.
#[derive(Clone)]
pub struct FlatLand {
    pub size: usize,
    pub row_length: usize,
    pub rows: Vec<LineLand>,
}

/// One sampled position of a neighbourhood and the state found there.
#[derive(Copy, Clone)]
pub struct Neighbor {
    pub x: usize,
    pub y: usize,
    pub live: bool,
}

/// The 3x3 window around a cell, indexed `[row][column]`, with its live count.
#[derive(Copy, Clone)]
pub struct Neighborhood {
    pub neighbors: [[Neighbor; 3]; 3],
    pub live_neighbors: u8,
}

/// The number of positions of a 3x3 window before row `i`, column `j`
/// (row by row) that count toward the cell `(x, y)`.
pub open spec fn window_count(w: Seq<[Neighbor; 3]>, x: int, y: int, i: int, j: int) -> int
    decreases i, j,
    when 0 <= i && 0 <= j
{
    if j > 0 {
        window_count(w, x, y, i, j - 1) + w[i]@[j - 1].tally(x, y)
    } else if i > 0 {
        window_count(w, x, y, i - 1, 3)
    } else {
        0
    }
}

/// A full window's count is the sum over its nine positions.
proof fn lemma_window_count_unfold(w: Seq<[Neighbor; 3]>, x: int, y: int)
    ensures
        window_count(w, x, y, 3, 0) == w[0]@[0].tally(x, y) + w[0]@[1].tally(x, y) + w[0]@[2].tally(
            x,
            y,
        ) + w[1]@[0].tally(x, y) + w[1]@[1].tally(x, y) + w[1]@[2].tally(x, y) + w[2]@[0].tally(x, y)
            + w[2]@[1].tally(x, y) + w[2]@[2].tally(x, y),
{
    reveal_with_fuel(window_count, 13);
}

/// The number of positions of the window that count toward the cell `(x, y)`.
fn count_live(neighbors: &[[Neighbor; 3]; 3], x: usize, y: usize) -> (r: u8)
    ensures
        r == window_count(neighbors@, x as int, y as int, 3, 0),
{
    let mut live_neighbors: u8 = 0;
    for i in 0..3usize
        invariant
            live_neighbors == window_count(neighbors@, x as int, y as int, i as int, 0),
            live_neighbors <= 3 * i,
    {
        for j in 0..3usize
            invariant
                i < 3,
                live_neighbors == window_count(neighbors@, x as int, y as int, i as int, j as int),
                live_neighbors <= 3 * i + j,
        {
            let neighbor = neighbors[i][j];
            if neighbor.live && !(neighbor.x == x && neighbor.y == y) {
                live_neighbors += 1;
            }
        }
    }
    live_neighbors
}

/// A window sampled from `g` around `(x, y)` counts what the rule counts.
proof fn lemma_window_matches(w: Seq<[Neighbor; 3]>, g: Seq<Seq<bool>>, x: int, y: int)
    requires
        w.len() == 3,
        forall|i: int, j: int|
            0 <= i < 3 && 0 <= j < 3 ==> {
                let n = #[trigger] w[i]@[j];
                &&& n.x == window(j, x, grid_width(g))
                &&& n.y == window(i, y, g.len() as int)
                &&& n.live == g[n.y as int][n.x as int]
            },
    ensures
        window_count(w, x, y, 3, 0) == neighbor_count(g, x, y),
{
    lemma_window_count_unfold(w, x, y);
}

/// The generation of `h` rows of `w` cells that takes its cells, column by
/// column, from `draws`: the cell `(x, y)` takes `draws[x * h + y]`.
pub open spec fn filled(h: int, w: int, draws: Seq<bool>) -> Seq<Seq<bool>> {
    Seq::new(h as nat, |y: int| Seq::new(w as nat, |x: int| draws[x * h + y]))
}

/// Sizes that a grid can have: both positive, with a cell count that fits
/// in `usize`.
#[verifier::opaque]
pub open spec fn valid_dimensions(y_size: int, x_size: int) -> bool {
    y_size > 0 && x_size > 0 && y_size * x_size <= usize::MAX
}

proof fn lemma_flat_index(a: int, b: int, na: int, nb: int)
    requires
        0 <= a < na,
        0 <= b < nb,
    ensures
        a * nb + b < na * nb,
        a * nb + nb == (a + 1) * nb,
        0 <= a * nb,
        na * nb == nb * na,
{
    assert(a * nb + b < na * nb) by (nonlinear_arith)
        requires
            0 <= a < na,
            0 <= b < nb,
    ;
    assert(a * nb + nb == (a + 1) * nb) by (nonlinear_arith);
    assert(0 <= a * nb) by (nonlinear_arith)
        requires
            0 <= a,
            0 <= b < nb,
    ;
    assert(na * nb == nb * na) by (nonlinear_arith);
}

impl View for LineLand {
    type V = Seq<bool>;

    open spec fn view(&self) -> Seq<bool> {
        self.particles@
    }
}

impl View for FlatLand {
    type V = Seq<Seq<bool>>;

    open spec fn view(&self) -> Seq<Seq<bool>> {
        self.rows@.map_values(|r: LineLand| r.particles@)
    }
}

impl Neighbor {
    pub fn new(live: bool, x: usize, y: usize) -> (r: Neighbor)
        ensures
            r.live == live,
            r.x == x,
            r.y == y,
    {
        Neighbor { x, y, live }
    }

    /// The neighbour counts toward the cell `(x, y)`: it is alive and is not
    /// that cell.
    pub open spec fn counts_for(&self, x: int, y: int) -> bool {
        self.live && !(self.x == x && self.y == y)
    }

    /// One if the neighbour counts toward `(x, y)`, zero otherwise.
    pub open spec fn tally(&self, x: int, y: int) -> int {
        if self.counts_for(x, y) {
            1
        } else {
            0
        }
    }
}

impl LineLand {
    /// A row of `size` dead cells.
    pub fn new(size: usize) -> (r: LineLand)
        ensures
            r.size == size,
            r@ == Seq::new(size as nat, |i: int| false),
    {
        let mut particles: Vec<bool> = Vec::with_capacity(size);
        for i in 0..size
            invariant
                particles@ == Seq::new(i as nat, |k: int| false),
        {
            particles.push(false);
        }
        LineLand { size, particles }
    }
}

impl FlatLand {
    /// Rows agree with the recorded dimensions.
    pub open spec fn wf(&self) -> bool {
        &&& valid_dimensions(self.size as int, self.row_length as int)
        &&& self.rows@.len() == self.size
        &&& forall|y: int|
            0 <= y < self.size ==> (#[trigger] self.rows@[y]).size == self.row_length
                && self.rows@[y].particles@.len() == self.row_length
    }

    /// A grid of `y_size` rows of `x_size` dead cells, or `InvalidDimensions`
    /// when a size is zero or the cell count does not fit in `usize`.
    pub fn new(y_size: usize, x_size: usize) -> (r: Result<FlatLand, LifeError>)
        ensures
            !valid_dimensions(y_size as int, x_size as int) ==> r == Err::<FlatLand, LifeError>(
                LifeError::InvalidDimensions,
            ),
            valid_dimensions(y_size as int, x_size as int) ==> r is Ok && {
                let g = r->Ok_0;
                &&& g.wf()
                &&& g.size == y_size
                &&& g.row_length == x_size
                &&& forall|y: int, x: int|
                    0 <= y < y_size && 0 <= x < x_size ==> !#[trigger] g@[y][x]
            },
    {
        proof {
            reveal(valid_dimensions);
        }
        if y_size == 0 || x_size == 0 || y_size.checked_mul(x_size).is_none() {
            return Err(LifeError::InvalidDimensions);
        }
        Ok(FlatLand::blank(y_size, x_size))
    }

    /// A grid of dead cells, of sizes already known to be valid.
    fn blank(y_size: usize, x_size: usize) -> (r: FlatLand)
        requires
            valid_dimensions(y_size as int, x_size as int),
        ensures
            r.wf(),
            r.size == y_size,
            r.row_length == x_size,
            forall|y: int, x: int| 0 <= y < y_size && 0 <= x < x_size ==> !#[trigger] r@[y][x],
    {
        let mut rows: Vec<LineLand> = Vec::with_capacity(y_size);
        for i in 0..y_size
            invariant
                rows@.len() == i,
                forall|y: int|
                    0 <= y < i ==> (#[trigger] rows@[y]).size == x_size && rows@[y]@ == Seq::new(
                        x_size as nat,
                        |k: int| false,
                    ),
        {
            rows.push(LineLand::new(x_size));
        }
        FlatLand { size: y_size, row_length: x_size, rows }
    }

    /// The state of the cell in column `x` of row `y`.
    pub fn get_particle(&self, x: usize, y: usize) -> (r: bool)
        requires
            self.wf(),
            x < self.row_length,
            y < self.size,
        ensures
            r == self@[y as int][x as int],
    {
        self.rows[y].particles[x]
    }

    /// Sets the cell in column `x` of row `y`, leaving every other cell as it was.
    pub fn set_particle(&mut self, x: usize, y: usize, value: bool)
        requires
            old(self).wf(),
            x < old(self).row_length,
            y < old(self).size,
        ensures
            final(self).wf(),
            final(self).size == old(self).size,
            final(self).row_length == old(self).row_length,
            final(self)@ == old(self)@.update(y as int, old(self)@[y as int].update(x as int, value)),
    {
        self.rows[y].particles[x] = value;
        assert(self@ =~= old(self)@.update(y as int, old(self)@[y as int].update(x as int, value)));
    }

    /// The 3x3 window around `(x, y)`, wrapping at every edge, and the number
    /// of live positions in it other than `(x, y)` itself.
    fn get_neighborhood(&self, x: usize, y: usize) -> (r: Neighborhood)
        requires
            self.wf(),
            x < self.row_length,
            y < self.size,
        ensures
            r.live_neighbors == neighbor_count(self@, x as int, y as int),
            forall|i: int, j: int|
                0 <= i < 3 && 0 <= j < 3 ==> {
                    let n = #[trigger] r.neighbors@[i]@[j];
                    &&& n.x == window(j, x as int, self.row_length as int)
                    &&& n.y == window(i, y as int, self.size as int)
                    &&& n.live == self@[n.y as int][n.x as int]
                },
    {
        let lxdim = if x > 0 { x - 1 } else { self.row_length - 1 };
        let uxdim = if x + 1 == self.row_length { 0 } else { x + 1 };
        let lydim = if y > 0 { y - 1 } else { self.size - 1 };
        let uydim = if y + 1 == self.size { 0 } else { y + 1 };

        let neighbors = [
            [
                Neighbor::new(self.get_particle(lxdim, lydim), lxdim, lydim),
                Neighbor::new(self.get_particle(x, lydim), x, lydim),
                Neighbor::new(self.get_particle(uxdim, lydim), uxdim, lydim),
            ],
            [
                Neighbor::new(self.get_particle(lxdim, y), lxdim, y),
                Neighbor::new(self.get_particle(x, y), x, y),
                Neighbor::new(self.get_particle(uxdim, y), uxdim, y),
            ],
            [
                Neighbor::new(self.get_particle(lxdim, uydim), lxdim, uydim),
                Neighbor::new(self.get_particle(x, uydim), x, uydim),
                Neighbor::new(self.get_particle(uxdim, uydim), uxdim, uydim),
            ],
        ];

        let ghost g = self@;
        let ghost (w, h) = (self.row_length as int, self.size as int);
        assert(neighbors@[0]@[0] == Neighbor { x: lxdim, y: lydim, live: g[lydim as int][lxdim as int] });
        assert(neighbors@[0]@[1] == Neighbor { x: x, y: lydim, live: g[lydim as int][x as int] });
        assert(neighbors@[0]@[2] == Neighbor { x: uxdim, y: lydim, live: g[lydim as int][uxdim as int] });
        assert(neighbors@[1]@[0] == Neighbor { x: lxdim, y: y, live: g[y as int][lxdim as int] });
        assert(neighbors@[1]@[1] == Neighbor { x: x, y: y, live: g[y as int][x as int] });
        assert(neighbors@[1]@[2] == Neighbor { x: uxdim, y: y, live: g[y as int][uxdim as int] });
        assert(neighbors@[2]@[0] == Neighbor { x: lxdim, y: uydim, live: g[uydim as int][lxdim as int] });
        assert(neighbors@[2]@[1] == Neighbor { x: x, y: uydim, live: g[uydim as int][x as int] });
        assert(neighbors@[2]@[2] == Neighbor { x: uxdim, y: uydim, live: g[uydim as int][uxdim as int] });
        assert(grid_width(g) == w);
        assert(lxdim == wrap_prev(x as int, w) && uxdim == wrap_next(x as int, w));
        assert(lydim == wrap_prev(y as int, h) && uydim == wrap_next(y as int, h));
        assert forall|i: int, j: int| 0 <= i < 3 && 0 <= j < 3 implies {
            let n = #[trigger] neighbors@[i]@[j];
            &&& n.x == window(j, x as int, w)
            &&& n.y == window(i, y as int, h)
            &&& n.live == g[n.y as int][n.x as int]
        } by {
            if i == 0 {
                if j == 0 {} else if j == 1 {} else {}
            } else if i == 1 {
                if j == 0 {} else if j == 1 {} else {}
            } else {
                if j == 0 {} else if j == 1 {} else {}
            }
        }
        proof {
            lemma_window_matches(neighbors@, g, x as int, y as int);
        }
        let live_neighbors = count_live(&neighbors, x, y);
        Neighborhood { neighbors, live_neighbors }
    }

    /// The generation that follows this one, in a grid of its own.
    pub fn successor(&self) -> (r: FlatLand)
        requires
            self.wf(),
        ensures
            r.wf(),
            r.size == self.size,
            r.row_length == self.row_length,
            r@ == next_generation(self@),
    {
        let ghost g = self@;
        let ghost next = next_generation(g);
        let mut new_state = FlatLand::blank(self.size, self.row_length);
        for x in 0..self.row_length
            invariant
                self.wf(),
                g == self@,
                next == next_generation(g),
                new_state.wf(),
                new_state.size == self.size,
                new_state.row_length == self.row_length,
                forall|yy: int, xx: int|
                    0 <= yy < self.size && 0 <= xx < self.row_length ==> #[trigger] new_state@[yy][xx]
                        == if xx < x {
                        next[yy][xx]
                    } else {
                        false
                    },
        {
            for y in 0..self.size
                invariant
                    self.wf(),
                    g == self@,
                    next == next_generation(g),
                    x < self.row_length,
                    new_state.wf(),
                    new_state.size == self.size,
                    new_state.row_length == self.row_length,
                    forall|yy: int, xx: int|
                        0 <= yy < self.size && 0 <= xx < self.row_length ==> #[trigger] new_state@[yy][xx]
                            == if xx < x || (xx == x && yy < y) {
                            next[yy][xx]
                        } else {
                            false
                        },
            {
                let neighbors = self.get_neighborhood(x, y);
                let alive = self.get_particle(x, y);
                if neighbors.live_neighbors == 3 {
                    new_state.set_particle(x, y, true);
                } else if neighbors.live_neighbors == 2 && alive {
                    new_state.set_particle(x, y, true);
                } else {
                    new_state.set_particle(x, y, false);
                }
                assert(grid_width(g) == self.row_length);
                assert(next[y as int][x as int] == next_state(alive, neighbors.live_neighbors as int));
            }
        }
        assert forall|yy: int| 0 <= yy < self.size implies #[trigger] new_state@[yy] =~= next[yy] by {
            assert(grid_width(g) == self.row_length);
        }
        assert(new_state@ =~= next);
        new_state
    }

    /// Advances the grid by one generation.
    pub fn tick(&mut self)
        requires
            old(self).wf(),
        ensures
            final(self).wf(),
            final(self).size == old(self).size,
            final(self).row_length == old(self).row_length,
            final(self)@ == next_generation(old(self)@),
    {
        let new_state = self.successor();
        self.rows = new_state.rows;
    }

    /// Sets the cells, column by column, to the values of `draws`: the cell
    /// `(x, y)` takes `draws[x * size + y]`.
    pub fn fill(&mut self, draws: &Vec<bool>)
        requires
            old(self).wf(),
            draws@.len() == old(self).size * old(self).row_length,
        ensures
            final(self).wf(),
            final(self).size == old(self).size,
            final(self).row_length == old(self).row_length,
            final(self)@ == filled(old(self).size as int, old(self).row_length as int, draws@),
    {
        let width = self.row_length;
        let height = self.size;
        let ghost h = height as int;
        proof {
            reveal(valid_dimensions);
            lemma_flat_index(0, 0, width as int, h);
        }
        let mut k: usize = 0;
        for x in 0..width
            invariant
                self.wf(),
                self.size == height,
                self.row_length == width,
                draws@.len() == width * height,
                h == height,
                0 < h,
                k == x * h,
                forall|yy: int, xx: int|
                    0 <= xx < x && 0 <= yy < h ==> #[trigger] self@[yy][xx] == draws@[xx * h + yy],
        {
            for y in 0..height
                invariant
                    self.wf(),
                    self.size == height,
                    self.row_length == width,
                    draws@.len() == width * height,
                    x < width,
                    h == height,
                    k == x * h + y,
                    forall|yy: int, xx: int|
                        (0 <= xx < x && 0 <= yy < h) || (xx == x && 0 <= yy < y) ==> #[trigger] self@[yy][xx]
                            == draws@[xx * h + yy],
            {
                proof {
                    reveal(valid_dimensions);
                    lemma_flat_index(x as int, y as int, width as int, h);
                }
                self.set_particle(x, y, draws[k]);
                k = k + 1;
            }
            proof {
                lemma_flat_index(x as int, 0, width as int, h);
            }
        }
        let ghost want = filled(h, width as int, draws@);
        assert forall|yy: int| 0 <= yy < h implies #[trigger] self@[yy] =~= want[yy] by {}
        assert(self@ =~= want);
    }

    /// Gives every cell an independently drawn state, from a generator seeded
    /// by the operating system's random source; the draws are taken column by
    /// column and placed by `fill`. When the source fails, the grid is left as
    /// it was.
    pub fn randomize(&mut self) -> (r: Result<(), LifeError>)
        requires
            old(self).wf(),
        ensures
            final(self).wf(),
            final(self).size == old(self).size,
            final(self).row_length == old(self).row_length,
            r is Ok ==> exists|draws: Seq<bool>|
                draws.len() == old(self).size * old(self).row_length && final(self)@ == #[trigger] filled(
                    old(self).size as int,
                    old(self).row_length as int,
                    draws,
                ),
            r is Err ==> r == Err::<(), LifeError>(LifeError::RandomSourceFailed) && *final(self)
                == *old(self),
    {
        let mut rng = match seeded_generator() {
            Ok(g) => g,
            Err(_) => return Err(LifeError::RandomSourceFailed),
        };
        proof {
            reveal(valid_dimensions);
        }
        let width = self.row_length;
        let height = self.size;
        let mut draws: Vec<bool> = Vec::with_capacity(width * height);
        assert(0 * height == 0);
        for x in 0..width
            invariant
                width * height <= usize::MAX,
                0 < height,
                draws@.len() == x * height,
        {
            for y in 0..height
                invariant
                    x < width,
                    width * height <= usize::MAX,
                    draws@.len() == x * height + y,
            {
                proof {
                    lemma_flat_index(x as int, y as int, width as int, height as int);
                }
                draws.push(draw_bool(&mut rng));
            }
            proof {
                lemma_flat_index(x as int, 0, width as int, height as int);
            }
        }
        proof {
            lemma_flat_index(0, 0, width as int, height as int);
        }
        self.fill(&draws);
        assert(self@ == filled(old(self).size as int, old(self).row_length as int, draws@));
        Ok(())
    }

    /// A grid of `y_size` rows of `x_size` randomly drawn cells.
    pub fn initialize(y_size: usize, x_size: usize) -> (r: Result<FlatLand, LifeError>)
        ensures
            !valid_dimensions(y_size as int, x_size as int) ==> r == Err::<FlatLand, LifeError>(
                LifeError::InvalidDimensions,
            ),
            valid_dimensions(y_size as int, x_size as int) ==> r is Err ==> r == Err::<
                FlatLand,
                LifeError,
            >(LifeError::RandomSourceFailed),
            r is Ok ==> {
                let g = r->Ok_0;
                &&& g.wf()
                &&& g.size == y_size
                &&& g.row_length == x_size
                &&& exists|draws: Seq<bool>|
                    draws.len() == y_size * x_size && g@ == #[trigger] filled(
                        y_size as int,
                        x_size as int,
                        draws,
                    )
            },
    {
        let mut world = FlatLand::new(y_size, x_size)?;
        world.randomize()?;
        Ok(world)
    }

    /// The state of the cell in column `x` of row `y`, or `IndexOutOfRange`
    /// when the coordinate lies outside the grid.
    pub fn cell_state(&self, x: usize, y: usize) -> (r: Result<bool, LifeError>)
        requires
            self.wf(),
        ensures
            (x < self.row_length && y < self.size) ==> r == Ok::<bool, LifeError>(
                self@[y as int][x as int],
            ),
            !(x < self.row_length && y < self.size) ==> r == Err::<bool, LifeError>(
                LifeError::IndexOutOfRange,
            ),
    {
        if x < self.row_length && y < self.size {
            Ok(self.get_particle(x, y))
        } else {
            Err(LifeError::IndexOutOfRange)
        }
    }

    /// Whether this generation equals `earlier` cell for cell; used against the
    /// generation two ticks back, it tells a still life or a period-2
    /// oscillator.
    pub fn has_converged(&self, earlier: &FlatLand) -> (r: bool)
        requires
            self.wf(),
            earlier.wf(),
        ensures
            r == (self@ == earlier@),
    {
        proof {
            reveal(valid_dimensions);
        }
        if self.size != earlier.size {
            assert(self@.len() != earlier@.len());
            return false;
        }
        if self.row_length != earlier.row_length {
            assert(self@[0].len() != earlier@[0].len());
            return false;
        }
        for y in 0..self.size
            invariant
                self.wf(),
                earlier.wf(),
                self.size == earlier.size,
                self.row_length == earlier.row_length,
                forall|yy: int| 0 <= yy < y ==> #[trigger] self@[yy] == earlier@[yy],
        {
            for x in 0..self.row_length
                invariant
                    self.wf(),
                    earlier.wf(),
                    y < self.size,
                    self.size == earlier.size,
                    self.row_length == earlier.row_length,
                    forall|yy: int| 0 <= yy < y ==> #[trigger] self@[yy] == earlier@[yy],
                    forall|xx: int| 0 <= xx < x ==> #[trigger] self@[y as int][xx] == earlier@[y as int][xx],
            {
                if self.get_particle(x, y) != earlier.get_particle(x, y) {
                    return false;
                }
            }
            assert(self@[y as int] =~= earlier@[y as int]);
        }
        assert(self@ =~= earlier@);
        true
    }
}

} // verus!
