use vstd::prelude::*;

use rand_xoshiro::Xoshiro256Plus;

use crate::error::IsingError;
use crate::random::draw_many;
use crate::table::SCALE;

verus! {

/// The draw that stands for the sample `1/2`.
pub const HALF_DRAW: u64 = 4503599627370496;

/// A value that a spin may hold: up (`1`) or down (`-1`).
pub open spec fn is_spin(s: i8) -> bool {
    s == 1 || s == -1
}

/// Mathematical model of a lattice: its shape and its row-major spins.
pub struct Grid {
    pub rows: nat,
    pub cols: nat,
    pub spins: Seq<i8>,
}

impl Grid {
    /// Non-empty, with one spin per site, each of them up or down.
    pub open spec fn wf(self) -> bool {
        &&& self.rows > 0
        &&& self.cols > 0
        &&& self.spins.len() == self.rows * self.cols
        &&& forall|k: int| 0 <= k < self.spins.len() ==> #[trigger] is_spin(self.spins[k])
    }

    pub open spec fn in_bounds(self, i: int, j: int) -> bool {
        0 <= i < self.rows && 0 <= j < self.cols
    }

    /// Row-major position of site `(i, j)`.
    pub open spec fn index(self, i: int, j: int) -> int {
        i * self.cols + j
    }

    pub open spec fn at(self, i: int, j: int) -> i8 {
        self.spins[self.index(i, j)]
    }

    /// Row below `i`, wrapping around the last row.
    pub open spec fn north(self, i: int) -> int {
        (i + 1) % (self.rows as int)
    }

    /// Row above `i`, wrapping around the first row.
    pub open spec fn south(self, i: int) -> int {
        (i - 1 + self.rows) % (self.rows as int)
    }

    /// Column right of `j`, wrapping around the last column.
    pub open spec fn east(self, j: int) -> int {
        (j + 1) % (self.cols as int)
    }

    /// Column left of `j`, wrapping around the first column.
    pub open spec fn west(self, j: int) -> int {
        (j - 1 + self.cols) % (self.cols as int)
    }

    /// Sum of the four spins adjacent to `(i, j)` under periodic boundaries.
    pub open spec fn neighbor_sum(self, i: int, j: int) -> int {
        self.at(self.north(i), j) + self.at(self.south(i), j) + self.at(i, self.east(j)) + self.at(
            i,
            self.west(j),
        )
    }

    /// Centered local energy of `(i, j)` shifted by four: the index of its
    /// acceptance probability.
    pub open spec fn energy_class(self, coupling: int, i: int, j: int) -> int {
        4 + coupling * self.at(i, j) * self.neighbor_sum(i, j)
    }

    /// The grid with the spin at `(i, j)` reversed.
    pub open spec fn flipped(self, i: int, j: int) -> Grid {
        Grid { spins: self.spins.update(self.index(i, j), (-self.at(i, j)) as i8), ..self }
    }

    /// The grid with every spin reversed.
    pub open spec fn negated(self) -> Grid {
        Grid { spins: Seq::new(self.spins.len(), |k: int| (-self.spins[k]) as i8), ..self }
    }

    /// The grid of the given shape with every spin up.
    pub open spec fn all_up(rows: nat, cols: nat) -> Grid {
        Grid { rows, cols, spins: Seq::new(rows * cols, |k: int| 1i8) }
    }
}

/// Spin given to a site by one initialization draw `u`, which stands for the
/// sample `u / 2^53`: up when that sample exceeds one half.
pub open spec fn spin_from_draw(u: u64) -> i8 {
    if u > HALF_DRAW {
        1i8
    } else {
        -1i8
    }
}

/// The grid of the given shape whose `k`-th spin comes from the `k`-th draw.
pub open spec fn grid_from_draws(rows: nat, cols: nat, draws: Seq<u64>) -> Grid {
    Grid { rows, cols, spins: Seq::new(rows * cols, |k: int| spin_from_draw(draws[k])) }
}

/// Every site of `(i, j)` in bounds sits at a position inside the spin sequence.
pub proof fn lemma_index_in_range(rows: int, cols: int, i: int, j: int)
    requires
        0 <= i < rows,
        0 <= j < cols,
    ensures
        0 <= i * cols + j < rows * cols,
{
    assert(0 <= i * cols + j < rows * cols) by (nonlinear_arith)
        requires
            0 <= i < rows,
            0 <= j < cols,
    ;
}

/// How a new lattice's spins are chosen.
#[derive(Debug, Clone, Copy, PartialEq, Eq, Structural)]
pub enum InitMode {
    /// One uniform draw per site: up when the draw exceeds one half.
    Randomized,
    /// Every spin up.
    AllUp,
}

/// A periodic square lattice of up/down spins, stored row by row.
pub struct Lattice {
    rows: usize,
    cols: usize,
    spins: Vec<i8>,
}

impl View for Lattice {
    type V = Grid;

    closed spec fn view(&self) -> Grid {
        Grid { rows: self.rows as nat, cols: self.cols as nat, spins: self.spins@ }
    }
}

impl Lattice {
    pub open spec fn wf(&self) -> bool {
        self@.wf()
    }

    /// A lattice of the given shape, initialized as `mode` says. Only the
    /// randomized mode takes draws from `rng`, one per site in row-major order.
    pub fn new(rows: usize, cols: usize, mode: InitMode, rng: &mut Xoshiro256Plus) -> (r: Result<
        Lattice,
        IsingError,
    >)
        requires
            rows * cols <= usize::MAX,
        ensures
            rows == 0 || cols == 0 <==> r == Err::<Lattice, IsingError>(
                IsingError::InvalidDimensions,
            ),
            rows > 0 && cols > 0 ==> r is Ok,
            r matches Ok(l) ==> l.wf() && l@.rows == rows && l@.cols == cols,
            mode == InitMode::AllUp ==> *final(rng) == *old(rng),
            mode == InitMode::AllUp ==> (r matches Ok(l) ==> l@ == Grid::all_up(
                rows as nat,
                cols as nat,
            )),
            mode == InitMode::Randomized ==> (r matches Ok(l) ==> exists|d: Seq<u64>|
                {
                    &&& d.len() == rows * cols
                    &&& forall|k: int| 0 <= k < d.len() ==> #[trigger] d[k] < SCALE
                    &&& l@ == grid_from_draws(rows as nat, cols as nat, d)
                }),
    {
        match mode {
            InitMode::AllUp => Lattice::all_up(rows, cols),
            InitMode::Randomized => {
                if rows == 0 || cols == 0 {
                    return Err(IsingError::InvalidDimensions);
                }
                let draws = draw_many(rng, rows * cols);
                Lattice::from_draws(rows, cols, &draws)
            },
        }
    }

    /// A lattice of the given shape with every spin up.
    pub fn all_up(rows: usize, cols: usize) -> (r: Result<Lattice, IsingError>)
        requires
            rows * cols <= usize::MAX,
        ensures
            rows == 0 || cols == 0 <==> r == Err::<Lattice, IsingError>(
                IsingError::InvalidDimensions,
            ),
            rows > 0 && cols > 0 ==> r is Ok,
            r matches Ok(l) ==> l.wf() && l@ == Grid::all_up(rows as nat, cols as nat),
    {
        if rows == 0 || cols == 0 {
            return Err(IsingError::InvalidDimensions);
        }
        let n: usize = rows * cols;
        let mut spins: Vec<i8> = Vec::with_capacity(n);
        let mut k: usize = 0;
        while k < n
            invariant
                n == rows * cols,
                k <= n,
                spins@ == Seq::new(k as nat, |x: int| 1i8),
            decreases n - k,
        {
            spins.push(1);
            k += 1;
        }
        let l = Lattice { rows, cols, spins };
        assert(l@.spins =~= Grid::all_up(rows as nat, cols as nat).spins);
        Ok(l)
    }

    /// A lattice whose spins come from one draw per site, in row-major order.
    pub fn from_draws(rows: usize, cols: usize, draws: &Vec<u64>) -> (r: Result<Lattice, IsingError>)
        requires
            draws@.len() == rows * cols,
        ensures
            rows == 0 || cols == 0 <==> r == Err::<Lattice, IsingError>(
                IsingError::InvalidDimensions,
            ),
            rows > 0 && cols > 0 ==> r is Ok,
            r matches Ok(l) ==> l.wf() && l@ == grid_from_draws(rows as nat, cols as nat, draws@),
    {
        if rows == 0 || cols == 0 {
            return Err(IsingError::InvalidDimensions);
        }
        let n: usize = draws.len();
        let mut spins: Vec<i8> = Vec::with_capacity(n);
        let mut k: usize = 0;
        while k < n
            invariant
                n == rows * cols,
                n == draws@.len(),
                k <= n,
                spins@ == Seq::new(k as nat, |x: int| spin_from_draw(draws@[x])),
            decreases n - k,
        {
            let s: i8 = if draws[k] > HALF_DRAW {
                1
            } else {
                -1
            };
            spins.push(s);
            k += 1;
        }
        let l = Lattice { rows, cols, spins };
        assert(l@.spins =~= grid_from_draws(rows as nat, cols as nat, draws@).spins);
        Ok(l)
    }

    pub fn rows(&self) -> (r: usize)
        ensures
            r == self@.rows,
    {
        self.rows
    }

    pub fn cols(&self) -> (r: usize)
        ensures
            r == self@.cols,
    {
        self.cols
    }

    /// Read-only view of the spins, row by row.
    pub fn snapshot(&self) -> (r: &[i8])
        ensures
            r@ == self@.spins,
    {
        self.spins.as_slice()
    }

    /// Position of `(i, j)` in the spin vector.
    fn position(&self, i: usize, j: usize) -> (r: usize)
        requires
            self.wf(),
            self@.in_bounds(i as int, j as int),
        ensures
            r == self@.index(i as int, j as int),
            r < self.spins@.len(),
    {
        let n: usize = self.spins.len();
        proof {
            lemma_index_in_range(self.rows as int, self.cols as int, i as int, j as int);
            assert(i * self.cols <= i * self.cols + j < n);
        }
        i * self.cols + j
    }

    /// Spin at `(i, j)`.
    pub fn spin(&self, i: usize, j: usize) -> (r: i8)
        requires
            self.wf(),
            self@.in_bounds(i as int, j as int),
        ensures
            r == self@.at(i as int, j as int),
            is_spin(r),
    {
        let p = self.position(i, j);
        self.spins[p]
    }

    /// Spins of the four neighbors of `(i, j)` under periodic boundaries,
    /// as `(north, south, east, west)`.
    pub fn neighbors(&self, i: usize, j: usize) -> (r: (i8, i8, i8, i8))
        requires
            self.wf(),
            self@.in_bounds(i as int, j as int),
        ensures
            r.0 == self@.at(self@.north(i as int), j as int),
            r.1 == self@.at(self@.south(i as int), j as int),
            r.2 == self@.at(i as int, self@.east(j as int)),
            r.3 == self@.at(i as int, self@.west(j as int)),
    {
        let north: usize = (i + 1) % self.rows;
        let south: usize = if i == 0 {
            self.rows - 1
        } else {
            i - 1
        };
        let east: usize = (j + 1) % self.cols;
        let west: usize = if j == 0 {
            self.cols - 1
        } else {
            j - 1
        };
        proof {
            let rows = self.rows as int;
            let cols = self.cols as int;
            if i == 0 {
                vstd::arithmetic::div_mod::lemma_fundamental_div_mod_converse(i - 1 + rows, rows, 0, rows - 1);
            } else {
                vstd::arithmetic::div_mod::lemma_fundamental_div_mod_converse(i - 1 + rows, rows, 1, i - 1);
            }
            if j == 0 {
                vstd::arithmetic::div_mod::lemma_fundamental_div_mod_converse(j - 1 + cols, cols, 0, cols - 1);
            } else {
                vstd::arithmetic::div_mod::lemma_fundamental_div_mod_converse(j - 1 + cols, cols, 1, j - 1);
            }
        }
        (self.spin(north, j), self.spin(south, j), self.spin(i, east), self.spin(i, west))
    }

    /// Index into the acceptance table for `(i, j)`:
    /// `4 + coupling * site * (north + south + east + west)`.
    pub fn local_energy_class(&self, i: usize, j: usize, coupling: i8) -> (r: usize)
        requires
            self.wf(),
            self@.in_bounds(i as int, j as int),
            -1 <= coupling <= 1,
        ensures
            r == self@.energy_class(coupling as int, i as int, j as int),
            r <= 8,
    {
        let (n, s, e, w) = self.neighbors(i, j);
        let site = self.spin(i, j);
        proof {
            let g = self@;
            lemma_site_is_spin(g, g.north(i as int), j as int);
            lemma_site_is_spin(g, g.south(i as int), j as int);
            lemma_site_is_spin(g, i as int, g.east(j as int));
            lemma_site_is_spin(g, i as int, g.west(j as int));
            lemma_energy_class_range(g, coupling as int, i as int, j as int);
        }
        let sum: i8 = n + s + e + w;
        assert(-1 <= coupling * site <= 1) by (nonlinear_arith)
            requires
                -1 <= coupling <= 1,
                site == 1 || site == -1,
        ;
        let en: i8 = coupling * site * sum;
        (4 + en) as usize
    }

    /// Reverses the spin at `(i, j)`.
    pub fn flip(&mut self, i: usize, j: usize)
        requires
            old(self).wf(),
            old(self)@.in_bounds(i as int, j as int),
        ensures
            final(self).wf(),
            final(self)@ == old(self)@.flipped(i as int, j as int),
    {
        let p = self.position(i, j);
        let s = self.spins[p];
        proof {
            lemma_site_is_spin(self@, i as int, j as int);
        }
        self.spins.set(p, -s);
        assert(self@.spins =~= old(self)@.flipped(i as int, j as int).spins);
        assert forall|k: int| 0 <= k < self@.spins.len() implies #[trigger] is_spin(self@.spins[k]) by {
            if k != p as int {
                assert(is_spin(old(self)@.spins[k]));
            }
        }
    }
}

/// On a well-formed grid, with a coupling of at most one in size, the energy
/// class of every site lies in `[0, 8]`.
pub proof fn lemma_energy_class_range(g: Grid, coupling: int, i: int, j: int)
    requires
        g.wf(),
        g.in_bounds(i, j),
        -1 <= coupling <= 1,
    ensures
        0 <= g.energy_class(coupling, i, j) <= 8,
{
    lemma_site_is_spin(g, g.north(i), j);
    lemma_site_is_spin(g, g.south(i), j);
    lemma_site_is_spin(g, i, g.east(j));
    lemma_site_is_spin(g, i, g.west(j));
    lemma_site_is_spin(g, i, j);
    let site = g.at(i, j) as int;
    let sum = g.neighbor_sum(i, j);
    assert(-4 <= sum <= 4);
    assert(-4 <= coupling * site * sum <= 4) by (nonlinear_arith)
        requires
            -1 <= coupling <= 1,
            site == 1 || site == -1,
            -4 <= sum <= 4,
    ;
}

/// Every site of a well-formed grid, including the wrapped neighbors, holds
/// an up or down spin.
pub proof fn lemma_site_is_spin(g: Grid, i: int, j: int)
    requires
        g.wf(),
        g.in_bounds(i, j),
    ensures
        is_spin(g.at(i, j)),
{
    lemma_index_in_range(g.rows as int, g.cols as int, i, j);
}

} // verus!
