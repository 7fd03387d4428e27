use rand_xoshiro::Xoshiro256Plus;
use vstd::prelude::*;

use crate::lattice::{is_spin, lemma_energy_class_range, lemma_index_in_range, Grid, Lattice};
use crate::random::draw_many;
use crate::table::{lemma_table_monotone, table_wf, Table, CLASSES, SCALE};

verus! {

/// Row and column of the `m`-th site in row-major order.
pub open spec fn row_of(g: Grid, m: int) -> int {
    m / (g.cols as int)
}

pub open spec fn col_of(g: Grid, m: int) -> int {
    m % (g.cols as int)
}

/// Metropolis decision at the `m`-th site, given draw `u`: the spin flips
/// exactly when `u` is below the threshold of the site's energy class.
pub open spec fn visit(g: Grid, t: Seq<u64>, coupling: int, m: int, u: u64) -> Grid {
    let i = row_of(g, m);
    let j = col_of(g, m);
    if (u as int) < t[g.energy_class(coupling, i, j)] {
        g.flipped(i, j)
    } else {
        g
    }
}

/// The grid after the first `m` sites of a sweep were visited in row-major
/// order, the `x`-th of them with draw `draws[x]`.
pub open spec fn sweep_prefix(g: Grid, t: Seq<u64>, coupling: int, draws: Seq<u64>, m: nat) -> Grid
    decreases m,
{
    if m == 0 {
        g
    } else {
        visit(
            sweep_prefix(g, t, coupling, draws, (m - 1) as nat),
            t,
            coupling,
            m - 1,
            draws[m - 1],
        )
    }
}

/// The grid after one full sweep.
pub open spec fn sweep(g: Grid, t: Seq<u64>, coupling: int, draws: Seq<u64>) -> Grid {
    sweep_prefix(g, t, coupling, draws, g.rows * g.cols)
}

/// The grid after one sweep per element of `rounds`, each with its draws.
pub open spec fn run_rounds(g: Grid, t: Seq<u64>, coupling: int, rounds: Seq<Seq<u64>>) -> Grid
    decreases rounds.len(),
{
    if rounds.len() == 0 {
        g
    } else {
        sweep(run_rounds(g, t, coupling, rounds.drop_last()), t, coupling, rounds.last())
    }
}

/// Draw sequences for `sweeps` sweeps of an `n`-site lattice, each draw a
/// sample in `[0, 1)`.
pub open spec fn valid_rounds(rounds: Seq<Seq<u64>>, sweeps: nat, n: nat) -> bool {
    &&& rounds.len() == sweeps
    &&& forall|s: int| 0 <= s < sweeps ==> (#[trigger] rounds[s]).len() == n
    &&& forall|s: int, x: int| 0 <= s < sweeps && 0 <= x < n ==> #[trigger] rounds[s][x] < SCALE
}

/// Position `i * cols + j` of an in-bounds site gives back its row and column.
pub proof fn lemma_row_col(g: Grid, i: int, j: int)
    requires
        g.cols > 0,
        0 <= i,
        0 <= j < g.cols,
    ensures
        row_of(g, i * g.cols + j) == i,
        col_of(g, i * g.cols + j) == j,
{
    vstd::arithmetic::div_mod::lemma_fundamental_div_mod_converse(
        i * g.cols + j,
        g.cols as int,
        i,
        j,
    );
}

/// Visiting sites never changes the lattice's shape.
pub proof fn lemma_sweep_prefix_shape(g: Grid, t: Seq<u64>, coupling: int, draws: Seq<u64>, m: nat)
    ensures
        sweep_prefix(g, t, coupling, draws, m).rows == g.rows,
        sweep_prefix(g, t, coupling, draws, m).cols == g.cols,
    decreases m,
{
    if m > 0 {
        lemma_sweep_prefix_shape(g, t, coupling, draws, (m - 1) as nat);
    }
}

/// One Metropolis sweep that takes its draws from `draws`: sites are visited
/// row by row, each row from left to right, and a flip is applied at once, so
/// later sites see it.
pub fn sweep_with_draws(lattice: &mut Lattice, table: &Table, draws: &Vec<u64>, coupling: i8)
    requires
        old(lattice).wf(),
        table.wf(),
        draws@.len() == old(lattice)@.rows * old(lattice)@.cols,
        -1 <= coupling <= 1,
    ensures
        final(lattice).wf(),
        final(lattice)@ == sweep(old(lattice)@, table@, coupling as int, draws@),
{
    let rows = lattice.rows();
    let cols = lattice.cols();
    let total: usize = draws.len();
    let ghost g0 = lattice@;
    let mut i: usize = 0;
    while i < rows
        invariant
            lattice.wf(),
            table.wf(),
            -1 <= coupling <= 1,
            g0 == old(lattice)@,
            rows == g0.rows,
            cols == g0.cols,
            lattice@.rows == rows,
            lattice@.cols == cols,
            draws@.len() == rows * cols,
            total == rows * cols,
            i <= rows,
            lattice@ == sweep_prefix(g0, table@, coupling as int, draws@, (i * cols) as nat),
        decreases rows - i,
    {
        let mut j: usize = 0;
        while j < cols
            invariant
                lattice.wf(),
                table.wf(),
                -1 <= coupling <= 1,
                g0 == old(lattice)@,
                rows == g0.rows,
                cols == g0.cols,
                lattice@.rows == rows,
                lattice@.cols == cols,
                draws@.len() == rows * cols,
                total == rows * cols,
                i < rows,
                j <= cols,
                lattice@ == sweep_prefix(g0, table@, coupling as int, draws@, (i * cols + j) as nat),
            decreases cols - j,
        {
            proof {
                lemma_index_in_range(rows as int, cols as int, i as int, j as int);
                lemma_row_col(lattice@, i as int, j as int);
            }
            let m: usize = i * cols + j;
            let k = lattice.local_energy_class(i, j, coupling);
            let u = draws[m];
            if u < table.threshold(k) {
                lattice.flip(i, j);
            }
            j += 1;
        }
        proof {
            assert((i + 1) * cols == i * cols + cols) by (nonlinear_arith);
        }
        i += 1;
    }
    proof {
        assert(rows * cols == g0.rows * g0.cols);
    }
}

/// Runs one Metropolis sweep per element of `rounds`, the `s`-th of them with
/// the draws `rounds[s]`.
pub fn run_with_draws(lattice: &mut Lattice, table: &Table, rounds: &Vec<Vec<u64>>, coupling: i8)
    requires
        old(lattice).wf(),
        table.wf(),
        -1 <= coupling <= 1,
        forall|s: int|
            0 <= s < rounds@.len() ==> (#[trigger] rounds@[s])@.len() == old(lattice)@.rows
                * old(lattice)@.cols,
    ensures
        final(lattice).wf(),
        final(lattice)@ == run_rounds(
            old(lattice)@,
            table@,
            coupling as int,
            rounds@.map_values(|r: Vec<u64>| r@),
        ),
{
    let ghost g0 = lattice@;
    let ghost all = rounds@.map_values(|r: Vec<u64>| r@);
    let mut s: usize = 0;
    while s < rounds.len()
        invariant
            lattice.wf(),
            table.wf(),
            -1 <= coupling <= 1,
            g0 == old(lattice)@,
            all == rounds@.map_values(|r: Vec<u64>| r@),
            lattice@.rows == g0.rows,
            lattice@.cols == g0.cols,
            s <= rounds@.len(),
            forall|x: int| 0 <= x < rounds@.len() ==> (#[trigger] rounds@[x])@.len() == g0.rows * g0.cols,
            lattice@ == run_rounds(g0, table@, coupling as int, all.subrange(0, s as int)),
        decreases rounds@.len() - s,
    {
        let ghost before = lattice@;
        sweep_with_draws(lattice, table, &rounds[s], coupling);
        proof {
            lemma_sweep_prefix_shape(before, table@, coupling as int, rounds@[s as int]@, before.rows * before.cols);
            let next = all.subrange(0, s + 1);
            assert(next.drop_last() =~= all.subrange(0, s as int));
            assert(next.last() == rounds@[s as int]@);
        }
        s += 1;
    }
    proof {
        assert(all.subrange(0, rounds@.len() as int) =~= all);
    }
}

/// Runs `sweeps` Metropolis sweeps, taking one uniform draw from `rng` per
/// visited site.
///
/// Whatever the generator hands out, the outcome is the sweep sequence
/// driven by some valid draws, one sweep's worth per sweep.
pub fn run(lattice: &mut Lattice, table: &Table, rng: &mut Xoshiro256Plus, sweeps: usize, coupling: i8)
    requires
        old(lattice).wf(),
        table.wf(),
        -1 <= coupling <= 1,
    ensures
        final(lattice).wf(),
        sweeps == 0 ==> final(lattice)@ == old(lattice)@,
        sweeps == 0 ==> *final(rng) == *old(rng),
        exists|rounds: Seq<Seq<u64>>|
            {
                &&& valid_rounds(rounds, sweeps as nat, old(lattice)@.rows * old(lattice)@.cols)
                &&& final(lattice)@ == run_rounds(old(lattice)@, table@, coupling as int, rounds)
            },
{
    let n: usize = lattice.snapshot().len();
    let ghost g0 = lattice@;
    let ghost mut rounds: Seq<Seq<u64>> = Seq::empty();
    let mut s: usize = 0;
    while s < sweeps
        invariant
            lattice.wf(),
            table.wf(),
            -1 <= coupling <= 1,
            g0 == old(lattice)@,
            n == g0.rows * g0.cols,
            lattice@.rows == g0.rows,
            lattice@.cols == g0.cols,
            s <= sweeps,
            sweeps == 0 ==> *rng == *old(rng),
            valid_rounds(rounds, s as nat, n as nat),
            lattice@ == run_rounds(g0, table@, coupling as int, rounds),
        decreases sweeps - s,
    {
        let draws = draw_many(rng, n);
        let ghost before = lattice@;
        sweep_with_draws(lattice, table, &draws, coupling);
        proof {
            lemma_sweep_prefix_shape(before, table@, coupling as int, draws@, before.rows * before.cols);
            let next = rounds.push(draws@);
            assert(next.drop_last() =~= rounds);
            assert(next.last() == draws@);
            assert forall|x: int, y: int| 0 <= x < s + 1 && 0 <= y < n implies #[trigger] next[x][y] < SCALE by {
                if x < s {
                    assert(next[x] == rounds[x]);
                }
            }
            rounds = next;
        }
        s += 1;
    }
}

/// The `m`-th site in row-major order is in bounds and sits at position `m`.
pub proof fn lemma_site_of(g: Grid, m: int)
    requires
        g.rows > 0,
        g.cols > 0,
        0 <= m < g.rows * g.cols,
    ensures
        g.in_bounds(row_of(g, m), col_of(g, m)),
        g.index(row_of(g, m), col_of(g, m)) == m,
{
    let cols = g.cols as int;
    vstd::arithmetic::div_mod::lemma_fundamental_div_mod(m, cols);
    let i = m / cols;
    let j = m % cols;
    assert(0 <= i < g.rows) by (nonlinear_arith)
        requires
            m == cols * i + j,
            0 <= j < cols,
            0 <= m < g.rows * cols,
    ;
    assert(g.index(i, j) == m) by (nonlinear_arith)
        requires
            m == cols * i + j,
            g.index(i, j) == i * cols + j,
    ;
}

/// Visiting a site keeps every spin up or down and keeps the shape.
pub proof fn lemma_visit_wf(g: Grid, t: Seq<u64>, coupling: int, m: int, u: u64)
    requires
        g.wf(),
        0 <= m < g.rows * g.cols,
    ensures
        visit(g, t, coupling, m, u).wf(),
        visit(g, t, coupling, m, u).rows == g.rows,
        visit(g, t, coupling, m, u).cols == g.cols,
{
    lemma_site_of(g, m);
    let r = g.flipped(row_of(g, m), col_of(g, m));
    assert forall|k: int| 0 <= k < r.spins.len() implies #[trigger] is_spin(r.spins[k]) by {
        assert(is_spin(g.spins[k]));
    }
}

/// A sweep keeps every spin up or down and keeps the shape, whatever the
/// draws.
pub proof fn lemma_sweep_keeps_spins(g: Grid, t: Seq<u64>, coupling: int, draws: Seq<u64>)
    requires
        g.wf(),
    ensures
        sweep(g, t, coupling, draws).wf(),
        sweep(g, t, coupling, draws).rows == g.rows,
        sweep(g, t, coupling, draws).cols == g.cols,
{
    lemma_sweep_prefix_wf(g, t, coupling, draws, g.rows * g.cols);
}

proof fn lemma_sweep_prefix_wf(g: Grid, t: Seq<u64>, coupling: int, draws: Seq<u64>, m: nat)
    requires
        g.wf(),
        m <= g.rows * g.cols,
    ensures
        sweep_prefix(g, t, coupling, draws, m).wf(),
        sweep_prefix(g, t, coupling, draws, m).rows == g.rows,
        sweep_prefix(g, t, coupling, draws, m).cols == g.cols,
    decreases m,
{
    if m > 0 {
        lemma_sweep_prefix_wf(g, t, coupling, draws, (m - 1) as nat);
        lemma_visit_wf(sweep_prefix(g, t, coupling, draws, (m - 1) as nat), t, coupling, m - 1, draws[m - 1]);
    }
}

/// Any number of sweeps keeps every spin up or down and keeps the shape,
/// whatever the draws.
pub proof fn lemma_run_keeps_spins(g: Grid, t: Seq<u64>, coupling: int, rounds: Seq<Seq<u64>>)
    requires
        g.wf(),
    ensures
        run_rounds(g, t, coupling, rounds).wf(),
        run_rounds(g, t, coupling, rounds).rows == g.rows,
        run_rounds(g, t, coupling, rounds).cols == g.cols,
    decreases rounds.len(),
{
    if rounds.len() > 0 {
        lemma_run_keeps_spins(g, t, coupling, rounds.drop_last());
        lemma_sweep_keeps_spins(run_rounds(g, t, coupling, rounds.drop_last()), t, coupling, rounds.last());
    }
}

/// Two runs from the same lattice, with the same table, coupling and recorded
/// draws, end in the same lattice.
pub proof fn lemma_run_deterministic(
    g1: Grid,
    g2: Grid,
    t: Seq<u64>,
    coupling: int,
    rounds1: Seq<Seq<u64>>,
    rounds2: Seq<Seq<u64>>,
)
    requires
        g1 == g2,
        rounds1 == rounds2,
    ensures
        run_rounds(g1, t, coupling, rounds1) == run_rounds(g2, t, coupling, rounds2),
{
}

/// A lattice started all up and run for zero sweeps is still all up.
pub proof fn lemma_all_up_zero_sweeps(rows: nat, cols: nat, t: Seq<u64>, coupling: int, rounds: Seq<Seq<u64>>)
    requires
        rows > 0,
        cols > 0,
        rounds.len() == 0,
    ensures
        run_rounds(Grid::all_up(rows, cols), t, coupling, rounds) == Grid::all_up(rows, cols),
        forall|i: int, j: int|
            0 <= i < rows && 0 <= j < cols ==> #[trigger] run_rounds(Grid::all_up(rows, cols), t, coupling, rounds).at(i, j) == 1,
{
    let g = Grid::all_up(rows, cols);
    assert forall|i: int, j: int| 0 <= i < rows && 0 <= j < cols implies #[trigger] g.at(i, j) == 1 by {
        lemma_index_in_range(rows as int, cols as int, i, j);
    }
}

/// Draw sequences of an `n`-site lattice, one per sweep, of any number of
/// sweeps.
pub open spec fn rounds_sized(rounds: Seq<Seq<u64>>, n: nat) -> bool {
    forall|s: int| 0 <= s < rounds.len() ==> (#[trigger] rounds[s]).len() == n
}

/// Every draw of every sweep is below `bound`.
pub open spec fn rounds_below(rounds: Seq<Seq<u64>>, bound: int) -> bool {
    forall|s: int, x: int|
        0 <= s < rounds.len() && 0 <= x < rounds[s].len() ==> (#[trigger] rounds[s][x]) < bound
}

/// Every draw of every sweep is at least `bound`.
pub open spec fn rounds_at_least(rounds: Seq<Seq<u64>>, bound: int) -> bool {
    forall|s: int, x: int|
        0 <= s < rounds.len() && 0 <= x < rounds[s].len() ==> (#[trigger] rounds[s][x]) >= bound
}

/// A sweep whose every draw is below the smallest threshold of the table
/// flips every site once: the result is the negated lattice. With draws of
/// zero this holds as soon as every acceptance probability is positive.
pub proof fn lemma_accepting_sweep_flips_all(g: Grid, t: Seq<u64>, coupling: int, draws: Seq<u64>)
    requires
        g.wf(),
        table_wf(t),
        -1 <= coupling <= 1,
        draws.len() == g.rows * g.cols,
        forall|x: int| 0 <= x < draws.len() ==> #[trigger] draws[x] < t[CLASSES - 1],
    ensures
        sweep(g, t, coupling, draws) == g.negated(),
{
    let n = g.rows * g.cols;
    lemma_accepting_prefix(g, t, coupling, draws, n);
    assert(sweep(g, t, coupling, draws).spins =~= g.negated().spins);
}

/// The first `m` sites of a grid reversed, the others kept.
pub open spec fn negated_prefix(g: Grid, m: nat) -> Grid {
    Grid {
        spins: Seq::new(
            g.spins.len(),
            |k: int|
                if k < m {
                    (-g.spins[k]) as i8
                } else {
                    g.spins[k]
                },
        ),
        ..g
    }
}

proof fn lemma_accepting_prefix(g: Grid, t: Seq<u64>, coupling: int, draws: Seq<u64>, m: nat)
    requires
        g.wf(),
        table_wf(t),
        -1 <= coupling <= 1,
        draws.len() == g.rows * g.cols,
        forall|x: int| 0 <= x < draws.len() ==> #[trigger] draws[x] < t[CLASSES - 1],
        m <= g.rows * g.cols,
    ensures
        sweep_prefix(g, t, coupling, draws, m) == negated_prefix(g, m),
    decreases m,
{
    if m > 0 {
        let m1 = (m - 1) as nat;
        lemma_accepting_prefix(g, t, coupling, draws, m1);
        let p = negated_prefix(g, m1);
        assert forall|k: int| 0 <= k < p.spins.len() implies #[trigger] is_spin(p.spins[k]) by {
            assert(is_spin(g.spins[k]));
        }
        assert(p.wf());
        lemma_site_of(p, m1 as int);
        let i = row_of(p, m1 as int);
        let j = col_of(p, m1 as int);
        lemma_energy_class_range(p, coupling, i, j);
        lemma_table_monotone(t, p.energy_class(coupling, i, j), CLASSES - 1);
        assert(draws[m1 as int] < t[CLASSES - 1]);
        assert(visit(p, t, coupling, m1 as int, draws[m1 as int]) == p.flipped(i, j));
        assert(p.flipped(i, j).spins =~= negated_prefix(g, m).spins);
    } else {
        assert(negated_prefix(g, 0).spins =~= g.spins);
    }
}

/// Sweeps whose every draw is below the smallest threshold flip every site
/// on each sweep: after an odd number of them the lattice is negated, after
/// an even number it is back where it started.
pub proof fn lemma_accepting_rounds_alternate(g: Grid, t: Seq<u64>, coupling: int, rounds: Seq<Seq<u64>>)
    requires
        g.wf(),
        table_wf(t),
        -1 <= coupling <= 1,
        rounds_sized(rounds, g.rows * g.cols),
        rounds_below(rounds, t[CLASSES - 1] as int),
    ensures
        run_rounds(g, t, coupling, rounds) == if rounds.len() % 2 == 1 {
            g.negated()
        } else {
            g
        },
    decreases rounds.len(),
{
    if rounds.len() > 0 {
        let prev = rounds.drop_last();
        assert forall|s: int| 0 <= s < prev.len() implies (#[trigger] prev[s]).len() == g.rows * g.cols by {
            assert(prev[s] == rounds[s]);
        }
        assert forall|s: int, x: int| 0 <= s < prev.len() && 0 <= x < prev[s].len() implies (
        #[trigger] prev[s][x]) < t[CLASSES - 1] by {
            assert(prev[s] == rounds[s]);
        }
        lemma_accepting_rounds_alternate(g, t, coupling, prev);
        let before = run_rounds(g, t, coupling, prev);
        let neg = g.negated();
        assert forall|k: int| 0 <= k < neg.spins.len() implies #[trigger] is_spin(neg.spins[k]) by {
            assert(is_spin(g.spins[k]));
        }
        assert(before.wf());
        let last = rounds.last();
        assert(last == rounds[rounds.len() - 1]);
        assert forall|x: int| 0 <= x < last.len() implies #[trigger] last[x] < t[CLASSES - 1] by {
            assert(rounds[rounds.len() - 1][x] < t[CLASSES - 1]);
        }
        lemma_accepting_sweep_flips_all(before, t, coupling, last);
        assert forall|k: int| 0 <= k < g.spins.len() implies #[trigger] neg.negated().spins[k] == g.spins[k] by {
            assert(is_spin(g.spins[k]));
        }
        assert(neg.negated().spins =~= g.spins);
    }
}

/// Every spin of an all-up grid is up, wrapped neighbors included.
proof fn lemma_all_up_at(rows: nat, cols: nat, i: int, j: int)
    requires
        0 <= i < rows,
        0 <= j < cols,
    ensures
        Grid::all_up(rows, cols).at(i, j) == 1,
{
    lemma_index_in_range(rows as int, cols as int, i, j);
}

/// With coupling one, an all-up lattice puts every site in the highest
/// energy class; sweeps whose every draw is at least that class's threshold
/// accept no flip, and the lattice stays all up.
pub proof fn lemma_all_up_rejecting_rounds(rows: nat, cols: nat, t: Seq<u64>, rounds: Seq<Seq<u64>>)
    requires
        rows > 0,
        cols > 0,
        t.len() == CLASSES,
        rounds_sized(rounds, rows * cols),
        rounds_at_least(rounds, t[CLASSES - 1] as int),
    ensures
        run_rounds(Grid::all_up(rows, cols), t, 1, rounds) == Grid::all_up(rows, cols),
    decreases rounds.len(),
{
    if rounds.len() > 0 {
        let prev = rounds.drop_last();
        assert forall|s: int| 0 <= s < prev.len() implies (#[trigger] prev[s]).len() == rows * cols by {
            assert(prev[s] == rounds[s]);
        }
        assert forall|s: int, x: int| 0 <= s < prev.len() && 0 <= x < prev[s].len() implies (
        #[trigger] prev[s][x]) >= t[CLASSES - 1] by {
            assert(prev[s] == rounds[s]);
        }
        lemma_all_up_rejecting_rounds(rows, cols, t, prev);
        let last = rounds.last();
        assert(last == rounds[rounds.len() - 1]);
        assert forall|x: int| 0 <= x < last.len() implies #[trigger] last[x] >= t[CLASSES - 1] by {
            assert(rounds[rounds.len() - 1][x] >= t[CLASSES - 1]);
        }
        lemma_all_up_rejecting_prefix(rows, cols, t, last, rows * cols);
    }
}

proof fn lemma_all_up_rejecting_prefix(rows: nat, cols: nat, t: Seq<u64>, draws: Seq<u64>, m: nat)
    requires
        rows > 0,
        cols > 0,
        t.len() == CLASSES,
        draws.len() == rows * cols,
        forall|x: int| 0 <= x < draws.len() ==> #[trigger] draws[x] >= t[CLASSES - 1],
        m <= rows * cols,
    ensures
        sweep_prefix(Grid::all_up(rows, cols), t, 1, draws, m) == Grid::all_up(rows, cols),
    decreases m,
{
    if m > 0 {
        let m1 = (m - 1) as nat;
        lemma_all_up_rejecting_prefix(rows, cols, t, draws, m1);
        let g = Grid::all_up(rows, cols);
        lemma_site_of(g, m1 as int);
        let i = row_of(g, m1 as int);
        let j = col_of(g, m1 as int);
        vstd::arithmetic::div_mod::lemma_mod_pos_bound(i + 1, rows as int);
        vstd::arithmetic::div_mod::lemma_mod_pos_bound(i - 1 + rows, rows as int);
        vstd::arithmetic::div_mod::lemma_mod_pos_bound(j + 1, cols as int);
        vstd::arithmetic::div_mod::lemma_mod_pos_bound(j - 1 + cols, cols as int);
        lemma_all_up_at(rows, cols, i, j);
        lemma_all_up_at(rows, cols, g.north(i), j);
        lemma_all_up_at(rows, cols, g.south(i), j);
        lemma_all_up_at(rows, cols, i, g.east(j));
        lemma_all_up_at(rows, cols, i, g.west(j));
        assert(g.neighbor_sum(i, j) == 4);
        assert(g.at(i, j) == 1);
        assert(g.energy_class(1, i, j) == 8) by (nonlinear_arith)
            requires
                g.neighbor_sum(i, j) == 4,
                g.at(i, j) == 1,
                g.energy_class(1, i, j) == 4 + 1 * g.at(i, j) * g.neighbor_sum(i, j),
        ;
        assert(draws[m1 as int] >= t[CLASSES - 1]);
    }
}

} // verus!
