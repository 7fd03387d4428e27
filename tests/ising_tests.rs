use ising::error::IsingError;
use ising::lattice::{InitMode, Lattice, HALF_DRAW};
use ising::random::{draw_many, draw_uniform};
use ising::sweep::{run, run_with_draws, sweep_with_draws};
use ising::table::{Table, SCALE};
use rand_xoshiro::rand_core::{RngCore, SeedableRng};
use rand_xoshiro::Xoshiro256Plus;

fn uniform_table(t: u64) -> Table {
    Table::from_thresholds([t; 9]).unwrap()
}

/// Thresholds of the table at temperature one: `ceil(exp(-2e) * 2^53)`,
/// capped at `2^53`.
fn table_at_unit_temperature() -> Table {
    let mut t = [0u64; 9];
    for (k, slot) in t.iter_mut().enumerate() {
        let e = k as f64 - 4.0;
        let p = (-2.0 * e).exp();
        *slot = if p >= 1.0 { SCALE } else { (p * SCALE as f64).ceil() as u64 };
    }
    Table::from_thresholds(t).unwrap()
}

fn lattice_from_spins(rows: usize, cols: usize, spins: &[i8]) -> Lattice {
    let draws: Vec<u64> = spins.iter().map(|&s| if s == 1 { SCALE - 1 } else { 0 }).collect();
    Lattice::from_draws(rows, cols, &draws).unwrap()
}

#[test]
fn all_up_four_by_four_zero_sweeps() {
    let mut rng = Xoshiro256Plus::seed_from_u64(1);
    let mut l = Lattice::new(4, 4, InitMode::AllUp, &mut rng).unwrap();
    let table = table_at_unit_temperature();
    run(&mut l, &table, &mut rng, 0, 1);
    assert!(l.snapshot().iter().all(|&s| s == 1));
    for i in 0..4 {
        for j in 0..4 {
            assert_eq!(l.local_energy_class(i, j, 1), 8);
        }
    }
}

#[test]
fn all_up_leaves_generator_untouched() {
    let mut rng = Xoshiro256Plus::seed_from_u64(5);
    let mut twin = rng.clone();
    let _ = Lattice::new(3, 3, InitMode::AllUp, &mut rng).unwrap();
    assert_eq!(rng.next_u64(), twin.next_u64());
}

#[test]
fn neighbors_wrap_on_two_by_two() {
    // (0,0) up, (0,1) up, (1,0) down, (1,1) down
    let l = lattice_from_spins(2, 2, &[1, 1, -1, -1]);
    let (n, s, e, w) = l.neighbors(0, 0);
    assert_eq!(n, l.spin(1, 0));
    assert_eq!(s, l.spin(1, 0));
    assert_eq!(e, l.spin(0, 1));
    assert_eq!(w, l.spin(0, 1));
    assert_eq!((n, s, e, w), (-1, -1, 1, 1));
}

#[test]
fn neighbors_wrap_on_three_by_three() {
    let spins: Vec<i8> = vec![1, -1, 1, -1, -1, 1, 1, 1, -1];
    let l = lattice_from_spins(3, 3, &spins);
    // north (1,0), south (2,0), east (0,1), west (0,2)
    assert_eq!(l.neighbors(0, 0), (-1, 1, -1, 1));
    // north (0,2), south (1,2), east (2,0), west (2,1)
    assert_eq!(l.neighbors(2, 2), (1, 1, 1, 1));
}

#[test]
fn energy_class_formula() {
    let spins: Vec<i8> = vec![1, -1, 1, -1, -1, 1, 1, 1, -1];
    let l = lattice_from_spins(3, 3, &spins);
    // site (0,0) = 1, neighbors sum to 0: class 4
    assert_eq!(l.local_energy_class(0, 0, 1), 4);
    // site (2,2) = -1, neighbors sum to 4: class 4 - 4 = 0
    assert_eq!(l.local_energy_class(2, 2, 1), 0);
    assert_eq!(l.local_energy_class(2, 2, -1), 8);
    assert_eq!(l.local_energy_class(2, 2, 0), 4);
    // site (1,1) = -1: north (2,1)=1, south (0,1)=-1, east (1,2)=1, west (1,0)=-1
    assert_eq!(l.local_energy_class(1, 1, 1), 4);
}

#[test]
fn energy_class_in_range_on_random_lattices() {
    let mut rng = Xoshiro256Plus::seed_from_u64(7);
    for _ in 0..5 {
        let l = Lattice::new(5, 6, InitMode::Randomized, &mut rng).unwrap();
        for i in 0..5 {
            for j in 0..6 {
                let k = l.local_energy_class(i, j, 1);
                assert!(k <= 8);
                assert_eq!(k % 2, 0);
            }
        }
    }
}

#[test]
fn randomized_init_follows_draws() {
    let mut rng = Xoshiro256Plus::seed_from_u64(11);
    let mut twin = rng.clone();
    let l = Lattice::new(4, 5, InitMode::Randomized, &mut rng).unwrap();
    let draws = draw_many(&mut twin, 20);
    let expected = Lattice::from_draws(4, 5, &draws).unwrap();
    assert_eq!(l.snapshot(), expected.snapshot());
    assert!(l.snapshot().iter().all(|&s| s == 1 || s == -1));
}

#[test]
fn init_draw_at_one_half_is_down() {
    let l = Lattice::from_draws(1, 3, &vec![HALF_DRAW, HALF_DRAW + 1, 0]).unwrap();
    assert_eq!(l.snapshot(), &[-1, 1, -1]);
}

#[test]
fn zero_dimensions_rejected() {
    let mut rng = Xoshiro256Plus::seed_from_u64(0);
    assert_eq!(Lattice::new(0, 4, InitMode::AllUp, &mut rng).err(), Some(IsingError::InvalidDimensions));
    assert_eq!(Lattice::new(4, 0, InitMode::Randomized, &mut rng).err(), Some(IsingError::InvalidDimensions));
    assert_eq!(Lattice::all_up(0, 0).err(), Some(IsingError::InvalidDimensions));
    assert_eq!(Lattice::from_draws(0, 3, &vec![]).err(), Some(IsingError::InvalidDimensions));
}

#[test]
fn flip_reverses_one_site() {
    let mut l = Lattice::all_up(2, 3).unwrap();
    l.flip(1, 2);
    assert_eq!(l.snapshot(), &[1, 1, 1, 1, 1, -1]);
    l.flip(1, 2);
    assert_eq!(l.snapshot(), &[1, 1, 1, 1, 1, 1]);
}

#[test]
fn zero_draws_flip_every_site() {
    let spins: Vec<i8> = vec![1, -1, 1, -1, -1, 1, 1, 1, -1];
    let mut l = lattice_from_spins(3, 3, &spins);
    let table = table_at_unit_temperature();
    sweep_with_draws(&mut l, &table, &vec![0; 9], 1);
    let negated: Vec<i8> = spins.iter().map(|s| -s).collect();
    assert_eq!(l.snapshot(), &negated[..]);
}

#[test]
fn draw_at_threshold_rejects_flip() {
    let mut l = Lattice::all_up(2, 2).unwrap();
    let table = uniform_table(1000);
    sweep_with_draws(&mut l, &table, &vec![1000, 999, 1000, 1001], 1);
    // only the second site flips
    assert_eq!(l.snapshot(), &[1, -1, 1, 1]);
}

#[test]
fn flips_seen_by_later_sites() {
    // 1x3 ring all up; table accepts only classes below 8.
    let mut l = Lattice::all_up(1, 3).unwrap();
    let mut t = [0u64; 9];
    for slot in t.iter_mut().take(8) {
        *slot = SCALE;
    }
    let table = Table::from_thresholds(t).unwrap();
    sweep_with_draws(&mut l, &table, &vec![0, 0, 0], 1);
    // site 0 has class 8 and stays; nothing changes.
    assert_eq!(l.snapshot(), &[1, 1, 1]);
    let mut m = lattice_from_spins(1, 3, &[-1, 1, 1]);
    sweep_with_draws(&mut m, &table, &vec![0, 0, 0], 1);
    // site 0: -1 among up neighbors, class 0, flips to 1; then sites 1 and 2 are
    // surrounded by up spins, class 8, and stay.
    assert_eq!(m.snapshot(), &[1, 1, 1]);
}

#[test]
fn fixed_draws_are_deterministic() {
    let spins: Vec<i8> = vec![1, -1, -1, 1, 1, -1, 1, 1, -1, 1, -1, 1];
    let draws: Vec<u64> = (0..12u64).map(|k| (k * 0x9E37_79B9_7F4A_7C15) >> 11).collect();
    let table = table_at_unit_temperature();
    let mut a = lattice_from_spins(3, 4, &spins);
    let mut b = lattice_from_spins(3, 4, &spins);
    for _ in 0..3 {
        sweep_with_draws(&mut a, &table, &draws, 1);
        sweep_with_draws(&mut b, &table, &draws, 1);
    }
    assert_eq!(a.snapshot(), b.snapshot());
}

#[test]
fn seeded_runs_are_deterministic() {
    let table = table_at_unit_temperature();
    let mut results = Vec::new();
    for _ in 0..2 {
        let mut rng = Xoshiro256Plus::seed_from_u64(2024);
        let mut l = Lattice::new(8, 8, InitMode::Randomized, &mut rng).unwrap();
        run(&mut l, &table, &mut rng, 10, 1);
        results.push(l.snapshot().to_vec());
    }
    assert_eq!(results[0], results[1]);
}

#[test]
fn run_matches_sweeps_over_its_draws() {
    let table = table_at_unit_temperature();
    let mut rng = Xoshiro256Plus::seed_from_u64(99);
    let mut twin = rng.clone();
    let mut l = Lattice::all_up(4, 4).unwrap();
    let mut m = Lattice::all_up(4, 4).unwrap();
    run(&mut l, &table, &mut rng, 3, 1);
    for _ in 0..3 {
        let draws = draw_many(&mut twin, 16);
        sweep_with_draws(&mut m, &table, &draws, 1);
    }
    assert_eq!(l.snapshot(), m.snapshot());
}

#[test]
fn run_keeps_spins_up_or_down() {
    let table = table_at_unit_temperature();
    let mut rng = Xoshiro256Plus::seed_from_u64(3);
    let mut l = Lattice::new(10, 7, InitMode::Randomized, &mut rng).unwrap();
    run(&mut l, &table, &mut rng, 20, 1);
    assert_eq!(l.snapshot().len(), 70);
    assert!(l.snapshot().iter().all(|&s| s == 1 || s == -1));
    assert_eq!((l.rows(), l.cols()), (10, 7));
}

#[test]
fn draw_uniform_takes_top_bits() {
    let mut rng = Xoshiro256Plus::seed_from_u64(17);
    let mut twin = rng.clone();
    for _ in 0..100 {
        let u = draw_uniform(&mut rng);
        let w = twin.next_u64();
        assert_eq!(u, w >> 11);
        assert!(u < SCALE);
    }
}

#[test]
fn table_thresholds_checked() {
    assert!(Table::from_thresholds([SCALE, SCALE, SCALE, SCALE, SCALE, 10, 10, 3, 0]).is_some());
    assert!(Table::from_thresholds([SCALE + 1, SCALE, SCALE, SCALE, SCALE, 10, 10, 3, 0]).is_none());
    assert!(Table::from_thresholds([SCALE, SCALE, SCALE, SCALE, SCALE, 10, 11, 3, 0]).is_none());
    let t = table_at_unit_temperature();
    assert_eq!(t.threshold(4), SCALE);
    assert_eq!(t.threshold(0), SCALE);
    assert!(t.threshold(6) < t.threshold(5));
    let th = t.thresholds();
    for k in 0..8 {
        assert!(th[k] >= th[k + 1]);
    }
}

#[test]
fn unit_temperature_table_values() {
    let t = table_at_unit_temperature();
    // exp(-2) * 2^53, rounded up
    let expected = (((-2.0f64).exp()) * SCALE as f64).ceil() as u64;
    assert_eq!(t.threshold(5), expected);
    assert!(t.threshold(8) > 0);
}

#[test]
fn zero_draws_over_several_sweeps_alternate() {
    let spins: Vec<i8> = vec![1, -1, 1, -1, -1, 1, 1, 1, -1, 1, 1, -1];
    let negated: Vec<i8> = spins.iter().map(|s| -s).collect();
    let table = table_at_unit_temperature();
    let mut odd = lattice_from_spins(3, 4, &spins);
    run_with_draws(&mut odd, &table, &vec![vec![0; 12]; 3], 1);
    assert_eq!(odd.snapshot(), &negated[..]);
    let mut even = lattice_from_spins(3, 4, &spins);
    run_with_draws(&mut even, &table, &vec![vec![0; 12]; 4], 1);
    assert_eq!(even.snapshot(), &spins[..]);
}

#[test]
fn draws_below_smallest_threshold_flip_every_site() {
    // every threshold above 0.99 * 2^53, every draw at most 0.99
    let high = (0.995 * SCALE as f64) as u64;
    let table = Table::from_thresholds([SCALE, SCALE, SCALE, SCALE, SCALE, high + 3, high + 2, high + 1, high])
        .unwrap();
    let at_most = (0.99 * SCALE as f64) as u64;
    let spins: Vec<i8> = vec![1, 1, -1, 1, -1, -1];
    let negated: Vec<i8> = spins.iter().map(|s| -s).collect();
    let mut l = lattice_from_spins(2, 3, &spins);
    let draws: Vec<u64> = (0..6u64).map(|k| at_most - k * 1000).collect();
    run_with_draws(&mut l, &table, &vec![draws], 1);
    assert_eq!(l.snapshot(), &negated[..]);
}

#[test]
fn all_up_rejects_flips_at_low_temperature() {
    // at T = 0.05 the class-8 probability exp(-160) rounds to threshold 1
    let mut t = [0u64; 9];
    for (k, slot) in t.iter_mut().enumerate() {
        let p = (-2.0 * (k as f64 - 4.0) / 0.05).exp();
        *slot = if p >= 1.0 { SCALE } else { (p * SCALE as f64).ceil() as u64 };
    }
    assert_eq!(t[8], 1);
    let table = Table::from_thresholds(t).unwrap();
    let mut l = Lattice::all_up(5, 5).unwrap();
    let mut rng = Xoshiro256Plus::seed_from_u64(8);
    let rounds: Vec<Vec<u64>> = (0..6).map(|_| draw_many(&mut rng, 25).iter().map(|u| *u.max(&1)).collect()).collect();
    run_with_draws(&mut l, &table, &rounds, 1);
    assert!(l.snapshot().iter().all(|&s| s == 1));
}

#[test]
fn run_with_draws_matches_single_sweeps() {
    let table = table_at_unit_temperature();
    let mut rng = Xoshiro256Plus::seed_from_u64(31);
    let rounds: Vec<Vec<u64>> = (0..4).map(|_| draw_many(&mut rng, 20)).collect();
    let mut gen = Xoshiro256Plus::seed_from_u64(32);
    let start = Lattice::new(4, 5, InitMode::Randomized, &mut gen).unwrap();
    let mut a = Lattice::from_draws(4, 5, &start.snapshot().iter().map(|&s| if s == 1 { SCALE - 1 } else { 0 }).collect()).unwrap();
    let mut b = Lattice::from_draws(4, 5, &start.snapshot().iter().map(|&s| if s == 1 { SCALE - 1 } else { 0 }).collect()).unwrap();
    run_with_draws(&mut a, &table, &rounds, 1);
    for r in &rounds {
        sweep_with_draws(&mut b, &table, r, 1);
    }
    assert_eq!(a.snapshot(), b.snapshot());
    let mut c = Lattice::from_draws(4, 5, &start.snapshot().iter().map(|&s| if s == 1 { SCALE - 1 } else { 0 }).collect()).unwrap();
    run_with_draws(&mut c, &table, &rounds, 1);
    assert_eq!(a.snapshot(), c.snapshot());
}

#[test]
fn zero_sweeps_leave_generator_untouched() {
    let table = table_at_unit_temperature();
    let mut rng = Xoshiro256Plus::seed_from_u64(12);
    let mut twin = rng.clone();
    let mut l = Lattice::all_up(3, 3).unwrap();
    run(&mut l, &table, &mut rng, 0, 1);
    assert_eq!(rng.next_u64(), twin.next_u64());
}
