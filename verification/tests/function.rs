use orbital_sim::function::{orbital, scan, LatticeCursor, STEP_BUDGET};
use orbital_sim::instance::Instance;
use orbital_sim::sample::{accepts, emit, Sample};
use orbital_sim::single::Sign;
use orbital_sim::vantage::{Sweep, Vantage};
use orbital_sim::voxel::{lattice_bound, THRESHOLD};
use std::cell::{Cell, RefCell};

const RESOLUTION: i16 = 2;

fn vantage() -> Vantage {
    Vantage { sweep: Sweep::AlongZ, x: Sign::Positive, y: Sign::Negative, z: Sign::Negative }
}

/// A cloud around the origin, seen from a viewer at voxel (40.25, 3.5, -60).
fn cloud(x: i16, y: i16, z: i16) -> Sample {
    let (fx, fy, fz) = (x as f32, y as f32, z as f32);
    let density = 40.0 / (1.0 + fx * fx + fy * fy + fz * fz).powi(2);
    let sign: f32 = if x + y >= 0 { 1.0 } else { -1.0 };
    Sample {
        density: density.to_bits(),
        sign: sign.to_bits(),
        offset: ((40.25 - fx).to_bits(), (3.5 - fy).to_bits(), (-60.0 - fz).to_bits()),
    }
}

fn expected_slice(a: i16) -> Vec<Instance> {
    let limit = lattice_bound(RESOLUTION);
    let mut faces = Vec::new();
    for b in -limit..=limit {
        for c in -limit..=limit {
            let p = vantage().remap(a, b, c);
            faces.extend(emit(RESOLUTION, p, &cloud(p.0, p.1, p.2), THRESHOLD));
        }
    }
    faces
}

fn expected_pass() -> Vec<Instance> {
    let limit = lattice_bound(RESOLUTION);
    (-limit..=limit).flat_map(expected_slice).collect()
}

#[test]
fn the_step_budget_is_fourteen_milliseconds() {
    assert_eq!(STEP_BUDGET, 14_000_000);
}

#[test]
fn a_new_cursor_stands_at_the_lower_bound() {
    let cursor = LatticeCursor::new(5);
    assert_eq!(cursor.next_major_index(), -40);
    assert!(cursor.is_fresh(5));
    assert!(!cursor.is_complete(5));
    assert_eq!(cursor.adjacency().len(), 0);
}

#[test]
fn an_unhurried_step_scans_the_whole_pass() {
    let mut cursor = LatticeCursor::new(RESOLUTION);
    let asked = Cell::new(0u32);
    let probe = |x: i16, y: i16, z: i16| {
        asked.set(asked.get() + 1);
        cloud(x, y, z)
    };
    let quads = scan(&mut cursor, vantage(), RESOLUTION, THRESHOLD, probe, || false);
    assert_eq!(cursor.next_major_index(), 17);
    assert!(cursor.is_complete(RESOLUTION));
    assert_eq!(asked.get(), 33 * 33 * 33);
    assert!(!quads.is_empty());
    assert_eq!(quads, expected_pass());
}

#[test]
fn a_hurried_step_scans_one_slice() {
    let mut cursor = LatticeCursor::new(RESOLUTION);
    let asked = Cell::new(0u32);
    let probe = |x: i16, y: i16, z: i16| {
        asked.set(asked.get() + 1);
        cloud(x, y, z)
    };
    let quads = scan(&mut cursor, vantage(), RESOLUTION, THRESHOLD, probe, || true);
    assert_eq!(cursor.next_major_index(), -15);
    assert!(!cursor.is_fresh(RESOLUTION));
    assert_eq!(asked.get(), 33 * 33);
    assert_eq!(quads, expected_slice(-16));
}

#[test]
fn every_major_index_is_visited_once_however_the_pass_is_cut() {
    let limit = lattice_bound(RESOLUTION);
    for period in [1u32, 2, 3, 5, 7, 40] {
        let mut cursor = LatticeCursor::new(RESOLUTION);
        let majors = RefCell::new(Vec::new());
        let ticks = Cell::new(0u32);
        let mut steps = 0;
        while !cursor.is_complete(RESOLUTION) {
            let before = cursor.next_major_index();
            let probe = |x: i16, y: i16, z: i16| {
                let mut seen = majors.borrow_mut();
                if seen.last() != Some(&z) {
                    seen.push(z);
                }
                cloud(x, y, z)
            };
            let clock = || {
                ticks.set(ticks.get() + 1);
                ticks.get() % period == 0
            };
            scan(&mut cursor, vantage(), RESOLUTION, THRESHOLD, probe, clock);
            assert!(cursor.next_major_index() > before);
            steps += 1;
        }
        assert_eq!(cursor.next_major_index(), limit + 1);
        assert_eq!(*majors.borrow(), (-limit..=limit).collect::<Vec<i16>>(), "period {period}");
        let expected_steps = if period == 40 { 1 } else { (32 / period) + 1 };
        assert_eq!(steps, expected_steps, "period {period}");
    }
}

#[test]
fn the_faces_of_a_pass_do_not_depend_on_how_it_is_cut() {
    let whole = expected_pass();
    for period in [1u32, 2, 5, 11] {
        let mut cursor = LatticeCursor::new(RESOLUTION);
        let ticks = Cell::new(0u32);
        let mut gathered = Vec::new();
        while !cursor.is_complete(RESOLUTION) {
            let clock = || {
                ticks.set(ticks.get() + 1);
                ticks.get() % period == 0
            };
            gathered.extend(scan(&mut cursor, vantage(), RESOLUTION, THRESHOLD, cloud, clock));
        }
        assert_eq!(gathered, whole, "period {period}");
    }
}

#[test]
fn two_passes_give_the_same_faces_in_the_same_order() {
    let mut first = LatticeCursor::new(RESOLUTION);
    let mut second = LatticeCursor::new(RESOLUTION);
    let a = scan(&mut first, vantage(), RESOLUTION, THRESHOLD, cloud, || false);
    let b = scan(&mut second, vantage(), RESOLUTION, THRESHOLD, cloud, || false);
    assert_eq!(a, b);
}

#[test]
fn a_slice_is_walked_row_by_row() {
    let mut cursor = LatticeCursor::new(RESOLUTION);
    let visited = RefCell::new(Vec::new());
    let probe = |x: i16, y: i16, z: i16| {
        visited.borrow_mut().push((x, y, z));
        cloud(x, y, z)
    };
    scan(&mut cursor, vantage(), RESOLUTION, THRESHOLD, probe, || true);
    let visited = visited.into_inner();
    let mut expected = Vec::new();
    for b in -16i16..=16 {
        for c in -16i16..=16 {
            expected.push((b, -c, -16));
        }
    }
    assert_eq!(visited, expected);
}

#[test]
fn a_complete_cursor_is_left_alone() {
    let mut cursor = LatticeCursor::new(RESOLUTION);
    scan(&mut cursor, vantage(), RESOLUTION, THRESHOLD, cloud, || false);
    let solid = cursor.adjacency().len();
    let asked = Cell::new(false);
    let probe = |x: i16, y: i16, z: i16| {
        asked.set(true);
        cloud(x, y, z)
    };
    let quads = scan(&mut cursor, vantage(), RESOLUTION, THRESHOLD, probe, || true);
    assert!(quads.is_empty());
    assert!(!asked.get());
    assert_eq!(cursor.next_major_index(), 17);
    assert_eq!(cursor.adjacency().len(), solid);
}

#[test]
fn the_clock_is_not_asked_after_the_last_slice() {
    let mut cursor = LatticeCursor::new(RESOLUTION);
    let asked = Cell::new(0u32);
    let clock = || {
        asked.set(asked.get() + 1);
        false
    };
    scan(&mut cursor, vantage(), RESOLUTION, THRESHOLD, cloud, clock);
    assert_eq!(asked.get(), 32);
}

#[test]
fn the_records_hold_the_accepted_positions_of_the_last_slice() {
    let mut cursor = LatticeCursor::new(RESOLUTION);
    let ticks = Cell::new(0u32);
    let clock = || {
        ticks.set(ticks.get() + 1);
        ticks.get() == 17
    };
    scan(&mut cursor, vantage(), RESOLUTION, THRESHOLD, cloud, clock);
    assert_eq!(cursor.next_major_index(), 1);
    let a = 0i16;
    let mut count = 0;
    for b in -16i16..=16 {
        for c in -16i16..=16 {
            let p = vantage().remap(a, b, c);
            let drawn = accepts(cloud(p.0, p.1, p.2).density, THRESHOLD);
            assert_eq!(cursor.adjacency().is_solid(a, b, c), drawn, "{b} {c}");
            assert_eq!(cursor.adjacency().has_column(b, c), drawn, "{b} {c}");
            assert!(!cursor.adjacency().is_solid(a - 1, b, c));
            count += drawn as usize;
        }
    }
    assert!(count > 0);
    assert_eq!(cursor.adjacency().len(), count);
}

#[test]
fn raising_the_threshold_draws_no_more_voxels() {
    let mut last = usize::MAX;
    for threshold in [0.0f32, 1.0e-4, 3.0e-4, 0.01, 0.3, 0.99, 1.0] {
        let mut cursor = LatticeCursor::new(RESOLUTION);
        let mut drawn = 0;
        while !cursor.is_complete(RESOLUTION) {
            scan(&mut cursor, vantage(), RESOLUTION, threshold.to_bits(), cloud, || true);
            drawn += cursor.adjacency().len();
        }
        assert!(drawn <= last, "threshold {threshold}");
        last = drawn;
    }
    assert_eq!(last, 0);
}

#[test]
fn orbital_without_a_budget_scans_one_slice() {
    let mut cursor = LatticeCursor::new(RESOLUTION);
    let quads = orbital(RESOLUTION, &mut cursor, vantage(), cloud, 0);
    assert_eq!(cursor.next_major_index(), -15);
    assert_eq!(quads, expected_slice(-16));
}

#[test]
fn orbital_with_all_the_time_in_the_world_scans_the_pass() {
    let mut cursor = LatticeCursor::new(RESOLUTION);
    let quads = orbital(RESOLUTION, &mut cursor, vantage(), cloud, u64::MAX);
    assert!(cursor.is_complete(RESOLUTION));
    assert_eq!(quads, expected_pass());
}

#[test]
fn orbital_always_moves_on() {
    let mut cursor = LatticeCursor::new(RESOLUTION);
    let mut gathered = Vec::new();
    let mut steps = 0;
    while !cursor.is_complete(RESOLUTION) {
        let before = cursor.next_major_index();
        gathered.extend(orbital(RESOLUTION, &mut cursor, vantage(), cloud, 200_000));
        assert!(cursor.next_major_index() > before);
        steps += 1;
    }
    assert!(steps >= 1 && steps <= 33);
    assert_eq!(gathered, expected_pass());
}

#[test]
fn reset_takes_the_cursor_back_to_the_start() {
    let mut cursor = LatticeCursor::new(RESOLUTION);
    scan(&mut cursor, vantage(), RESOLUTION, THRESHOLD, cloud, || true);
    assert!(!cursor.is_fresh(RESOLUTION));
    cursor.reset(RESOLUTION);
    assert!(cursor.is_fresh(RESOLUTION));
    assert_eq!(cursor.next_major_index(), -16);
    assert_eq!(cursor.adjacency().len(), 0);
}
