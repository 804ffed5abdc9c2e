use dfsph::neighbor_search::NeighborSearch;
use dfsph::primes::{is_prime_number, next_prime};
use dfsph::spatial_hash::{block_cell, cell_hash, cell_mix, Cell, Entry};

fn cell(x: i32, y: i32, z: i32) -> Cell {
    Cell { x, y, z }
}

#[test]
fn cell_mix_of_origin_is_zero() {
    assert_eq!(cell_mix(cell(0, 0, 0)), 0);
}

#[test]
fn cell_mix_exact_values() {
    assert_eq!(cell_mix(cell(1, 0, 0)), 73856093);
    assert_eq!(cell_mix(cell(0, 1, 0)), 19349663);
    assert_eq!(cell_mix(cell(0, 0, 1)), 83492791);
    assert_eq!(cell_mix(cell(1, 1, 1)), 73856093 ^ 19349663 ^ 83492791);
    assert_eq!(cell_mix(cell(-1, 0, 0)), 73856093u32.wrapping_neg());
}

#[test]
fn cell_hash_reduces_modulo_table_size() {
    assert_eq!(cell_hash(cell(1, 0, 0), 7), 73856093 % 7);
    assert_eq!(cell_hash(cell(2, 3, 4), 1), 0);
}

#[test]
fn primality_of_small_numbers() {
    let primes = [2usize, 3, 5, 7, 11, 13, 97, 7919];
    for p in primes {
        assert!(is_prime_number(p));
    }
    let composites = [0usize, 1, 4, 6, 9, 15, 49, 7917];
    for c in composites {
        assert!(!is_prime_number(c));
    }
}

#[test]
fn next_prime_exact_values() {
    assert_eq!(next_prime(0), 2);
    assert_eq!(next_prime(2), 2);
    assert_eq!(next_prime(8), 11);
    assert_eq!(next_prime(14), 17);
    assert_eq!(next_prime(2000), 2003);
}

#[test]
fn block_cell_walks_x_fastest() {
    let c = cell(10, 20, 30);
    assert_eq!(block_cell(c, 0), cell(9, 19, 29));
    assert_eq!(block_cell(c, 1), cell(10, 19, 29));
    assert_eq!(block_cell(c, 3), cell(9, 20, 29));
    assert_eq!(block_cell(c, 9), cell(9, 19, 30));
    assert_eq!(block_cell(c, 13), c);
    assert_eq!(block_cell(c, 26), cell(11, 21, 31));
}

#[test]
fn block_cell_wraps_at_the_ends() {
    let c = cell(i32::MIN, i32::MAX, 0);
    assert_eq!(block_cell(c, 0), cell(i32::MAX, i32::MAX - 1, -1));
    assert_eq!(block_cell(c, 26), cell(i32::MIN + 1, i32::MIN, 1));
}

#[test]
fn new_table_is_empty() {
    let ns = NeighborSearch::new();
    assert_eq!(ns.len(), 0);
    assert_eq!(ns.table_size(), 2);
    assert!(ns.neighbor_candidates(cell(0, 0, 0)).is_empty());
}

#[test]
fn build_sizes_table_to_next_prime_of_twice_the_count() {
    let cells: Vec<Cell> = (0..7).map(|i| cell(i, 0, 0)).collect();
    let mut ns = NeighborSearch::new();
    ns.build(&cells);
    assert_eq!(ns.table_size(), 17);
    assert_eq!(ns.len(), 7);
}

#[test]
fn build_sorts_entries_by_hash_then_index() {
    let cells = vec![cell(3, 1, 2), cell(0, 0, 0), cell(3, 1, 2), cell(-4, 5, 9), cell(0, 0, 0)];
    let mut ns = NeighborSearch::new();
    ns.build(&cells);
    let ts = ns.table_size();
    let mut expected: Vec<Entry> = cells
        .iter()
        .enumerate()
        .map(|(i, c)| Entry { hash: cell_hash(*c, ts) as u32, index: i as u32 })
        .collect();
    expected.sort_by_key(|e| (e.hash, e.index));
    assert_eq!(ns.get_sorted_indices(), &expected);
    assert_ne!(ns.get_sorted_indices()[0].hash, ns.get_sorted_indices()[4].hash);
}

#[test]
fn rebuild_on_unchanged_cells_is_idempotent() {
    let cells: Vec<Cell> = (0..50).map(|i| cell(i % 5, (i / 5) % 3, i % 7)).collect();
    let mut ns = NeighborSearch::new();
    ns.build(&cells);
    let first: Vec<Entry> = ns.get_sorted_indices().clone();
    let first_size = ns.table_size();
    ns.build(&cells);
    assert_eq!(ns.get_sorted_indices(), &first);
    assert_eq!(ns.table_size(), first_size);
    let mut other = NeighborSearch::new();
    other.build(&cells);
    assert_eq!(other.get_sorted_indices(), &first);
}

fn pseudo_random_cells(n: usize, seed: u64, span: i32) -> Vec<Cell> {
    let mut state = seed;
    let mut next = || {
        state = state.wrapping_mul(6364136223846793005).wrapping_add(1442695040888963407);
        ((state >> 33) as i32).rem_euclid(span) - span / 2
    };
    (0..n).map(|_| Cell { x: next(), y: next(), z: next() }).collect()
}

fn in_block(c: Cell, q: Cell) -> bool {
    (c.x - q.x).abs() <= 1 && (c.y - q.y).abs() <= 1 && (c.z - q.z).abs() <= 1
}

#[test]
fn candidates_match_brute_force_on_block_hashes() {
    for seed in 1..6u64 {
        let cells = pseudo_random_cells(64, seed, 6);
        let mut ns = NeighborSearch::new();
        ns.build(&cells);
        let ts = ns.table_size();
        for q in pseudo_random_cells(20, seed + 100, 8) {
            let mut got = ns.neighbor_candidates(q);
            let block_hashes: Vec<usize> = (0..27).map(|k| cell_hash(block_cell(q, k), ts)).collect();
            let mut expected: Vec<u32> = (0..cells.len() as u32)
                .filter(|i| block_hashes.contains(&cell_hash(cells[*i as usize], ts)))
                .collect();
            got.sort();
            expected.sort();
            assert_eq!(got, expected);
        }
    }
}

#[test]
fn candidates_hold_every_particle_of_the_block_once() {
    for seed in 7..12u64 {
        let cells = pseudo_random_cells(80, seed, 5);
        let mut ns = NeighborSearch::new();
        ns.build(&cells);
        for q in pseudo_random_cells(10, seed + 3, 5) {
            let got = ns.neighbor_candidates(q);
            for (i, c) in cells.iter().enumerate() {
                if in_block(*c, q) {
                    assert_eq!(got.iter().filter(|j| **j == i as u32).count(), 1);
                }
            }
            let mut sorted = got.clone();
            sorted.sort();
            sorted.dedup();
            assert_eq!(sorted.len(), got.len());
            assert!(got.iter().all(|j| (*j as usize) < cells.len()));
        }
    }
}

#[test]
fn candidates_of_a_lone_particle() {
    let cells = vec![cell(5, 5, 5)];
    let mut ns = NeighborSearch::new();
    ns.build(&cells);
    assert_eq!(ns.table_size(), 2);
    assert_eq!(ns.neighbor_candidates(cell(5, 5, 5)), vec![0]);
    assert_eq!(ns.neighbor_candidates(cell(4, 6, 5)), vec![0]);
}

fn pseudo_random_points(n: usize, seed: u64, extent: f32) -> Vec<[f32; 3]> {
    let mut state = seed;
    let mut next = || {
        state = state.wrapping_mul(6364136223846793005).wrapping_add(1442695040888963407);
        ((state >> 40) as f32 / (1u64 << 24) as f32 - 0.5) * extent
    };
    (0..n).map(|_| [next(), next(), next()]).collect()
}

fn cell_of(p: [f32; 3], cell_size: f32) -> Cell {
    Cell {
        x: (p[0] / cell_size).floor() as i32,
        y: (p[1] / cell_size).floor() as i32,
        z: (p[2] / cell_size).floor() as i32,
    }
}

fn distance_squared(a: [f32; 3], b: [f32; 3]) -> f32 {
    let d = [a[0] - b[0], a[1] - b[1], a[2] - b[2]];
    d[0] * d[0] + d[1] * d[1] + d[2] * d[2]
}

#[test]
fn neighbors_within_radius_match_brute_force() {
    for seed in 1..9u64 {
        let radius: f32 = 0.3;
        let points = pseudo_random_points(120, seed, 2.0);
        let cells: Vec<Cell> = points.iter().map(|p| cell_of(*p, radius)).collect();
        let mut ns = NeighborSearch::new();
        ns.build(&cells);
        for query in pseudo_random_points(25, seed + 50, 2.4) {
            let mut got: Vec<u32> = ns
                .neighbor_candidates(cell_of(query, radius))
                .into_iter()
                .filter(|j| distance_squared(points[*j as usize], query) <= radius * radius)
                .collect();
            let mut expected: Vec<u32> = (0..points.len() as u32)
                .filter(|j| distance_squared(points[*j as usize], query) <= radius * radius)
                .collect();
            got.sort();
            expected.sort();
            assert_eq!(got, expected);
        }
    }
}

#[test]
fn neighbors_of_a_particle_leave_it_out() {
    let points = pseudo_random_points(60, 42, 1.0);
    let cells: Vec<Cell> = points.iter().map(|p| cell_of(*p, 0.25)).collect();
    let mut ns = NeighborSearch::new();
    ns.build(&cells);
    for i in 0..points.len() {
        let all = ns.neighbor_candidates(cells[i]);
        let others = ns.neighbors_of(cells[i], i as u32);
        assert!(all.contains(&(i as u32)));
        assert!(!others.contains(&(i as u32)));
        let expected: Vec<u32> = all.into_iter().filter(|j| *j != i as u32).collect();
        assert_eq!(others, expected);
    }
}

#[test]
fn bucket_ranges_tile_the_entries() {
    let cells: Vec<Cell> = (0..30).map(|i| cell(i % 4, i % 3, i % 5)).collect();
    let mut ns = NeighborSearch::new();
    ns.build(&cells);
    let entries = ns.get_sorted_indices().clone();
    let mut covered = 0;
    for b in 0..ns.table_size() {
        let (start, count) = ns.bucket_range(b);
        for k in start..start + count {
            assert_eq!(entries[k as usize].hash as usize, b);
        }
        let in_bucket = entries.iter().filter(|e| e.hash as usize == b).count();
        assert_eq!(in_bucket, count as usize);
        covered += count as usize;
    }
    assert_eq!(covered, cells.len());
}
