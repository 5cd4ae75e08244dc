//! Tests for the update engine: the rule over whole generations, the
//! classic patterns, the generation counter, and the order-independence of
//! a partitioned sweep.

use life::engine::{next_cell_value, UpdateEngine};
use life::field::Field;
use life::point::Point;

fn pt(x: i32, y: i32) -> Point {
    Point { x, y }
}

fn alive_cells(e: &UpdateEngine, width: i32, height: i32) -> Vec<(i32, i32)> {
    let mut out = Vec::new();
    for y in 0..height {
        for x in 0..width {
            if e.get(pt(x, y)) {
                out.push((x, y));
            }
        }
    }
    out
}

#[test]
fn all_dead_field_stays_dead() {
    let mut e = UpdateEngine::new(8, 8);
    e.advance();
    assert!(alive_cells(&e, 8, 8).is_empty());
    assert_eq!(e.generation(), 1);
}

#[test]
fn block_is_a_still_life() {
    let mut e = UpdateEngine::new(16, 16);
    let block = [(5, 5), (6, 5), (5, 6), (6, 6)];
    for &(x, y) in &block {
        e.set(pt(x, y), true);
    }
    e.advance();
    let mut expected: Vec<(i32, i32)> = block.to_vec();
    expected.sort_by_key(|&(x, y)| (y, x));
    assert_eq!(alive_cells(&e, 16, 16), expected);
    e.advance();
    assert_eq!(alive_cells(&e, 16, 16), expected);
}

#[test]
fn glider_translates_diagonally_in_four_ticks() {
    let mut e = UpdateEngine::new(20, 20);
    let glider = [(6, 5), (7, 6), (5, 7), (6, 7), (7, 7)];
    for &(x, y) in &glider {
        e.set(pt(x, y), true);
    }
    for _ in 0..4 {
        e.advance();
    }
    let mut expected: Vec<(i32, i32)> = glider.iter().map(|&(x, y)| (x + 1, y + 1)).collect();
    expected.sort_by_key(|&(x, y)| (y, x));
    assert_eq!(alive_cells(&e, 20, 20), expected);
    assert_eq!(e.generation(), 4);
}

#[test]
fn lonely_cell_dies_and_three_in_a_row_oscillates() {
    let mut e = UpdateEngine::new(10, 10);
    e.set(pt(4, 4), true);
    e.advance();
    assert!(alive_cells(&e, 10, 10).is_empty());

    // A horizontal blinker becomes a vertical one.
    let mut b = UpdateEngine::new(10, 10);
    for &(x, y) in &[(3, 4), (4, 4), (5, 4)] {
        b.set(pt(x, y), true);
    }
    b.advance();
    assert_eq!(alive_cells(&b, 10, 10), vec![(4, 3), (4, 4), (4, 5)]);
    b.advance();
    assert_eq!(alive_cells(&b, 10, 10), vec![(3, 4), (4, 4), (5, 4)]);
}

#[test]
fn generation_counter_counts_completed_sweeps_only() {
    let mut e = UpdateEngine::new(6, 6);
    assert_eq!(e.generation(), 0);
    e.set(pt(1, 1), true);
    e.flip(pt(2, 2));
    assert_eq!(e.generation(), 0);
    e.advance();
    e.advance();
    e.advance();
    assert_eq!(e.generation(), 3);
}

#[test]
fn zero_area_engine_advances_without_state() {
    let mut e = UpdateEngine::new(0, 0);
    e.advance();
    assert_eq!(e.generation(), 1);
    assert!(!e.get(pt(0, 0)));
}

#[test]
fn seeding_goes_through_set_and_flip() {
    let mut e = UpdateEngine::new(6, 6);
    e.set(pt(2, 3), true);
    assert!(e.get(pt(2, 3)));
    e.flip(pt(2, 3));
    assert!(!e.get(pt(2, 3)));
    e.flip(pt(0, 0));
    assert!(e.get(pt(0, 0)));
    e.set(pt(-1, -1), true);
    assert!(!e.get(pt(-1, -1)));
}

#[test]
fn edge_cells_see_the_outside_as_dead() {
    // A corner cell with two alive in-bounds neighbors survives only if the
    // off-grid part of its neighborhood counts as dead.
    let mut e = UpdateEngine::new(5, 5);
    for &(x, y) in &[(0, 0), (1, 0), (0, 1), (1, 1)] {
        e.set(pt(x, y), true);
    }
    e.advance();
    // The block touches the corner; bounded-by-death keeps it a still life.
    assert_eq!(alive_cells(&e, 5, 5), vec![(0, 0), (1, 0), (0, 1), (1, 1)]);
}

#[test]
fn partitioned_sweep_matches_single_threaded_sweep() {
    // Seed an irregular pattern.
    let mut f = Field::new(12, 12);
    for &(x, y) in &[
        (1, 1),
        (2, 1),
        (3, 1),
        (3, 2),
        (2, 3),
        (7, 7),
        (8, 7),
        (7, 8),
        (8, 8),
        (5, 10),
        (6, 10),
        (11, 0),
        (0, 11),
        (11, 11),
    ] {
        f.set(pt(x, y), true);
    }

    // Single-threaded sweep: the engine's own advance.
    let mut e = UpdateEngine::new(12, 12);
    for y in 0..12 {
        for x in 0..12 {
            e.set(pt(x, y), f.get(pt(x, y)));
        }
    }
    e.advance();

    // Simulated workers: three disjoint groupings of the cells, each
    // evaluated independently against the same frozen field, in different
    // orders.
    let mut results = vec![vec![false; 144], vec![false; 144], vec![false; 144]];
    // Worker group A: row-major order, cells with x + y even.
    for y in 0..12 {
        for x in 0..12 {
            if (x + y) % 2 == 0 {
                results[0][(y * 12 + x) as usize] = next_cell_value(&f, pt(x, y));
            }
        }
    }
    // Worker group B: reverse order, cells with x + y odd and x < 6.
    for y in (0..12).rev() {
        for x in (0..12).rev() {
            if (x + y) % 2 == 1 && x < 6 {
                results[1][(y * 12 + x) as usize] = next_cell_value(&f, pt(x, y));
            }
        }
    }
    // Worker group C: column-major order, the rest.
    for x in 0..12 {
        for y in 0..12 {
            if (x + y) % 2 == 1 && x >= 6 {
                results[2][(y * 12 + x) as usize] = next_cell_value(&f, pt(x, y));
            }
        }
    }
    // Merging the groups' write buffers gives the engine's next generation.
    for y in 0..12 {
        for x in 0..12 {
            let i = (y * 12 + x) as usize;
            let merged = results[0][i] | results[1][i] | results[2][i];
            assert_eq!(merged, e.get(pt(x, y)), "cell ({}, {})", x, y);
        }
    }
}
