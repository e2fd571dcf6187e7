//! Tests of the simulation engine: the rule itself, the stable block, the
//! oscillating blinker, equivalence with an independent reference
//! implementation, and the viewport-culled instance generation.

use toroidal_life::cellpos::CellPos;
use toroidal_life::cellpos::CellPosInstances;
use toroidal_life::field::FieldInfo;
use toroidal_life::field::FieldState;
use toroidal_life::life::Life;
use toroidal_life::units::ViewBox;

/// An independent sequential implementation of the same rule, written
/// directly from the modular neighbour formula.
fn reference_step(state: &Vec<u32>, w: usize, h: usize) -> Vec<u32> {
    let mut next = vec![0u32; w * h];
    for y in 0..h {
        for x in 0..w {
            let mut count = 0;
            for dy in 0..3 {
                for dx in 0..3 {
                    if dx == 1 && dy == 1 {
                        continue;
                    }
                    let nx = (x + dx + w - 1) % w;
                    let ny = (y + dy + h - 1) % h;
                    count += state[nx + ny * w];
                }
            }
            let cur = state[x + y * w];
            next[x + y * w] = if cur == 1 {
                if count == 2 || count == 3 {
                    1
                } else {
                    0
                }
            } else if count == 3 {
                1
            } else {
                0
            };
        }
    }
    next
}

fn field_with(w: u32, h: u32, alive: &[(u32, u32)]) -> Vec<u32> {
    let mut state = vec![0u32; (w * h) as usize];
    for &(x, y) in alive {
        state[(x + y * w) as usize] = 1;
    }
    state
}

fn cells_of(life: &Life) -> Vec<u32> {
    let buffer = life.life_buffer();
    let mut out = Vec::new();
    for i in 0..buffer.len() {
        out.push(buffer.get(i));
    }
    out
}

#[test]
fn random_field_has_one_liveness_value_per_cell() {
    let life = Life::new(8, 9);
    assert_eq!(life.cell_count(), 72);
    let cells = cells_of(&life);
    assert_eq!(cells.len(), 72);
    for &c in &cells {
        assert!(c == 0 || c == 1);
    }
}

#[test]
fn lonely_cell_dies() {
    let state = field_with(5, 5, &[(2, 2)]);
    let mut life = Life::from_state(5, 5, &state);
    life.step();
    assert_eq!(cells_of(&life), vec![0u32; 25]);
}

#[test]
fn tromino_closes_into_a_block() {
    let state = field_with(5, 5, &[(1, 1), (2, 1), (1, 2)]);
    let mut life = Life::from_state(5, 5, &state);
    life.step();
    let expected = field_with(5, 5, &[(1, 1), (2, 1), (1, 2), (2, 2)]);
    assert_eq!(cells_of(&life), expected);
}

#[test]
fn block_is_stable_for_many_generations() {
    let state = field_with(6, 6, &[(2, 2), (3, 2), (2, 3), (3, 3)]);
    let mut life = Life::from_state(6, 6, &state);
    for _ in 0..7 {
        life.step();
        assert_eq!(cells_of(&life), state);
    }
}

#[test]
fn block_wrapped_around_the_corner_is_stable() {
    let state = field_with(4, 4, &[(3, 3), (0, 3), (3, 0), (0, 0)]);
    let mut life = Life::from_state(4, 4, &state);
    life.step();
    assert_eq!(cells_of(&life), state);
}

#[test]
fn blinker_returns_after_exactly_two_steps() {
    let horizontal = field_with(7, 7, &[(2, 3), (3, 3), (4, 3)]);
    let vertical = field_with(7, 7, &[(3, 2), (3, 3), (3, 4)]);
    let mut life = Life::from_state(7, 7, &horizontal);
    life.step();
    assert_eq!(cells_of(&life), vertical);
    assert_ne!(vertical, horizontal);
    life.step();
    assert_eq!(cells_of(&life), horizontal);
}

#[test]
fn engine_matches_reference_on_random_fields() {
    for round in 0..5 {
        let w: usize = 7 + round;
        let h: usize = 11 - round;
        let mut state: Vec<u32> = Vec::new();
        for _ in 0..w * h {
            state.push(rand::random::<u32>() % 2);
        }
        let mut life = Life::from_state(w as u32, h as u32, &state);
        let mut expected = state.clone();
        for _ in 0..4 {
            life.step();
            expected = reference_step(&expected, w, h);
            assert_eq!(cells_of(&life), expected);
        }
    }
}

#[test]
fn field_state_copy_from_replaces_contents() {
    let mut a = FieldState::new(&vec![0, 1, 0, 1]);
    let b = FieldState::new(&vec![1, 1, 0, 0]);
    a.copy_from(&b);
    for i in 0..4 {
        assert_eq!(a.get(i), b.get(i));
    }
}

#[test]
fn culling_returns_the_sixteen_cells_of_the_box() {
    let life = Life::from_state(10, 10, &vec![0u32; 100]);
    let instances = life.generate_cell_info(ViewBox::new(2000, 2000, 5000, 5000));
    assert_eq!(instances.len(), 16);
    let positions = instances.positions();
    for (n, cell) in positions.iter().enumerate() {
        let x = 2 + (n as u32) / 4;
        let y = 2 + (n as u32) % 4;
        assert_eq!(cell.x, x);
        assert_eq!(cell.y, y);
        assert_eq!(cell.idx, x + y * 10);
    }
}

#[test]
fn culling_of_a_box_outside_the_field_is_empty() {
    let life = Life::from_state(10, 10, &vec![0u32; 100]);
    let instances = life.generate_cell_info(ViewBox::new(-50000, -50000, -10000, -10000));
    assert_eq!(instances.len(), 0);
}

#[test]
fn culling_of_an_inverted_box_is_empty() {
    let life = Life::from_state(10, 10, &vec![0u32; 100]);
    let instances = life.generate_cell_info(ViewBox::new(5000, 5000, 2000, 2000));
    assert_eq!(instances.len(), 0);
}

#[test]
fn culling_clamps_an_oversized_box_to_the_field() {
    let life = Life::from_state(10, 10, &vec![0u32; 100]);
    let instances = life.generate_cell_info(ViewBox::new(-900000, -900000, 900000, 900000));
    assert_eq!(instances.len(), 100);
}

#[test]
fn culling_floors_fractional_box_edges() {
    let life = Life::from_state(10, 10, &vec![0u32; 100]);
    let instances = life.generate_cell_info(ViewBox::new(2500, 2500, 4500, 4500));
    assert_eq!(instances.len(), 9);
    let first = instances.positions()[0];
    assert_eq!((first.x, first.y), (2, 2));
}

#[test]
fn field_info_reports_its_dimensions() {
    let info = FieldInfo::new(12, 34);
    assert_eq!(info.width(), 12);
    assert_eq!(info.height(), 34);
}

#[test]
fn instance_collection_exposes_what_it_was_built_from() {
    let cells = vec![
        CellPos { x: 1, y: 2, idx: 21 },
        CellPos { x: 3, y: 4, idx: 43 },
    ];
    let instances = CellPosInstances::new(cells.clone());
    assert_eq!(instances.len(), 2);
    assert_eq!(instances.positions(), &cells);
}

#[test]
fn culling_covers_every_index_exactly_once() {
    let life = Life::from_state(4, 3, &vec![0u32; 12]);
    let instances = life.generate_cell_info(ViewBox::new(0, 0, 3000, 2000));
    assert_eq!(instances.len(), 12);
    let mut seen = vec![false; 12];
    for cell in instances.positions().iter() {
        assert!((cell.idx as usize) < 12);
        assert!(!seen[cell.idx as usize]);
        seen[cell.idx as usize] = true;
    }
    assert!(seen.iter().all(|&s| s));
}
