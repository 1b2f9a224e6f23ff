use game_of_life::game_of_life::ConstructionError;
use game_of_life::game_of_life::World;
use game_of_life::game_of_life::MAX_WORLD_SIZE;

use num_bigint::BigUint;
use num_traits::Zero;

#[test]
fn is_stable_returns_correct_value() {
    let mut world = World::new(Zero::zero(), 1).unwrap();

    assert_eq!(world.is_stable(), false);

    world.advance();

    assert_eq!(world.is_stable(), true);
}

#[test]
fn get_cell_returns_correct_value() {
    let seed = BigUint::parse_bytes(b"010010001", 2).unwrap();
    let world = World::new(seed, 3).unwrap();

    assert_eq!(world.get_cell(0), 1);
    assert_eq!(world.get_cell(1), 0);
    assert_eq!(world.get_cell(2), 0);
    assert_eq!(world.get_cell(3), 0);
    assert_eq!(world.get_cell(4), 1);
    assert_eq!(world.get_cell(5), 0);
    assert_eq!(world.get_cell(6), 0);
    assert_eq!(world.get_cell(7), 1);
    assert_eq!(world.get_cell(8), 0);
}

#[test]
fn count_nearby_cells_returns_correct_value() {
    /*
        1110
        0101
        1100
        1000
    */

    let seed = BigUint::parse_bytes(b"0001001110100111", 2).unwrap();
    let world = World::new(seed, 4).unwrap();

    assert_eq!(world.count_nearby_cells(0), 2);
    assert_eq!(world.count_nearby_cells(1), 3);
    assert_eq!(world.count_nearby_cells(2), 3);
    assert_eq!(world.count_nearby_cells(3), 2);
    assert_eq!(world.count_nearby_cells(4), 5);
    assert_eq!(world.count_nearby_cells(5), 5);
    assert_eq!(world.count_nearby_cells(6), 5);
    assert_eq!(world.count_nearby_cells(7), 1);
    assert_eq!(world.count_nearby_cells(8), 3);
    assert_eq!(world.count_nearby_cells(9), 3);
    assert_eq!(world.count_nearby_cells(10), 3);
    assert_eq!(world.count_nearby_cells(11), 1);
    assert_eq!(world.count_nearby_cells(12), 2);
    assert_eq!(world.count_nearby_cells(13), 3);
    assert_eq!(world.count_nearby_cells(14), 1);
    assert_eq!(world.count_nearby_cells(15), 0);
}

#[test]
fn advance_works_correctly() {
    /*
        110  ->  110  -> 010 -> 000 -> 000
        010      001     001    011    000
        110      110     010    000    000
    */

    let seed = BigUint::parse_bytes(b"011010011", 2).unwrap();
    let mut world = World::new(seed.clone(), 3).unwrap();

    assert_eq!(world.current_state(), seed);

    world.advance();
    assert_eq!(
        world.current_state(),
        BigUint::parse_bytes(b"011100011", 2).unwrap()
    );

    world.advance();
    assert_eq!(
        world.current_state(),
        BigUint::parse_bytes(b"010100010", 2).unwrap()
    );

    world.advance();
    assert_eq!(
        world.current_state(),
        BigUint::parse_bytes(b"000110000", 2).unwrap()
    );

    world.advance();
    assert_eq!(world.current_state(), BigUint::zero());

    world.advance();
    assert_eq!(world.current_state(), BigUint::zero());
    assert_eq!(world.is_stable(), true);
}

#[test]
fn new_size_of_zero_is_too_small() {
    let result = World::new(Zero::zero(), 0);

    assert_eq!(result.err(), Some(ConstructionError::SizeTooSmall));
}

#[test]
fn new_size_above_max_is_too_large() {
    let result = World::new(Zero::zero(), MAX_WORLD_SIZE + 1);

    assert_eq!(result.err(), Some(ConstructionError::SizeTooLarge));
}

#[test]
fn new_succeeds_at_exactly_the_maximum_size() {
    let world = World::new(BigUint::from(1u8), MAX_WORLD_SIZE).unwrap();

    assert_eq!(world.world_size(), MAX_WORLD_SIZE);
    assert_eq!(world.is_stable(), false);
    assert_eq!(world.history_len(), 1);
}

#[test]
fn advancing_twin_worlds_stays_identical() {
    let seed = BigUint::parse_bytes(b"011010011", 2).unwrap();
    let mut first = World::new(seed.clone(), 3).unwrap();
    let mut second = World::new(seed, 3).unwrap();

    for _ in 0..3 {
        first.advance();
        second.advance();

        assert_eq!(first.current_state(), second.current_state());
        assert_eq!(first.history_len(), second.history_len());
        assert_eq!(first.is_stable(), second.is_stable());
    }
}

#[test]
fn advance_changes_nothing_once_stable() {
    let seed = BigUint::parse_bytes(b"011010011", 2).unwrap();
    let mut world = World::new(seed, 3).unwrap();

    for _ in 0..5 {
        world.advance();
    }
    assert_eq!(world.is_stable(), true);

    let state = world.current_state();
    let history_len = world.history_len();

    world.advance();
    world.advance();

    assert_eq!(world.current_state(), state);
    assert_eq!(world.history_len(), history_len);
    assert_eq!(world.is_stable(), true);
}

#[test]
fn still_life_stabilizes_after_one_advance() {
    /*
        0000
        0110
        0110
        0000
    */

    let seed = BigUint::from((1u32 << 5) | (1u32 << 6) | (1u32 << 9) | (1u32 << 10));
    let mut world = World::new(seed.clone(), 4).unwrap();

    world.advance();

    assert_eq!(world.is_stable(), true);
    assert_eq!(world.current_state(), seed);
    assert_eq!(world.history_len(), 1);
}

#[test]
fn zero_state_has_no_neighbors_anywhere() {
    let world = World::new(Zero::zero(), 4).unwrap();

    for index in 0..16 {
        assert_eq!(world.count_nearby_cells(index), 0);
    }
}

#[test]
fn neighbor_counts_respect_corner_edge_interior_bounds() {
    // A fully live 3x3 grid: the corner sees 3, the edge 5, the center 8.
    let seed = BigUint::from(511u16);
    let world = World::new(seed, 3).unwrap();

    assert_eq!(world.count_nearby_cells(0), 3);
    assert_eq!(world.count_nearby_cells(1), 5);
    assert_eq!(world.count_nearby_cells(4), 8);
}
