use game_of_life::game_of_life::World;

use num_bigint::BigUint;
use num_traits::Zero;

#[test]
fn to_text_renders_a_single_live_cell() {
    let world = World::new(BigUint::from(1u8), 1).unwrap();

    assert_eq!(world.to_text(), "┌──┐\n|██|\n└──┘\n");
}

#[test]
fn to_text_renders_rows_of_a_two_by_two_world() {
    // Only the cell at flat index 2 (second row, first column) is alive.
    let world = World::new(BigUint::from(4u8), 2).unwrap();

    assert_eq!(world.to_text(), "┌────┐\n|    |\n|██  |\n└────┘\n");
}

#[test]
fn to_text_of_a_dead_world_is_all_blanks() {
    let world = World::new(Zero::zero(), 2).unwrap();

    assert_eq!(world.to_text(), "┌────┐\n|    |\n|    |\n└────┘\n");
}
