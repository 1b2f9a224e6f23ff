pub mod grid;
pub mod biguint;
pub mod game_of_life;
pub mod render;
