pub mod state;
pub mod systems;
pub mod ticking;
