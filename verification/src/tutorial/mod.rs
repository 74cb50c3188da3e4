pub mod progression;
pub mod systems;
