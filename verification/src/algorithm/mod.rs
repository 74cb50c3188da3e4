pub mod algorithm;
pub mod effect;
pub mod executor;
pub mod id;
pub mod procedure;
pub mod procedure_executor;
pub mod generator;
