pub mod cracker;
pub mod errors;
pub mod formats;
pub mod generator;
pub mod utils;

pub use cracker::CrackerEngine;
pub use generator::{GeneratorMode, PasswordGenerator};
