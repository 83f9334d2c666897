pub mod cell;
pub mod rules;
pub mod world;

pub use cell::{Cell, CellStatus, CubeCell, Health, HealthStatus, Index, HEALTH, MIN_HEALTH};
pub use rules::{ConfigError, Rules};
pub use world::World;
