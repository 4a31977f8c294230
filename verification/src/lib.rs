//! Simulation core of a top-down action game: a k-d tree spatial index over
//! entity positions, a collision resolver driven by it, and the schedulers
//! that rebuild the index and admit new enemies over time.
//!
//! Positions are fixed-point world coordinates held in `i64`; how many units
//! make one world metre is the caller's choice. Time is counted in
//! milliseconds.

pub mod collision;
pub mod config;
pub mod geom;
pub mod kdtree;
pub mod population;
pub mod rebuild;
pub mod registry;
pub mod world;

pub use config::{Config, ConfigError};
pub use geom::KdPoint;
pub use kdtree::KdTree;
pub use population::PopulationScheduler;
pub use rebuild::RebuildScheduler;
pub use registry::{Enemy, GameEvent, Player, Projectile, Registry};
pub use world::World;
