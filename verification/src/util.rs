//! Geometry primitives, display widths and identifier bookkeeping.

pub mod chars;
pub mod coord;
pub mod direction;
pub mod ext;
pub mod id;
pub mod size;
pub mod width;

pub use coord::Coord;
pub use direction::Direction;
pub use id::{Id, IdGenerator, IdSet};
pub use size::Size;
