//! Spatial index for a flock of boids: a uniform grid hash from integer cell
//! coordinates to buckets of entity ids, rebuilt from the entities' positions
//! every simulation tick. Positions are read in whole world units.
//!
//! - `cell`: points, cells, the packed 64-bit cell key and diagonal
//!   directions;
//! - `unit`: one bucket, and the text form of a cell key;
//! - `space`: the grid itself, the pair of grids a tick uses, and what holds
//!   of a grid after it is rebuilt.

pub mod cell;
pub mod space;
pub mod unit;
