//! A grid-based falling-sand simulation: an occupancy grid, a store of sand
//! particles, the per-tick fall rule, and a compositor that turns particle
//! positions into a frame buffer.
pub mod grid;
pub mod particle;
pub mod store;
pub mod frame;
pub mod laws;
