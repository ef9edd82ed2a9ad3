//! Simulation core of a ring-dodging arcade game: a player token moves
//! between concentric rings towards the centre, dodging rotating obstacle
//! arcs before a countdown runs out.
//!
//! Geometry is fixed point: angles in micro-radians, radii in whole length
//! units, plane coordinates scaled by `consts::TRIG_SCALE`.
pub mod consts;
pub mod utils;
pub mod shapes;
pub mod components;
pub mod resources;
pub mod systems;
pub mod world;
pub mod scenes;
