//! A first-person raycasting maze renderer.
//!
//! A 2D tile grid plus a player pose (position and heading) is turned into a
//! column-by-column pseudo-3D projection with a synchronized top-down minimap.
//! All continuous quantities (positions, distances, angles) are carried as
//! fixed-point integers scaled by 1000, so the whole pipeline is plain integer
//! arithmetic: grid-space coordinates in thousandths of a cell, angles in
//! milliradians.

pub mod draw;
pub mod fixed;
pub mod grid;
pub mod palette;
pub mod raycaster;
pub mod render;
pub mod session;
pub mod trig;
