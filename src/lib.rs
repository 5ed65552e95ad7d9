//! A two-dimensional particle simulator on integer fixed-point arithmetic:
//! particles move at constant velocity in a square arena and turn their
//! heading when they reach a wall.

pub mod angle;
pub mod particle;
pub mod engine;
