//! Chunk streaming for an unbounded tiled world.
//!
//! A moving reference point is mapped onto a grid of square chunks, and the
//! set of chunks that exist is kept equal to the square window around the
//! chunk that holds the reference point.

pub mod actions;
pub mod coordinate;
pub mod decoration;
pub mod grid;
pub mod manager;
pub mod required;
pub mod reconcile;
pub mod sequences;
pub mod state;
