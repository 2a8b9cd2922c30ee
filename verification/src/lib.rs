//! A toroidal grid of coloured cells that evolves generation by generation
//! under a caller-supplied local rule.
//!
//! `cell` holds the value types and `matrix` the dense storage, kept in
//! `nalgebra` matrices. `mirror` builds the wrap-around index. `view` is the
//! mathematical model of a world, `world` the grid with its set of inactive
//! cells and `engine` the step from one generation to the next. `laws`
//! states what holds of the model as a whole, `filters` the facts on
//! filtered lists that the proofs share, and `controller` turns decoded
//! inputs into changes of a world.
pub mod cell;
pub mod controller;
pub mod engine;
pub mod filters;
pub mod laws;
pub mod matrix;
pub mod mirror;
pub mod view;
pub mod world;
