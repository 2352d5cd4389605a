//! Terrain height field, sculpting brush, chunk mesh synchronisation and the
//! round phase machine of a stone-hurling game, in fixed-point arithmetic.
//!
//! Lengths, heights and speeds are integers in thousandths of a world unit
//! (`UNIT`); fractions such as brush weights are integers over `ONE`.
pub mod fixed;
pub mod brush;
pub mod constants;
pub mod height_map;
mod random;
pub mod point;
pub mod chunk;
pub mod sheet;
pub mod timey;
pub mod game;
pub mod player;
pub mod collision;
pub mod scatter;
