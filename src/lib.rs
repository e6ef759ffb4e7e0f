//! Decision logic and sample storage of a threshold-triggered recorder/looper.
//!
//! The circular store keeps the most recently captured excerpt and replays it
//! modulo the recorded length; the controller decides, segment by segment, how
//! much of each block is captured and with which fade ramp.
mod arith;
pub mod controller;
pub mod state;
pub mod store;

pub use controller::{Action, BlockMode, Controller, Ramp};
pub use state::State;
pub use store::{capacity_frames, Store};
