//! The training core of a TD3 agent, without its arithmetic.
//!
//! The verified parts are those that do not depend on floating point: the
//! shapes of the networks, the schedule of delayed updates, and the layout of a
//! saved agent.

pub mod agent;
pub mod checkpoint;
pub mod digits;
pub mod entry;
pub mod json;
pub mod keys;
pub mod network;
pub mod persist;
pub mod roundtrip;
pub mod shape;

pub use agent::TD3;
pub use network::{Actor, Critic};
