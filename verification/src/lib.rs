//! A real-time danmaku relay: a bounded pool of recent events and the
//! decisions that bind one client connection to the pool and to the fan-out
//! channel.

pub mod cli;
pub mod connection;
pub mod danmaku;
pub mod error;
pub mod history;
pub mod listener;
pub mod model;
pub mod pool;
pub mod slots;

pub use danmaku::Danmaku;
pub use error::DanmakuError;
