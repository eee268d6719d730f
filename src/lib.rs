//! Verified core of a batch driver that converts many short TeX inputs by
//! spreading them over a pool of local converter daemons.
//!
//! The library decides; the program around it performs the process, socket
//! and file work that each decision calls for.
pub mod dispatch;
pub mod files;
pub mod options;
pub mod pool;
pub mod response;
pub mod server;
pub mod text;
pub mod wire;
