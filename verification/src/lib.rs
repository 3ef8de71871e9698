//! A durable, ordered history of the distinct text values seen on a clipboard,
//! and the monitor that decides when a value is recorded and announced.

pub mod history;
pub mod monitor;
pub mod world;
