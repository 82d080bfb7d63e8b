//! A verified line-editing engine: raw terminal bytes in, submitted lines out.

pub mod buffer;
pub mod bytes;
pub mod engine;
pub mod history;
pub mod keys;
pub mod render;

pub use engine::Event;
pub use engine::Readline;
pub use engine::StepResult;
