//! A single-producer multiple-consumer buffer: triple buffering for several
//! consumers, with reference-counted buffers.

pub mod buffer;
pub mod counting;
pub mod index;
pub mod input;
pub mod meaning;
pub mod model;
pub mod operations;
pub mod output;
pub mod progress;
pub mod safety;
pub mod shared;
pub mod tightness;

pub use crate::buffer::SPMCBuffer;
pub use crate::index::{MAX_BUFFERS, MAX_CONCURRENT_READERS};
pub use crate::input::SPMCBufferInput;
pub use crate::output::SPMCBufferOutput;
pub use crate::shared::{Buffer, SPMCBufferSharedState};
