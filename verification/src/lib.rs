//! Control core of a networked light: a chunked transfer protocol over a
//! narrow wireless channel, and a scheduler of recurring light commands.

pub mod light;
pub mod store;
pub mod time_sync;
pub mod timer;
pub mod transmission;
