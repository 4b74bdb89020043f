//! What the device keeps between runs.

pub mod time_task;
