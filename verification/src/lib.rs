//! A task-tracking library: a validated task entity, an in-memory task store
//! with monotone id allocation, and a use-case layer that enforces the task
//! lifecycle rules on top of it.

mod clock;
pub mod repository;
pub mod task;
pub mod text;
pub mod usecase;
