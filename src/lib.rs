//! Vote accumulation into quorum certificates, and the event types that carry
//! consensus progress between tasks and to outside observers.

pub mod accumulator;
pub mod commitment;
pub mod event;
pub mod events;
pub mod vote;
