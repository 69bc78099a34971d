//! What the operations of the library promise, stated of their inputs and results.

pub mod bridging;
pub mod configuring;
pub mod effecting;
pub mod holding;
pub mod linking;
pub mod posting;
pub mod reading;
pub mod serving;
pub mod storing;
pub mod telling;
