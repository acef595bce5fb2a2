//! Handles on outcomes and sequences that may not be available yet, each
//! with the decision of every turn stated and proved as a state machine.

pub mod result;
pub mod stream;
