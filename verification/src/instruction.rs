//! What the instructions of the program decide.

pub mod tag;
pub mod transaction;
