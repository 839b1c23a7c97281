//! What holds of the chunks of every text.

pub mod coverage;
pub mod locality;
pub mod order;
pub mod typing;
