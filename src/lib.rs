//! Totem challenges: a secret item shown among four decoys at a random
//! position, and the check of the position a user reports.

pub mod digits;
pub mod config;
pub mod words;
pub mod engine;
pub mod paths;
