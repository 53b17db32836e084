//! Weights of calls: a base cost plus the cost of the storage reads and
//! writes a call makes, all in saturating arithmetic.
pub mod auction;
pub mod db;
pub mod economy;
pub mod reward;
