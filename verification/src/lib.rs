//! Land, estate and undeployed-land-block logic of a metaverse chain,
//! with its storage modelled as keyed tables and its contracts proved.
pub mod continuum;
pub mod encoding;
pub mod estate;
pub mod geometry;
pub mod node;
pub mod supply;
pub mod table;
pub mod tokenization;
pub mod types;
pub mod weights;
