//! Validation of a cell that is sealed to an unspent output of a Bitcoin-style chain.

pub mod bitcoin;
pub mod cell;
pub mod commitment;
pub mod commitment_lemmas;
pub mod error;
pub mod rgbpp;
pub mod schemas;
pub mod unlock;
pub mod verify;
pub mod wire;
