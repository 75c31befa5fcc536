//! Construction of genesis and transfer records for a UTXO-anchored fungible
//! asset, with the value-conservation rules proved.

pub mod amount;
pub mod asset;
pub mod builder;
pub mod laws;
pub mod processor;
pub mod record;
pub mod seal;
