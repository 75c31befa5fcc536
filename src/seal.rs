//! Seals: references to transaction outputs that custody a right.

use vstd::prelude::*;

use crate::amount::Coins;

verus! {

/// A transaction identifier (256 bits).
#[derive(Clone, Copy, Debug, PartialEq, Eq, Structural)]
pub struct Txid {
    pub hi: u128,
    pub lo: u128,
}

/// A transaction output: the transaction and the output number in it.
#[derive(Clone, Copy, Debug, PartialEq, Eq, Structural)]
pub struct OutPoint {
    pub txid: Txid,
    pub vout: u32,
}

/// A revealed seal. Without a transaction it designates an output of the
/// transaction that will carry the record itself.
#[derive(Clone, Copy, Debug, PartialEq, Eq, Structural)]
pub struct SealDefinition {
    pub txid: Option<Txid>,
    pub vout: u32,
    pub blinding: u64,
}

/// A seal hidden behind a commitment.
#[derive(Clone, Copy, Debug, PartialEq, Eq, Structural)]
pub struct ConcealedSeal {
    pub hi: u128,
    pub lo: u128,
}

/// An amount of coins to be assigned to a revealed seal.
#[derive(Clone, Copy, Debug, PartialEq, Eq, Structural)]
pub struct Outcoins {
    pub coins: Coins,
    pub seal: SealDefinition,
}

/// An amount of coins to be assigned to a concealed seal.
#[derive(Clone, Copy, Debug, PartialEq, Eq, Structural)]
pub struct Outcoincealed {
    pub coins: Coins,
    pub seal_confidential: ConcealedSeal,
}

/// The network an asset lives on, carried through unchanged.
#[derive(Clone, Copy, Debug, PartialEq, Eq, Structural)]
pub enum Chain {
    Mainnet,
    Testnet3,
    Regtest,
    Signet,
}

impl Outcoins {
    pub fn seal_definition(&self) -> (r: SealDefinition)
        ensures
            r == self.seal,
    {
        self.seal
    }
}

} // verus!
