//! The asset projection: the allocations an asset currently holds.

use vstd::prelude::*;

use crate::amount::MAX_PRECISION;
use crate::record::{field_of, find_field, FieldType, FieldValue, Genesis, NodeRef};
use crate::seal::{OutPoint, SealDefinition};

verus! {

/// An amount held at a transaction output, created as the `index`-th output
/// of the assets right of the record `origin`.
#[derive(Clone, Copy, Debug, PartialEq, Eq, Structural)]
pub struct Allocation {
    pub origin: NodeRef,
    pub index: usize,
    pub outpoint: OutPoint,
    pub value: u64,
}

/// What is known of an asset: its precision and its current allocations.
#[derive(Clone, Debug, PartialEq, Eq)]
pub struct Asset {
    pub precision: u8,
    pub allocations: Vec<Allocation>,
}

/// Why an asset projection could not be derived from a genesis.
#[derive(Clone, Copy, Debug, PartialEq, Eq, Structural)]
pub enum AssetError {
    MissingPrecision,
    MissingAssets,
}

/// The allocations of `s` held at `o`, in order.
pub open spec fn allocs_at(s: Seq<Allocation>, o: OutPoint) -> Seq<Allocation>
    decreases s.len(),
{
    if s.len() == 0 {
        seq![]
    } else if s.last().outpoint == o {
        allocs_at(s.drop_last(), o).push(s.last())
    } else {
        allocs_at(s.drop_last(), o)
    }
}

/// The allocations that a genesis creates from its revealed outputs: one per
/// output whose seal names a transaction.
pub open spec fn genesis_allocs(ours: Seq<(SealDefinition, u64)>) -> Seq<Allocation>
    decreases ours.len(),
{
    if ours.len() == 0 {
        seq![]
    } else {
        let prev = genesis_allocs(ours.drop_last());
        let (seal, value) = ours.last();
        match seal.txid {
            Some(t) => prev.push(
                Allocation {
                    origin: NodeRef::Genesis,
                    index: (ours.len() - 1) as usize,
                    outpoint: OutPoint { txid: t, vout: seal.vout },
                    value,
                },
            ),
            None => prev,
        }
    }
}

impl Asset {
    pub open spec fn wf(&self) -> bool {
        self.precision <= MAX_PRECISION
    }

    pub fn new(precision: u8, allocations: Vec<Allocation>) -> (r: Asset)
        ensures
            r.precision == precision,
            r.allocations@ == allocations@,
    {
        Asset { precision, allocations }
    }

    /// Number of fractional digits of the asset's amounts.
    pub fn fractional_bits(&self) -> (r: u8)
        ensures
            r == self.precision,
    {
        self.precision
    }

    /// The allocations currently held at `seal`.
    pub fn allocations(&self, seal: &OutPoint) -> (r: Vec<Allocation>)
        ensures
            r@ == allocs_at(self.allocations@, *seal),
    {
        let mut r: Vec<Allocation> = Vec::new();
        let mut i: usize = 0;
        while i < self.allocations.len()
            invariant
                i <= self.allocations@.len(),
                r@ == allocs_at(self.allocations@.take(i as int), *seal),
            decreases self.allocations@.len() - i,
        {
            assert(self.allocations@.take(i + 1).drop_last() == self.allocations@.take(i as int));
            let a = self.allocations[i];
            if a.outpoint == *seal {
                r.push(a);
            }
            i = i + 1;
        }
        assert(self.allocations@.take(i as int) == self.allocations@);
        r
    }

    /// The asset as its genesis creates it.
    pub fn from_genesis(genesis: &Genesis) -> (r: Result<Asset, AssetError>)
        ensures
            match field_of(genesis.metadata@, FieldType::Precision) {
                Some(FieldValue::U8(p)) if p <= MAX_PRECISION => match genesis.owned_rights.assets {
                    Some(va) => r matches Ok(a) && a.precision == p && a.allocations@
                        == genesis_allocs(va.ours@),
                    None => r == Err::<Asset, AssetError>(AssetError::MissingAssets),
                },
                _ => r == Err::<Asset, AssetError>(AssetError::MissingPrecision),
            },
    {
        let precision = match find_field(&genesis.metadata, FieldType::Precision) {
            Some(FieldValue::U8(p)) if *p <= MAX_PRECISION => *p,
            _ => return Err(AssetError::MissingPrecision),
        };
        let va = match &genesis.owned_rights.assets {
            Some(va) => va,
            None => return Err(AssetError::MissingAssets),
        };
        let mut allocations: Vec<Allocation> = Vec::new();
        let mut i: usize = 0;
        while i < va.ours.len()
            invariant
                i <= va.ours@.len(),
                allocations@ == genesis_allocs(va.ours@.take(i as int)),
            decreases va.ours@.len() - i,
        {
            assert(va.ours@.take(i + 1).drop_last() == va.ours@.take(i as int));
            let (seal, value) = va.ours[i];
            match seal.txid {
                Some(t) => {
                    allocations.push(
                        Allocation {
                            origin: NodeRef::Genesis,
                            index: i,
                            outpoint: OutPoint { txid: t, vout: seal.vout },
                            value,
                        },
                    );
                },
                None => {},
            }
            i = i + 1;
        }
        assert(va.ours@.take(i as int) == va.ours@);
        Ok(Asset { precision, allocations })
    }
}

} // verus!
