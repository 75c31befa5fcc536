//! Genesis and transition records and their parts.

use vstd::prelude::*;

use crate::seal::{Chain, ConcealedSeal, SealDefinition, Txid};

verus! {

/// The metadata fields that the fungible-asset schema declares.
#[derive(Clone, Copy, Debug, PartialEq, Eq, Structural)]
pub enum FieldType {
    Ticker,
    Name,
    ContractText,
    Precision,
    Timestamp,
    IssuedSupply,
}

/// A typed metadata value.
#[derive(Clone, Debug, PartialEq, Eq)]
pub enum FieldValue {
    Str(String),
    U8(u8),
    U64(u64),
    I64(i64),
}

/// The ownership-right types that the fungible-asset schema declares.
#[derive(Clone, Copy, Debug, PartialEq, Eq, Structural)]
pub enum OwnedRightsType {
    Assets,
    Inflation,
    BurnReplace,
}

/// The state-transition types that the fungible-asset schema declares.
#[derive(Clone, Copy, Debug, PartialEq, Eq, Structural)]
pub enum TransitionType {
    Transfer,
}

/// Identifier of a transition record.
#[derive(Clone, Copy, Debug, PartialEq, Eq, Structural)]
pub struct NodeId {
    pub id: Txid,
}

/// The record that created an allocation: the asset's genesis or a transition.
#[derive(Clone, Copy, Debug, PartialEq, Eq, Structural)]
pub enum NodeRef {
    Genesis,
    Transition(NodeId),
}

/// A zero-balanced value assignment: input values on one side, revealed and
/// concealed outputs on the other.
#[derive(Clone, Debug, PartialEq, Eq)]
pub struct ValueAssignment {
    pub inputs: Vec<u64>,
    pub ours: Vec<(SealDefinition, u64)>,
    pub theirs: Vec<(ConcealedSeal, u64)>,
}

/// The assignments of a record, one slot per right type. The inflation and
/// burn/replace rights are declarative: seals without a value.
#[derive(Clone, Debug, PartialEq, Eq)]
pub struct OwnedRights {
    pub assets: Option<ValueAssignment>,
    pub inflation: Option<Vec<SealDefinition>>,
    pub burn_replace: Option<Vec<SealDefinition>>,
}

/// The allocations of one earlier record that a transition consumes.
#[derive(Clone, Debug, PartialEq, Eq)]
pub struct ParentEntry {
    pub node: NodeRef,
    pub right: OwnedRightsType,
    pub indices: Vec<usize>,
}

/// The root record of an asset.
#[derive(Clone, Debug, PartialEq, Eq)]
pub struct Genesis {
    pub network: Chain,
    pub metadata: Vec<(FieldType, FieldValue)>,
    pub owned_rights: OwnedRights,
}

/// A record that spends earlier allocations and creates new ones.
#[derive(Clone, Debug, PartialEq, Eq)]
pub struct Transition {
    pub transition_type: TransitionType,
    pub metadata: Vec<(FieldType, FieldValue)>,
    pub parent: Vec<ParentEntry>,
    pub owned_rights: OwnedRights,
}

/// Sum of a sequence of integer amounts.
pub open spec fn sum_u64(s: Seq<u64>) -> nat
    decreases s.len(),
{
    if s.len() == 0 {
        0
    } else {
        sum_u64(s.drop_last()) + (s.last() as nat)
    }
}

/// Sum of the amounts of a list of (destination, amount) pairs.
pub open spec fn total_of<A>(s: Seq<(A, u64)>) -> nat
    decreases s.len(),
{
    if s.len() == 0 {
        0
    } else {
        total_of(s.drop_last()) + (s.last().1 as nat)
    }
}

/// The input side of a value assignment equals its output side.
pub open spec fn balanced(a: ValueAssignment) -> bool {
    sum_u64(a.inputs@) == total_of(a.ours@) + total_of(a.theirs@)
}

/// The value of the last metadata entry with field type `ft`.
pub open spec fn field_of(m: Seq<(FieldType, FieldValue)>, ft: FieldType) -> Option<FieldValue>
    decreases m.len(),
{
    if m.len() == 0 {
        None
    } else if m.last().0 == ft {
        Some(m.last().1)
    } else {
        field_of(m.drop_last(), ft)
    }
}

/// Looks up a metadata field; entries later in the list take precedence.
pub fn find_field(m: &Vec<(FieldType, FieldValue)>, ft: FieldType) -> (r: Option<&FieldValue>)
    ensures
        r matches Some(v) ==> field_of(m@, ft) == Some(*v),
        r is None ==> field_of(m@, ft) is None,
{
    let mut i: usize = m.len();
    assert(m@.take(i as int) == m@);
    while i > 0
        invariant
            i <= m@.len(),
            field_of(m@, ft) == field_of(m@.take(i as int), ft),
        decreases i,
    {
        assert(m@.take(i as int).drop_last() == m@.take(i - 1));
        if m[i - 1].0 == ft {
            return Some(&m[i - 1].1);
        }
        i = i - 1;
    }
    None
}

} // verus!
