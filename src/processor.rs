//! The two entry points: issuing a new asset and transferring part of one.

use vstd::prelude::*;

use crate::amount::{
    checked_transmutate, coins_ok, coins_total, lemma_coins_total_prefix, transmutate,
    transmutate_spec, Coins, MAX_PRECISION,
};
use crate::asset::{genesis_allocs, Asset, AssetError};
use crate::builder::{
    all_known, allocate_ours, allocate_theirs, first_unknown_is, gather_inputs, gathered,
    group_parents, input_values, ours_allocs, ours_coins, parents_of, sum_values, theirs_allocs,
    theirs_coins, values,
};
use crate::record::{
    balanced, field_of, sum_u64, total_of, FieldType, FieldValue, Genesis, OwnedRights, Transition,
    TransitionType, ValueAssignment,
};
use crate::seal::{Chain, OutPoint, Outcoincealed, Outcoins, SealDefinition};

verus! {

/// Builds genesis and transfer records for fungible assets. It holds no state.
#[derive(Clone, Copy, Debug, PartialEq, Eq, Structural)]
pub struct Processor {}

/// The processor could not be set up.
#[derive(Clone, Copy, Debug, PartialEq, Eq, Structural)]
pub enum BootstrapError {
    SchemaUnavailable,
}

/// Whether more of an asset may be issued later, and up to what cap.
#[derive(Clone, Copy, Debug, PartialEq, Eq, Structural)]
pub enum IssueStructure {
    SingleIssue,
    MultipleIssues { max_supply: Coins, reissue_control: SealDefinition },
}

/// Why an issue or a transfer was refused.
#[derive(Clone, Copy, Debug, PartialEq, Eq, Structural)]
pub enum ProcessorError {
    /// The declared maximum supply is below the supply being issued.
    Policy { total_supply: u64, issued_supply: u64 },
    /// A transfer input holds no allocation of the asset.
    UnknownInput(OutPoint),
    /// The transfer's inputs and outputs carry different totals.
    Imbalance { inputs: u64, outputs: u64 },
    /// The genesis does not yield an asset.
    Asset(AssetError),
}

/// The metadata of a genesis, in order.
pub open spec fn genesis_metadata(
    ticker: String,
    name: String,
    description: Option<String>,
    precision: u8,
    timestamp: i64,
    issued_supply: u64,
) -> Seq<(FieldType, FieldValue)> {
    let head = seq![
        (FieldType::Ticker, FieldValue::Str(ticker)),
        (FieldType::Name, FieldValue::Str(name)),
        (FieldType::Precision, FieldValue::U8(precision)),
        (FieldType::Timestamp, FieldValue::I64(timestamp)),
    ];
    let text = match description {
        Some(d) => seq![(FieldType::ContractText, FieldValue::Str(d))],
        None => seq![],
    };
    head + text + seq![(FieldType::IssuedSupply, FieldValue::U64(issued_supply))]
}

/// What the caller of an issue must supply: amounts the converter accepts and
/// totals that fit in 64 bits.
pub open spec fn issue_inputs_ok(
    issue_structure: IssueStructure,
    allocations: Seq<Outcoins>,
    precision: u8,
) -> bool {
    &&& precision <= MAX_PRECISION
    &&& forall|j: int| 0 <= j < allocations.len() ==> coins_ok(#[trigger] allocations[j].coins)
    &&& coins_total(precision as nat, ours_coins(allocations)) <= u64::MAX
    &&& match issue_structure {
        IssueStructure::MultipleIssues { max_supply, .. } => coins_ok(max_supply) && transmutate_spec(
            precision as nat,
            max_supply,
        ) <= u64::MAX,
        IssueStructure::SingleIssue => true,
    }
}

/// The issue is refused: the cap is below the issued supply.
pub open spec fn over_cap(issue_structure: IssueStructure, allocations: Seq<Outcoins>, precision: u8) -> bool {
    match issue_structure {
        IssueStructure::MultipleIssues { max_supply, .. } => transmutate_spec(
            precision as nat,
            max_supply,
        ) < coins_total(precision as nat, ours_coins(allocations)),
        IssueStructure::SingleIssue => false,
    }
}

/// `g` is the genesis that issuing these arguments at `timestamp` builds.
pub open spec fn issued_genesis(
    g: Genesis,
    network: Chain,
    ticker: String,
    name: String,
    description: Option<String>,
    issue_structure: IssueStructure,
    allocations: Seq<Outcoins>,
    precision: u8,
    prune_seals: Seq<SealDefinition>,
    timestamp: i64,
) -> bool {
    let issued = coins_total(precision as nat, ours_coins(allocations));
    &&& g.network == network
    &&& g.metadata@ == genesis_metadata(
        ticker,
        name,
        description,
        precision,
        timestamp,
        issued as u64,
    )
    &&& g.owned_rights.assets matches Some(va) && va.inputs@ == seq![issued as u64] && va.ours@
        == ours_allocs(precision as nat, allocations) && va.theirs@.len() == 0 && balanced(va)
    &&& match issue_structure {
        IssueStructure::MultipleIssues { reissue_control, .. } => g.owned_rights.inflation matches Some(
            v,
        ) && v@ == seq![reissue_control],
        IssueStructure::SingleIssue => g.owned_rights.inflation is None,
    }
    &&& if prune_seals.len() > 0 {
        g.owned_rights.burn_replace matches Some(v) && v@ == prune_seals
    } else {
        g.owned_rights.burn_replace is None
    }
}

/// The outcome of issuing these arguments at `timestamp`.
pub open spec fn issue_outcome(
    r: Result<(Asset, Genesis), ProcessorError>,
    network: Chain,
    ticker: String,
    name: String,
    description: Option<String>,
    issue_structure: IssueStructure,
    allocations: Seq<Outcoins>,
    precision: u8,
    prune_seals: Seq<SealDefinition>,
    timestamp: i64,
) -> bool {
    if over_cap(issue_structure, allocations, precision) {
        r == Err::<(Asset, Genesis), ProcessorError>(
            ProcessorError::Policy {
                total_supply: match issue_structure {
                    IssueStructure::MultipleIssues { max_supply, .. } => transmutate_spec(
                        precision as nat,
                        max_supply,
                    ) as u64,
                    IssueStructure::SingleIssue => 0,
                },
                issued_supply: coins_total(precision as nat, ours_coins(allocations)) as u64,
            },
        )
    } else {
        r matches Ok((a, g)) && issued_genesis(
            g,
            network,
            ticker,
            name,
            description,
            issue_structure,
            allocations,
            precision,
            prune_seals,
            timestamp,
        ) && a.precision == precision && a.allocations@ == genesis_allocs(
            ours_allocs(precision as nat, allocations),
        )
    }
}

/// What the caller of a transfer must supply: a well-formed asset, amounts the
/// converter accepts and totals that fit in 64 bits.
pub open spec fn transfer_inputs_ok(
    asset: Asset,
    inputs: Seq<OutPoint>,
    ours: Seq<Outcoins>,
    theirs: Seq<Outcoincealed>,
) -> bool {
    let p = asset.precision as nat;
    &&& asset.wf()
    &&& forall|j: int| 0 <= j < ours.len() ==> coins_ok(#[trigger] ours[j].coins)
    &&& forall|j: int| 0 <= j < theirs.len() ==> coins_ok(#[trigger] theirs[j].coins)
    &&& coins_total(p, ours_coins(ours)) + coins_total(p, theirs_coins(theirs)) <= u64::MAX
    &&& sum_u64(values(gathered(asset.allocations@, inputs))) <= u64::MAX
}

/// Total of the allocations that the inputs of a transfer resolve to.
pub open spec fn input_total(asset: Asset, inputs: Seq<OutPoint>) -> nat {
    sum_u64(values(gathered(asset.allocations@, inputs)))
}

/// Total of the outputs of a transfer at the asset's precision.
pub open spec fn output_total(asset: Asset, ours: Seq<Outcoins>, theirs: Seq<Outcoincealed>) -> nat {
    coins_total(asset.precision as nat, ours_coins(ours)) + coins_total(
        asset.precision as nat,
        theirs_coins(theirs),
    )
}

/// `t` is the transition that a transfer of these arguments builds.
pub open spec fn transferred(
    t: Transition,
    asset: Asset,
    inputs: Seq<OutPoint>,
    ours: Seq<Outcoins>,
    theirs: Seq<Outcoincealed>,
) -> bool {
    let spent = gathered(asset.allocations@, inputs);
    &&& t.transition_type == TransitionType::Transfer
    &&& t.metadata@.len() == 0
    &&& parents_of(t.parent@, spent)
    &&& t.owned_rights.assets matches Some(va) && va.inputs@ == values(spent) && va.ours@
        == ours_allocs(asset.precision as nat, ours) && va.theirs@ == theirs_allocs(
        asset.precision as nat,
        theirs,
    ) && balanced(va)
    &&& t.owned_rights.inflation is None
    &&& t.owned_rights.burn_replace is None
}

/// The outcome of a transfer of these arguments.
pub open spec fn transfer_outcome(
    r: Result<Transition, ProcessorError>,
    asset: Asset,
    inputs: Seq<OutPoint>,
    ours: Seq<Outcoins>,
    theirs: Seq<Outcoincealed>,
) -> bool {
    if !all_known(asset.allocations@, inputs) {
        r matches Err(ProcessorError::UnknownInput(o)) && first_unknown_is(
            asset.allocations@,
            inputs,
            o,
        )
    } else if input_total(asset, inputs) != output_total(asset, ours, theirs) {
        r == Err::<Transition, ProcessorError>(
            ProcessorError::Imbalance {
                inputs: input_total(asset, inputs) as u64,
                outputs: output_total(asset, ours, theirs) as u64,
            },
        )
    } else {
        r matches Ok(t) && transferred(t, asset, inputs, ours, theirs)
    }
}

/// Whether the arguments of an issue are within what `Processor::issue`
/// accepts.
pub fn issue_inputs_valid(
    issue_structure: IssueStructure,
    allocations: &Vec<Outcoins>,
    precision: u8,
) -> (r: bool)
    ensures
        r == issue_inputs_ok(issue_structure, allocations@, precision),
{
    if precision > MAX_PRECISION {
        return false;
    }
    let mut total: u64 = 0;
    let mut i: usize = 0;
    while i < allocations.len()
        invariant
            i <= allocations@.len(),
            precision <= MAX_PRECISION,
            forall|j: int| 0 <= j < i ==> coins_ok(#[trigger] allocations@[j].coins),
            total == coins_total(precision as nat, ours_coins(allocations@.take(i as int))),
        decreases allocations@.len() - i,
    {
        let c = allocations[i].coins;
        proof {
            assert(ours_coins(allocations@.take(i + 1)).drop_last() == ours_coins(
                allocations@.take(i as int),
            ));
            assert(ours_coins(allocations@.take(i + 1)) == ours_coins(allocations@).take(i + 1));
            lemma_coins_total_prefix(precision as nat, ours_coins(allocations@), i + 1);
        }
        if c.scale > MAX_PRECISION {
            return false;
        }
        match checked_transmutate(precision, c) {
            Some(a) => {
                if a > u64::MAX - total {
                    return false;
                }
                total = total + a;
            },
            None => {
                return false;
            },
        }
        i = i + 1;
    }
    assert(allocations@.take(i as int) == allocations@);
    match issue_structure {
        IssueStructure::MultipleIssues { max_supply, .. } => checked_transmutate(
            precision,
            max_supply,
        ).is_some(),
        IssueStructure::SingleIssue => true,
    }
}

impl Processor {
    pub fn new() -> (r: Result<Processor, BootstrapError>)
        ensures
            r is Ok,
    {
        Ok(Processor {  })
    }

    /// Builds the genesis of a new asset, stamped with `timestamp` (seconds
    /// since the Unix epoch), and the asset it creates.
    pub fn issue(
        &mut self,
        network: Chain,
        ticker: String,
        name: String,
        description: Option<String>,
        issue_structure: IssueStructure,
        allocations: Vec<Outcoins>,
        precision: u8,
        prune_seals: Vec<SealDefinition>,
        timestamp: i64,
    ) -> (r: Result<(Asset, Genesis), ProcessorError>)
        requires
            issue_inputs_ok(issue_structure, allocations@, precision),
        ensures
            *final(self) == *old(self),
            issue_outcome(
                r,
                network,
                ticker,
                name,
                description,
                issue_structure,
                allocations@,
                precision,
                prune_seals@,
                timestamp,
            ),
    {
        let mut metadata: Vec<(FieldType, FieldValue)> = Vec::new();
        metadata.push((FieldType::Ticker, FieldValue::Str(ticker)));
        metadata.push((FieldType::Name, FieldValue::Str(name)));
        metadata.push((FieldType::Precision, FieldValue::U8(precision)));
        metadata.push((FieldType::Timestamp, FieldValue::I64(timestamp)));
        match description {
            Some(d) => metadata.push((FieldType::ContractText, FieldValue::Str(d))),
            None => {},
        }

        let (ours, issued_supply) = allocate_ours(precision, &allocations);
        let mut inputs: Vec<u64> = Vec::new();
        inputs.push(issued_supply);
        let assets = ValueAssignment { inputs, ours, theirs: Vec::new() };
        proof {
            reveal_with_fuel(sum_u64, 2);
            reveal_with_fuel(total_of, 1);
        }
        assert(balanced(assets));
        metadata.push((FieldType::IssuedSupply, FieldValue::U64(issued_supply)));

        let inflation = match issue_structure {
            IssueStructure::MultipleIssues { max_supply, reissue_control } => {
                let total_supply = transmutate(precision, max_supply);
                if total_supply < issued_supply {
                    return Err(ProcessorError::Policy { total_supply, issued_supply });
                }
                let mut seals: Vec<SealDefinition> = Vec::new();
                seals.push(reissue_control);
                Some(seals)
            },
            IssueStructure::SingleIssue => None,
        };

        let burn_replace = if prune_seals.len() > 0 {
            Some(prune_seals)
        } else {
            None
        };

        let genesis = Genesis {
            network,
            metadata,
            owned_rights: OwnedRights { assets: Some(assets), inflation, burn_replace },
        };
        assert(genesis.metadata@ == genesis_metadata(
            ticker,
            name,
            description,
            precision,
            timestamp,
            issued_supply,
        ));
        proof {
            reveal_with_fuel(field_of, 7);
            assert(field_of(genesis.metadata@, FieldType::Precision) == Some(
                FieldValue::U8(precision),
            ));
        }
        let asset = match Asset::from_genesis(&genesis) {
            Ok(a) => a,
            Err(e) => return Err(ProcessorError::Asset(e)),
        };
        Ok((asset, genesis))
    }

    /// Builds a transfer of the allocations held at `inputs` to the revealed
    /// outputs `ours` and the concealed outputs `theirs`. The inputs count as
    /// a set: an outpoint listed twice is spent once.
    pub fn transfer(
        &mut self,
        asset: &mut Asset,
        inputs: Vec<OutPoint>,
        ours: Vec<Outcoins>,
        theirs: Vec<Outcoincealed>,
    ) -> (r: Result<Transition, ProcessorError>)
        requires
            transfer_inputs_ok(*old(asset), inputs@, ours@, theirs@),
        ensures
            *final(self) == *old(self),
            *final(asset) == *old(asset),
            transfer_outcome(r, *old(asset), inputs@, ours@, theirs@),
    {
        let spent = match gather_inputs(asset, &inputs) {
            Ok(v) => v,
            Err(o) => return Err(ProcessorError::UnknownInput(o)),
        };
        let input_amounts = input_values(&spent);
        let total_inputs = sum_values(&input_amounts);

        let precision = asset.fractional_bits();
        let (allocations_ours, total_ours) = allocate_ours(precision, &ours);
        let (allocations_theirs, total_theirs) = allocate_theirs(precision, &theirs);
        let total_outputs = total_ours + total_theirs;

        if total_inputs != total_outputs {
            return Err(ProcessorError::Imbalance { inputs: total_inputs, outputs: total_outputs });
        }

        let parent = group_parents(&spent);
        let assets = ValueAssignment {
            inputs: input_amounts,
            ours: allocations_ours,
            theirs: allocations_theirs,
        };
        Ok(
            Transition {
                transition_type: TransitionType::Transfer,
                metadata: Vec::new(),
                parent,
                owned_rights: OwnedRights { assets: Some(assets), inflation: None, burn_replace: None },
            },
        )
    }
}

} // verus!
