//! Properties of issues and transfers, stated over their outcomes.

use vstd::prelude::*;

use crate::amount::{coins_total, transmutate_spec};
use crate::asset::{allocs_at, genesis_allocs, Allocation, Asset};
use crate::builder::{all_known, gathered, ours_allocs, ours_coins, theirs_coins, values};
use crate::processor::{
    genesis_metadata, input_total, issue_inputs_ok, issue_outcome, output_total, transfer_outcome,
    IssueStructure, ProcessorError,
};
use crate::record::{
    balanced, field_of, sum_u64, FieldType, FieldValue, Genesis, NodeRef, Transition,
};
use crate::seal::{Chain, OutPoint, Outcoincealed, Outcoins, SealDefinition, Txid};

verus! {

/// An issue with a cap is refused with a policy violation exactly when the
/// cap, converted at the asset's precision, is below the issued supply;
/// otherwise it succeeds and the genesis holds the inflation right exactly
/// once, at the reissue-control seal.
pub proof fn lemma_issue_cap(
    r: Result<(Asset, Genesis), ProcessorError>,
    network: Chain,
    ticker: String,
    name: String,
    description: Option<String>,
    max_supply: crate::amount::Coins,
    reissue_control: SealDefinition,
    allocations: Seq<Outcoins>,
    precision: u8,
    prune_seals: Seq<SealDefinition>,
    timestamp: i64,
)
    requires
        issue_outcome(
            r,
            network,
            ticker,
            name,
            description,
            IssueStructure::MultipleIssues { max_supply, reissue_control },
            allocations,
            precision,
            prune_seals,
            timestamp,
        ),
    ensures
        transmutate_spec(precision as nat, max_supply) < coins_total(
            precision as nat,
            ours_coins(allocations),
        ) <==> r matches Err(ProcessorError::Policy { .. }),
        transmutate_spec(precision as nat, max_supply) >= coins_total(
            precision as nat,
            ours_coins(allocations),
        ) ==> (r matches Ok((a, g)) && g.owned_rights.inflation matches Some(v) && v@ == seq![
            reissue_control,
        ]),
{
}

/// An issue without a cap always succeeds and creates no inflation right.
pub proof fn lemma_single_issue(
    r: Result<(Asset, Genesis), ProcessorError>,
    network: Chain,
    ticker: String,
    name: String,
    description: Option<String>,
    allocations: Seq<Outcoins>,
    precision: u8,
    prune_seals: Seq<SealDefinition>,
    timestamp: i64,
)
    requires
        issue_outcome(
            r,
            network,
            ticker,
            name,
            description,
            IssueStructure::SingleIssue,
            allocations,
            precision,
            prune_seals,
            timestamp,
        ),
    ensures
        r matches Ok((a, g)) && g.owned_rights.inflation is None,
{
}

/// Once every input is known, a transfer succeeds exactly when the inputs'
/// total equals the outputs' total, and fails with an imbalance otherwise;
/// the value assignment of a successful transfer is balanced.
pub proof fn lemma_transfer_conservation(
    r: Result<Transition, ProcessorError>,
    asset: Asset,
    inputs: Seq<OutPoint>,
    ours: Seq<Outcoins>,
    theirs: Seq<Outcoincealed>,
)
    requires
        transfer_outcome(r, asset, inputs, ours, theirs),
        all_known(asset.allocations@, inputs),
    ensures
        input_total(asset, inputs) == output_total(asset, ours, theirs) <==> r is Ok,
        input_total(asset, inputs) != output_total(asset, ours, theirs) ==> r matches Err(
            ProcessorError::Imbalance { .. },
        ),
        r matches Ok(t) ==> (t.owned_rights.assets matches Some(va) && balanced(va)),
{
}

/// A transfer with an input that holds no allocation of the asset fails with
/// an unknown input.
pub proof fn lemma_unknown_input_rejected(
    r: Result<Transition, ProcessorError>,
    asset: Asset,
    inputs: Seq<OutPoint>,
    ours: Seq<Outcoins>,
    theirs: Seq<Outcoincealed>,
    i: int,
)
    requires
        transfer_outcome(r, asset, inputs, ours, theirs),
        0 <= i < inputs.len(),
        allocs_at(asset.allocations@, inputs[i]).len() == 0,
    ensures
        r matches Err(ProcessorError::UnknownInput(_)),
{
    assert(!all_known(asset.allocations@, inputs));
}

/// Genesis metadata holds the ticker, name, precision, timestamp and issued
/// supply, and the contract text exactly when a description is given.
pub proof fn lemma_metadata_complete(
    ticker: String,
    name: String,
    description: Option<String>,
    precision: u8,
    timestamp: i64,
    issued_supply: u64,
)
    ensures
        ({
            let m = genesis_metadata(ticker, name, description, precision, timestamp, issued_supply);
            &&& field_of(m, FieldType::Ticker) == Some(FieldValue::Str(ticker))
            &&& field_of(m, FieldType::Name) == Some(FieldValue::Str(name))
            &&& field_of(m, FieldType::Precision) == Some(FieldValue::U8(precision))
            &&& field_of(m, FieldType::Timestamp) == Some(FieldValue::I64(timestamp))
            &&& field_of(m, FieldType::IssuedSupply) == Some(FieldValue::U64(issued_supply))
            &&& field_of(m, FieldType::ContractText) == match description {
                Some(d) => Some(FieldValue::Str(d)),
                None => None,
            }
        }),
{
    reveal_with_fuel(field_of, 7);
    let m = genesis_metadata(ticker, name, description, precision, timestamp, issued_supply);
    match description {
        Some(d) => {
            assert(m.drop_last() =~= seq![
                (FieldType::Ticker, FieldValue::Str(ticker)),
                (FieldType::Name, FieldValue::Str(name)),
                (FieldType::Precision, FieldValue::U8(precision)),
                (FieldType::Timestamp, FieldValue::I64(timestamp)),
                (FieldType::ContractText, FieldValue::Str(d)),
            ]);
        },
        None => {
            assert(m.drop_last() =~= seq![
                (FieldType::Ticker, FieldValue::Str(ticker)),
                (FieldType::Name, FieldValue::Str(name)),
                (FieldType::Precision, FieldValue::U8(precision)),
                (FieldType::Timestamp, FieldValue::I64(timestamp)),
            ]);
        },
    }
}

/// Two successful issues of the same allocations at the same precision carry
/// the same issued supply and the same output amounts, whatever else differs.
pub proof fn lemma_issue_deterministic(
    r1: Result<(Asset, Genesis), ProcessorError>,
    r2: Result<(Asset, Genesis), ProcessorError>,
    network1: Chain,
    network2: Chain,
    ticker1: String,
    ticker2: String,
    name1: String,
    name2: String,
    description1: Option<String>,
    description2: Option<String>,
    issue_structure1: IssueStructure,
    issue_structure2: IssueStructure,
    allocations: Seq<Outcoins>,
    precision: u8,
    prune_seals1: Seq<SealDefinition>,
    prune_seals2: Seq<SealDefinition>,
    timestamp1: i64,
    timestamp2: i64,
)
    requires
        issue_outcome(
            r1,
            network1,
            ticker1,
            name1,
            description1,
            issue_structure1,
            allocations,
            precision,
            prune_seals1,
            timestamp1,
        ),
        issue_outcome(
            r2,
            network2,
            ticker2,
            name2,
            description2,
            issue_structure2,
            allocations,
            precision,
            prune_seals2,
            timestamp2,
        ),
    ensures
        r1 matches Ok((a1, g1)) ==> r2 matches Ok((a2, g2)) ==> {
            &&& field_of(g1.metadata@, FieldType::IssuedSupply) == field_of(
                g2.metadata@,
                FieldType::IssuedSupply,
            )
            &&& g1.owned_rights.assets matches Some(va1)
            &&& g2.owned_rights.assets matches Some(va2)
            &&& va1.inputs@ == va2.inputs@
            &&& va1.ours@ == va2.ours@
            &&& a1.allocations@ == a2.allocations@
        },
{
    let issued = coins_total(precision as nat, ours_coins(allocations)) as u64;
    lemma_metadata_complete(ticker1, name1, description1, precision, timestamp1, issued);
    lemma_metadata_complete(ticker2, name2, description2, precision, timestamp2, issued);
}

/// An amount issued to a transaction output and then transferred whole, in
/// the same decimal amount, balances: the asset keeps the issue's precision,
/// so both sides convert to the same integer.
pub proof fn lemma_issue_then_transfer(
    asset: Asset,
    genesis: Genesis,
    network: Chain,
    ticker: String,
    name: String,
    description: Option<String>,
    issue_structure: IssueStructure,
    issued: Outcoins,
    precision: u8,
    prune_seals: Seq<SealDefinition>,
    timestamp: i64,
    txid: Txid,
    output: Outcoins,
    r: Result<Transition, ProcessorError>,
)
    requires
        issue_inputs_ok(issue_structure, seq![issued], precision),
        issue_outcome(
            Ok((asset, genesis)),
            network,
            ticker,
            name,
            description,
            issue_structure,
            seq![issued],
            precision,
            prune_seals,
            timestamp,
        ),
        issued.seal.txid == Some(txid),
        output.coins == issued.coins,
        transfer_outcome(
            r,
            asset,
            seq![OutPoint { txid, vout: issued.seal.vout }],
            seq![output],
            seq![],
        ),
    ensures
        r is Ok,
{
    let p = precision as nat;
    let v = transmutate_spec(p, issued.coins);
    let s = OutPoint { txid, vout: issued.seal.vout };
    let inputs = seq![s];
    reveal_with_fuel(coins_total, 2);
    reveal_with_fuel(genesis_allocs, 2);
    reveal_with_fuel(allocs_at, 2);
    reveal_with_fuel(gathered, 2);
    reveal_with_fuel(sum_u64, 2);
    assert(ours_coins(seq![issued]) =~= seq![issued.coins]);
    assert(seq![issued.coins].drop_last() =~= seq![]);
    assert(coins_total(p, seq![issued.coins]) == v);
    assert(ours_allocs(p, seq![issued]) =~= seq![(issued.seal, v as u64)]);
    assert(seq![(issued.seal, v as u64)].drop_last() =~= seq![]);
    let held = Allocation { origin: NodeRef::Genesis, index: 0, outpoint: s, value: v as u64 };
    assert(asset.allocations@ == seq![held]) by {
        assert(genesis_allocs(seq![(issued.seal, v as u64)]) =~= seq![held]);
    }
    assert(seq![held].drop_last() =~= seq![]);
    assert(allocs_at(asset.allocations@, s) =~= seq![held]);
    assert(all_known(asset.allocations@, inputs));
    assert(inputs.drop_last() =~= seq![]);
    assert(!inputs.drop_last().contains(s));
    assert(gathered(asset.allocations@, inputs.drop_last()) =~= seq![]);
    assert(gathered(asset.allocations@, inputs) =~= seq![held]);
    assert(values(seq![held]) =~= seq![v as u64]);
    assert(seq![v as u64].drop_last() =~= seq![]);
    assert(sum_u64(seq![v as u64]) == v);
    assert(ours_coins(seq![output]) =~= seq![issued.coins]);
    assert(theirs_coins(seq![]) =~= seq![]);
    assert(input_total(asset, inputs) == output_total(asset, seq![output], seq![]));
}

} // verus!
