use rgb_fungible::amount::{checked_transmutate, coins_of, transmutate, Coins};
use rgb_fungible::asset::{Allocation, Asset, AssetError};
use rgb_fungible::builder::group_parents;
use rgb_fungible::processor::{issue_inputs_valid, IssueStructure, Processor, ProcessorError};
use rgb_fungible::record::{
    find_field, FieldType, FieldValue, Genesis, NodeId, NodeRef, OwnedRights, OwnedRightsType,
    TransitionType, ValueAssignment,
};
use rgb_fungible::seal::{
    Chain, ConcealedSeal, OutPoint, Outcoincealed, Outcoins, SealDefinition, Txid,
};

fn txid(n: u128) -> Txid {
    Txid { hi: 0, lo: n }
}

fn seal(n: u128, vout: u32) -> SealDefinition {
    SealDefinition { txid: Some(txid(n)), vout, blinding: 7 }
}

fn coins(mantissa: u64, scale: u8) -> Coins {
    Coins { mantissa, scale }
}

fn outcoins(mantissa: u64, scale: u8, s: SealDefinition) -> Outcoins {
    Outcoins { coins: coins(mantissa, scale), seal: s }
}

fn held(origin: NodeRef, index: usize, n: u128, vout: u32, value: u64) -> Allocation {
    Allocation { origin, index, outpoint: OutPoint { txid: txid(n), vout }, value }
}

fn issue_simple(
    structure: IssueStructure,
    description: Option<String>,
    prune: Vec<SealDefinition>,
) -> Result<(Asset, Genesis), ProcessorError> {
    let mut p = Processor::new().unwrap();
    p.issue(
        Chain::Testnet3,
        "TCK".to_string(),
        "Token".to_string(),
        description,
        structure,
        vec![outcoins(1000, 2, seal(1, 0)), outcoins(550, 2, seal(2, 1))],
        2,
        prune,
        1_600_000_000,
    )
}

#[test]
fn transmutate_scales_to_precision() {
    assert_eq!(transmutate(2, coins(1000, 2)), 1000);
    assert_eq!(transmutate(2, coins(549, 2)), 549);
    assert_eq!(transmutate(3, coins(55, 1)), 5500);
    assert_eq!(transmutate(0, coins(7, 0)), 7);
    assert_eq!(transmutate(8, coins(1, 0)), 100_000_000);
}

#[test]
fn transmutate_truncates_extra_digits() {
    assert_eq!(transmutate(2, coins(12345, 3)), 1234);
    assert_eq!(transmutate(0, coins(999, 3)), 0);
}

#[test]
fn transmutate_largest_amount() {
    assert_eq!(transmutate(0, coins(u64::MAX, 0)), u64::MAX);
    assert_eq!(transmutate(18, coins(u64::MAX, 18)), u64::MAX);
}

#[test]
fn round_trip_is_stable() {
    let c = coins(123_456, 4);
    let a = transmutate(2, c);
    assert_eq!(a, 1234);
    assert_eq!(transmutate(2, coins_of(2, a)), a);
    assert_eq!(transmutate(2, c), a);
}

#[test]
fn processor_new_succeeds() {
    assert!(Processor::new().is_ok());
}

#[test]
fn single_issue_example() {
    let (asset, genesis) = issue_simple(IssueStructure::SingleIssue, None, vec![]).unwrap();
    assert_eq!(genesis.network, Chain::Testnet3);
    assert_eq!(
        find_field(&genesis.metadata, FieldType::IssuedSupply),
        Some(&FieldValue::U64(1550))
    );
    let va = genesis.owned_rights.assets.clone().unwrap();
    assert_eq!(va.inputs, vec![1550]);
    assert_eq!(va.ours, vec![(seal(1, 0), 1000), (seal(2, 1), 550)]);
    assert!(va.theirs.is_empty());
    assert_eq!(genesis.owned_rights.inflation, None);
    assert_eq!(genesis.owned_rights.burn_replace, None);
    assert_eq!(asset.precision, 2);
    assert_eq!(
        asset.allocations,
        vec![
            held(NodeRef::Genesis, 0, 1, 0, 1000),
            held(NodeRef::Genesis, 1, 2, 1, 550),
        ]
    );
}

#[test]
fn issue_with_cap_below_supply_fails() {
    let r = issue_simple(
        IssueStructure::MultipleIssues { max_supply: coins(1549, 2), reissue_control: seal(9, 0) },
        None,
        vec![],
    );
    assert_eq!(r, Err(ProcessorError::Policy { total_supply: 1549, issued_supply: 1550 }));
}

#[test]
fn issue_with_cap_equal_to_supply_succeeds() {
    let (_, genesis) = issue_simple(
        IssueStructure::MultipleIssues { max_supply: coins(155, 1), reissue_control: seal(9, 0) },
        None,
        vec![],
    )
    .unwrap();
    assert_eq!(genesis.owned_rights.inflation, Some(vec![seal(9, 0)]));
}

#[test]
fn issue_with_prune_seals_adds_burn_replace() {
    let (_, genesis) =
        issue_simple(IssueStructure::SingleIssue, None, vec![seal(5, 0), seal(6, 2)]).unwrap();
    assert_eq!(genesis.owned_rights.burn_replace, Some(vec![seal(5, 0), seal(6, 2)]));
}

#[test]
fn metadata_without_description() {
    let (_, genesis) = issue_simple(IssueStructure::SingleIssue, None, vec![]).unwrap();
    let m = &genesis.metadata;
    assert_eq!(find_field(m, FieldType::Ticker), Some(&FieldValue::Str("TCK".to_string())));
    assert_eq!(find_field(m, FieldType::Name), Some(&FieldValue::Str("Token".to_string())));
    assert_eq!(find_field(m, FieldType::Precision), Some(&FieldValue::U8(2)));
    assert_eq!(find_field(m, FieldType::Timestamp), Some(&FieldValue::I64(1_600_000_000)));
    assert_eq!(find_field(m, FieldType::ContractText), None);
    assert_eq!(m.len(), 5);
}

#[test]
fn metadata_with_description() {
    let (_, genesis) =
        issue_simple(IssueStructure::SingleIssue, Some("terms".to_string()), vec![]).unwrap();
    assert_eq!(
        find_field(&genesis.metadata, FieldType::ContractText),
        Some(&FieldValue::Str("terms".to_string()))
    );
    assert_eq!(genesis.metadata.len(), 6);
}

#[test]
fn genesis_seal_without_txid_gives_no_allocation() {
    let mut p = Processor::new().unwrap();
    let witness = SealDefinition { txid: None, vout: 3, blinding: 1 };
    let (asset, _) = p
        .issue(
            Chain::Regtest,
            "T".to_string(),
            "T".to_string(),
            None,
            IssueStructure::SingleIssue,
            vec![outcoins(5, 0, witness), outcoins(6, 0, seal(4, 2))],
            0,
            vec![],
            0,
        )
        .unwrap();
    assert_eq!(asset.allocations, vec![held(NodeRef::Genesis, 1, 4, 2, 6)]);
}

#[test]
fn asset_from_genesis_errors() {
    let rights = OwnedRights {
        assets: Some(ValueAssignment { inputs: vec![1], ours: vec![(seal(1, 0), 1)], theirs: vec![] }),
        inflation: None,
        burn_replace: None,
    };
    let no_precision =
        Genesis { network: Chain::Mainnet, metadata: vec![], owned_rights: rights.clone() };
    assert_eq!(Asset::from_genesis(&no_precision), Err(AssetError::MissingPrecision));
    let too_precise = Genesis {
        network: Chain::Mainnet,
        metadata: vec![(FieldType::Precision, FieldValue::U8(19))],
        owned_rights: rights,
    };
    assert_eq!(Asset::from_genesis(&too_precise), Err(AssetError::MissingPrecision));
    let no_assets = Genesis {
        network: Chain::Mainnet,
        metadata: vec![(FieldType::Precision, FieldValue::U8(2))],
        owned_rights: OwnedRights { assets: None, inflation: None, burn_replace: None },
    };
    assert_eq!(Asset::from_genesis(&no_assets), Err(AssetError::MissingAssets));
}

fn asset_1550() -> Asset {
    Asset::new(
        2,
        vec![
            held(NodeRef::Genesis, 0, 1, 0, 1000),
            held(NodeRef::Genesis, 1, 2, 1, 550),
            held(NodeRef::Genesis, 2, 3, 0, 70),
        ],
    )
}

fn op(n: u128, vout: u32) -> OutPoint {
    OutPoint { txid: txid(n), vout }
}

fn concealed(n: u128) -> ConcealedSeal {
    ConcealedSeal { hi: 1, lo: n }
}

#[test]
fn transfer_imbalance_example() {
    let mut p = Processor::new().unwrap();
    let mut asset = asset_1550();
    let r = p.transfer(
        &mut asset,
        vec![op(1, 0), op(2, 1)],
        vec![outcoins(1000, 2, seal(10, 0))],
        vec![Outcoincealed { coins: coins(549, 2), seal_confidential: concealed(4) }],
    );
    assert_eq!(r, Err(ProcessorError::Imbalance { inputs: 1550, outputs: 1549 }));
    assert_eq!(asset, asset_1550());
}

#[test]
fn transfer_balanced_succeeds() {
    let mut p = Processor::new().unwrap();
    let mut asset = asset_1550();
    let t = p
        .transfer(
            &mut asset,
            vec![op(1, 0), op(2, 1)],
            vec![outcoins(1000, 2, seal(10, 0))],
            vec![Outcoincealed { coins: coins(55, 1), seal_confidential: concealed(4) }],
        )
        .unwrap();
    assert_eq!(t.transition_type, TransitionType::Transfer);
    assert!(t.metadata.is_empty());
    let va = t.owned_rights.assets.clone().unwrap();
    assert_eq!(va.inputs, vec![1000, 550]);
    assert_eq!(va.ours, vec![(seal(10, 0), 1000)]);
    assert_eq!(va.theirs, vec![(concealed(4), 550)]);
    assert_eq!(t.owned_rights.inflation, None);
    assert_eq!(t.owned_rights.burn_replace, None);
    assert_eq!(t.parent.len(), 1);
    assert_eq!(t.parent[0].node, NodeRef::Genesis);
    assert_eq!(t.parent[0].right, OwnedRightsType::Assets);
    assert_eq!(t.parent[0].indices, vec![0, 1]);
}

#[test]
fn transfer_unknown_input_fails() {
    let mut p = Processor::new().unwrap();
    let mut asset = asset_1550();
    let r = p.transfer(
        &mut asset,
        vec![op(1, 0), op(8, 8), op(9, 9)],
        vec![outcoins(1000, 2, seal(10, 0))],
        vec![],
    );
    assert_eq!(r, Err(ProcessorError::UnknownInput(op(8, 8))));
}

#[test]
fn transfer_with_no_inputs_and_no_outputs() {
    let mut p = Processor::new().unwrap();
    let mut asset = asset_1550();
    let t = p.transfer(&mut asset, vec![], vec![], vec![]).unwrap();
    assert!(t.parent.is_empty());
    assert_eq!(t.owned_rights.assets.unwrap().inputs, Vec::<u64>::new());
}

#[test]
fn asset_allocations_at_seal() {
    let node = NodeRef::Transition(NodeId { id: txid(77) });
    let asset = Asset::new(
        0,
        vec![held(node, 0, 1, 0, 5), held(NodeRef::Genesis, 3, 2, 0, 6), held(node, 1, 1, 0, 7)],
    );
    assert_eq!(asset.allocations(&op(1, 0)), vec![held(node, 0, 1, 0, 5), held(node, 1, 1, 0, 7)]);
    assert!(asset.allocations(&op(1, 1)).is_empty());
    assert_eq!(asset.fractional_bits(), 0);
}

#[test]
fn parents_accumulate_indices_per_origin() {
    let n1 = NodeRef::Transition(NodeId { id: txid(1) });
    let spent = vec![
        held(n1, 4, 1, 0, 1),
        held(NodeRef::Genesis, 0, 2, 0, 1),
        held(n1, 2, 3, 0, 1),
    ];
    let parents = group_parents(&spent);
    assert_eq!(parents.len(), 2);
    assert_eq!(parents[0].node, n1);
    assert_eq!(parents[0].indices, vec![4, 2]);
    assert_eq!(parents[1].node, NodeRef::Genesis);
    assert_eq!(parents[1].indices, vec![0]);
}

#[test]
fn transfer_duplicate_origin_spends_both() {
    let node = NodeRef::Transition(NodeId { id: txid(40) });
    let mut asset = Asset::new(1, vec![held(node, 0, 1, 0, 30), held(node, 2, 1, 0, 20)]);
    let mut p = Processor::new().unwrap();
    let t = p
        .transfer(&mut asset, vec![op(1, 0)], vec![outcoins(5, 0, seal(2, 0))], vec![])
        .unwrap();
    assert_eq!(t.parent.len(), 1);
    assert_eq!(t.parent[0].indices, vec![0, 2]);
    assert_eq!(t.owned_rights.assets.unwrap().inputs, vec![30, 20]);
}

#[test]
fn transfer_repeated_input_counts_once() {
    let mut p = Processor::new().unwrap();
    let mut asset = asset_1550();
    let t = p
        .transfer(
            &mut asset,
            vec![op(1, 0), op(1, 0), op(2, 1)],
            vec![outcoins(1550, 2, seal(10, 0))],
            vec![],
        )
        .unwrap();
    assert_eq!(t.owned_rights.assets.unwrap().inputs, vec![1000, 550]);
    assert_eq!(t.parent[0].indices, vec![0, 1]);
}

#[test]
fn transfer_repeated_input_cannot_create_value() {
    let mut p = Processor::new().unwrap();
    let mut asset = asset_1550();
    let r = p.transfer(
        &mut asset,
        vec![op(1, 0), op(1, 0)],
        vec![outcoins(2000, 2, seal(10, 0))],
        vec![],
    );
    assert_eq!(r, Err(ProcessorError::Imbalance { inputs: 1000, outputs: 2000 }));
}

#[test]
fn checked_transmutate_bounds() {
    assert_eq!(checked_transmutate(2, coins(1234, 3)), Some(123));
    assert_eq!(checked_transmutate(19, coins(1, 0)), None);
    assert_eq!(checked_transmutate(2, coins(1, 19)), None);
    assert_eq!(checked_transmutate(1, coins(u64::MAX, 0)), None);
    assert_eq!(checked_transmutate(0, coins(u64::MAX, 0)), Some(u64::MAX));
}

#[test]
fn issue_inputs_validity() {
    let two = vec![outcoins(1000, 2, seal(1, 0)), outcoins(550, 2, seal(2, 1))];
    assert!(issue_inputs_valid(IssueStructure::SingleIssue, &two, 2));
    assert!(!issue_inputs_valid(IssueStructure::SingleIssue, &two, 19));
    let big = vec![outcoins(u64::MAX, 0, seal(1, 0)), outcoins(1, 0, seal(2, 1))];
    assert!(!issue_inputs_valid(IssueStructure::SingleIssue, &big, 0));
    let cap = IssueStructure::MultipleIssues { max_supply: coins(u64::MAX, 0), reissue_control: seal(3, 0) };
    assert!(!issue_inputs_valid(cap, &two, 2));
    let cap_ok = IssueStructure::MultipleIssues { max_supply: coins(5, 0), reissue_control: seal(3, 0) };
    assert!(issue_inputs_valid(cap_ok, &two, 2));
}

#[test]
fn issue_then_transfer_whole_amount() {
    let mut p = Processor::new().unwrap();
    let (mut asset, _) = p
        .issue(
            Chain::Signet,
            "T".to_string(),
            "T".to_string(),
            None,
            IssueStructure::SingleIssue,
            vec![outcoins(1234, 3, seal(5, 1))],
            2,
            vec![],
            0,
        )
        .unwrap();
    let t = p
        .transfer(&mut asset, vec![op(5, 1)], vec![outcoins(1234, 3, seal(6, 0))], vec![])
        .unwrap();
    let va = t.owned_rights.assets.unwrap();
    assert_eq!(va.inputs, vec![123]);
    assert_eq!(va.ours, vec![(seal(6, 0), 123)]);
}
