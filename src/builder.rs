//! Building the parts of a record: output lists, resolved inputs, sums and
//! back-references to the consumed allocations.

use vstd::prelude::*;

use crate::amount::{
    coins_ok, coins_total, lemma_coins_total_prefix, transmutate, transmutate_spec, Coins,
    MAX_PRECISION,
};
use crate::asset::{allocs_at, Allocation, Asset};
use crate::record::{sum_u64, total_of, NodeRef, OwnedRightsType, ParentEntry};
use crate::seal::{ConcealedSeal, OutPoint, Outcoincealed, Outcoins, SealDefinition};

verus! {

pub open spec fn ours_coins(s: Seq<Outcoins>) -> Seq<Coins> {
    s.map_values(|o: Outcoins| o.coins)
}

pub open spec fn theirs_coins(s: Seq<Outcoincealed>) -> Seq<Coins> {
    s.map_values(|o: Outcoincealed| o.coins)
}

/// The revealed outputs for `s` at `precision`, in order.
pub open spec fn ours_allocs(precision: nat, s: Seq<Outcoins>) -> Seq<(SealDefinition, u64)> {
    s.map_values(|o: Outcoins| (o.seal, transmutate_spec(precision, o.coins) as u64))
}

/// The concealed outputs for `s` at `precision`, in order.
pub open spec fn theirs_allocs(precision: nat, s: Seq<Outcoincealed>) -> Seq<(ConcealedSeal, u64)> {
    s.map_values(|o: Outcoincealed| (o.seal_confidential, transmutate_spec(precision, o.coins) as u64))
}

/// The allocations that `inputs` resolve to, input by input; an input that
/// repeats an earlier one adds nothing, so the inputs count as a set.
pub open spec fn gathered(allocs: Seq<Allocation>, inputs: Seq<OutPoint>) -> Seq<Allocation>
    decreases inputs.len(),
{
    if inputs.len() == 0 {
        seq![]
    } else if inputs.drop_last().contains(inputs.last()) {
        gathered(allocs, inputs.drop_last())
    } else {
        gathered(allocs, inputs.drop_last()) + allocs_at(allocs, inputs.last())
    }
}

/// Every input holds at least one allocation.
pub open spec fn all_known(allocs: Seq<Allocation>, inputs: Seq<OutPoint>) -> bool {
    forall|i: int| 0 <= i < inputs.len() ==> allocs_at(allocs, #[trigger] inputs[i]).len() > 0
}

/// `o` is the first input that holds no allocation.
pub open spec fn first_unknown_is(allocs: Seq<Allocation>, inputs: Seq<OutPoint>, o: OutPoint) -> bool {
    exists|i: int|
        0 <= i < inputs.len() && inputs[i] == o && allocs_at(allocs, o).len() == 0 && forall|
            j: int,
        |
            0 <= j < i ==> allocs_at(allocs, #[trigger] inputs[j]).len() > 0
}

pub open spec fn values(s: Seq<Allocation>) -> Seq<u64> {
    s.map_values(|a: Allocation| a.value)
}

/// The indices of the allocations in `s` created by `node`, in order.
pub open spec fn indices_of(s: Seq<Allocation>, node: NodeRef) -> Seq<usize>
    decreases s.len(),
{
    if s.len() == 0 {
        seq![]
    } else if s.last().origin == node {
        indices_of(s.drop_last(), node).push(s.last().index)
    } else {
        indices_of(s.drop_last(), node)
    }
}

/// The position of the first allocation in `s` created by `node`, or the
/// length of `s` when there is none.
pub open spec fn first_index(s: Seq<Allocation>, node: NodeRef) -> nat
    decreases s.len(),
{
    if s.len() == 0 {
        0
    } else {
        let f = first_index(s.drop_last(), node);
        if f < s.len() - 1 {
            f
        } else if s.last().origin == node {
            (s.len() - 1) as nat
        } else {
            s.len()
        }
    }
}

proof fn lemma_first_index_absent(s: Seq<Allocation>, node: NodeRef)
    requires
        forall|j: int| 0 <= j < s.len() ==> (#[trigger] s[j]).origin != node,
    ensures
        first_index(s, node) == s.len(),
    decreases s.len(),
{
    if s.len() > 0 {
        lemma_first_index_absent(s.drop_last(), node);
    }
}

proof fn lemma_first_index_at(s: Seq<Allocation>, node: NodeRef, i: int)
    requires
        0 <= i < s.len(),
        s[i].origin == node,
        forall|j: int| 0 <= j < i ==> (#[trigger] s[j]).origin != node,
    ensures
        first_index(s, node) == i,
    decreases s.len(),
{
    if i == s.len() - 1 {
        lemma_first_index_absent(s.drop_last(), node);
    } else {
        lemma_first_index_at(s.drop_last(), node, i);
    }
}

/// `p` references every allocation of `spent`: one entry per origin record,
/// holding the indices of that record's allocations in the assets right, with
/// the entries in the order in which their records first appear in `spent`.
pub open spec fn parents_of(p: Seq<ParentEntry>, spent: Seq<Allocation>) -> bool {
    &&& forall|k: int|
        0 <= k < p.len() ==> (#[trigger] p[k]).right == OwnedRightsType::Assets && p[k].indices@
            == indices_of(spent, p[k].node)
    &&& forall|k1: int, k2: int|
        0 <= k1 < p.len() && 0 <= k2 < p.len() && k1 != k2 ==> (#[trigger] p[k1]).node != (
        #[trigger] p[k2]).node
    &&& forall|j: int|
        0 <= j < spent.len() ==> exists|k: int| 0 <= k < p.len() && (#[trigger] p[k]).node == (
        #[trigger] spent[j]).origin
    &&& forall|k: int|
        0 <= k < p.len() ==> exists|j: int| 0 <= j < spent.len() && (#[trigger] p[k]).node == (
        #[trigger] spent[j]).origin
    &&& forall|k1: int, k2: int|
        0 <= k1 < k2 < p.len() ==> first_index(spent, (#[trigger] p[k1]).node) < first_index(
            spent,
            (#[trigger] p[k2]).node,
        )
}

pub proof fn lemma_sum_prefix(s: Seq<u64>, i: int)
    requires
        0 <= i <= s.len(),
    ensures
        sum_u64(s.take(i)) <= sum_u64(s),
    decreases s.len(),
{
    if i < s.len() {
        assert(s.drop_last().take(i) == s.take(i));
        lemma_sum_prefix(s.drop_last(), i);
    } else {
        assert(s.take(i) == s);
    }
}

/// Converts the revealed outputs at `precision`, with their total.
pub fn allocate_ours(precision: u8, ours: &Vec<Outcoins>) -> (r: (Vec<(SealDefinition, u64)>, u64))
    requires
        precision <= MAX_PRECISION,
        forall|j: int| 0 <= j < ours@.len() ==> coins_ok(#[trigger] ours@[j].coins),
        coins_total(precision as nat, ours_coins(ours@)) <= u64::MAX,
    ensures
        r.0@ == ours_allocs(precision as nat, ours@),
        r.1 == coins_total(precision as nat, ours_coins(ours@)),
        total_of(r.0@) == r.1,
{
    let mut out: Vec<(SealDefinition, u64)> = Vec::new();
    let mut total: u64 = 0;
    let mut i: usize = 0;
    while i < ours.len()
        invariant
            i <= ours@.len(),
            precision <= MAX_PRECISION,
            forall|j: int| 0 <= j < ours@.len() ==> coins_ok(#[trigger] ours@[j].coins),
            coins_total(precision as nat, ours_coins(ours@)) <= u64::MAX,
            out@ == ours_allocs(precision as nat, ours@.take(i as int)),
            total == coins_total(precision as nat, ours_coins(ours@.take(i as int))),
            total_of(out@) == total,
        decreases ours@.len() - i,
    {
        let o = ours[i];
        proof {
            let p = precision as nat;
            assert(ours_coins(ours@.take(i + 1)).drop_last() == ours_coins(ours@.take(i as int)));
            assert(ours_coins(ours@.take(i + 1)) == ours_coins(ours@).take(i + 1));
            lemma_coins_total_prefix(p, ours_coins(ours@), i + 1);
        }
        let amount = transmutate(precision, o.coins);
        let ghost prev = out@;
        out.push((o.seal, amount));
        total = total + amount;
        proof {
            assert(out@.drop_last() == prev);
            assert(out@ == ours_allocs(precision as nat, ours@.take(i + 1)));
        }
        i = i + 1;
    }
    assert(ours@.take(i as int) == ours@);
    (out, total)
}

/// Converts the concealed outputs at `precision`, with their total.
pub fn allocate_theirs(precision: u8, theirs: &Vec<Outcoincealed>) -> (r: (
    Vec<(ConcealedSeal, u64)>,
    u64,
))
    requires
        precision <= MAX_PRECISION,
        forall|j: int| 0 <= j < theirs@.len() ==> coins_ok(#[trigger] theirs@[j].coins),
        coins_total(precision as nat, theirs_coins(theirs@)) <= u64::MAX,
    ensures
        r.0@ == theirs_allocs(precision as nat, theirs@),
        r.1 == coins_total(precision as nat, theirs_coins(theirs@)),
        total_of(r.0@) == r.1,
{
    let mut out: Vec<(ConcealedSeal, u64)> = Vec::new();
    let mut total: u64 = 0;
    let mut i: usize = 0;
    while i < theirs.len()
        invariant
            i <= theirs@.len(),
            precision <= MAX_PRECISION,
            forall|j: int| 0 <= j < theirs@.len() ==> coins_ok(#[trigger] theirs@[j].coins),
            coins_total(precision as nat, theirs_coins(theirs@)) <= u64::MAX,
            out@ == theirs_allocs(precision as nat, theirs@.take(i as int)),
            total == coins_total(precision as nat, theirs_coins(theirs@.take(i as int))),
            total_of(out@) == total,
        decreases theirs@.len() - i,
    {
        let o = theirs[i];
        proof {
            let p = precision as nat;
            assert(theirs_coins(theirs@.take(i + 1)).drop_last() == theirs_coins(
                theirs@.take(i as int),
            ));
            assert(theirs_coins(theirs@.take(i + 1)) == theirs_coins(theirs@).take(i + 1));
            lemma_coins_total_prefix(p, theirs_coins(theirs@), i + 1);
        }
        let amount = transmutate(precision, o.coins);
        let ghost prev = out@;
        out.push((o.seal_confidential, amount));
        total = total + amount;
        proof {
            assert(out@.drop_last() == prev);
            assert(out@ == theirs_allocs(precision as nat, theirs@.take(i + 1)));
        }
        i = i + 1;
    }
    assert(theirs@.take(i as int) == theirs@);
    (out, total)
}

/// Whether `seal` is among the first `n` inputs.
fn seen_before(inputs: &Vec<OutPoint>, n: usize, seal: OutPoint) -> (r: bool)
    requires
        n <= inputs@.len(),
    ensures
        r == inputs@.take(n as int).contains(seal),
{
    let mut i: usize = 0;
    while i < n
        invariant
            n <= inputs@.len(),
            i <= n,
            forall|j: int| 0 <= j < i ==> inputs@[j] != seal,
        decreases n - i,
    {
        if inputs[i] == seal {
            assert(inputs@.take(n as int)[i as int] == seal);
            return true;
        }
        i = i + 1;
    }
    assert(!inputs@.take(n as int).contains(seal)) by {
        assert forall|j: int| 0 <= j < n implies inputs@.take(n as int)[j] != seal by {
            assert(inputs@.take(n as int)[j] == inputs@[j]);
        }
    }
    false
}

/// Resolves each distinct input to the allocations the asset holds there; the
/// first input that holds none is returned as the error.
pub fn gather_inputs(asset: &Asset, inputs: &Vec<OutPoint>) -> (r: Result<Vec<Allocation>, OutPoint>)
    ensures
        all_known(asset.allocations@, inputs@) ==> (r matches Ok(v) && v@ == gathered(
            asset.allocations@,
            inputs@,
        )),
        !all_known(asset.allocations@, inputs@) ==> (r matches Err(o) && first_unknown_is(
            asset.allocations@,
            inputs@,
            o,
        )),
{
    let mut out: Vec<Allocation> = Vec::new();
    let mut i: usize = 0;
    while i < inputs.len()
        invariant
            i <= inputs@.len(),
            out@ == gathered(asset.allocations@, inputs@.take(i as int)),
            forall|j: int| 0 <= j < i ==> allocs_at(asset.allocations@, #[trigger] inputs@[j]).len() > 0,
        decreases inputs@.len() - i,
    {
        assert(inputs@.take(i + 1).drop_last() == inputs@.take(i as int));
        let seal = inputs[i];
        let mut found = asset.allocations(&seal);
        if found.len() == 0 {
            assert(first_unknown_is(asset.allocations@, inputs@, seal) ) by {
                assert(inputs@[i as int] == seal);
            }
            return Err(seal);
        }
        if !seen_before(inputs, i, seal) {
            out.append(&mut found);
        }
        i = i + 1;
    }
    assert(inputs@.take(i as int) == inputs@);
    assert(all_known(asset.allocations@, inputs@));
    Ok(out)
}

/// The values of a list of allocations.
pub fn input_values(allocs: &Vec<Allocation>) -> (r: Vec<u64>)
    ensures
        r@ == values(allocs@),
{
    let mut out: Vec<u64> = Vec::new();
    let mut i: usize = 0;
    while i < allocs.len()
        invariant
            i <= allocs@.len(),
            out@ == values(allocs@.take(i as int)),
        decreases allocs@.len() - i,
    {
        out.push(allocs[i].value);
        assert(out@ == values(allocs@.take(i + 1)));
        i = i + 1;
    }
    assert(allocs@.take(i as int) == allocs@);
    out
}

/// Sum of a list of integer amounts.
pub fn sum_values(s: &Vec<u64>) -> (r: u64)
    requires
        sum_u64(s@) <= u64::MAX,
    ensures
        r == sum_u64(s@),
{
    let mut total: u64 = 0;
    let mut i: usize = 0;
    while i < s.len()
        invariant
            i <= s@.len(),
            sum_u64(s@) <= u64::MAX,
            total == sum_u64(s@.take(i as int)),
        decreases s@.len() - i,
    {
        proof {
            assert(s@.take(i + 1).drop_last() == s@.take(i as int));
            lemma_sum_prefix(s@, i + 1);
        }
        total = total + s[i];
        i = i + 1;
    }
    assert(s@.take(i as int) == s@);
    total
}

/// The indices of the allocations in `spent` created by `node`.
fn collect_indices(spent: &Vec<Allocation>, node: NodeRef) -> (r: Vec<usize>)
    ensures
        r@ == indices_of(spent@, node),
{
    let mut out: Vec<usize> = Vec::new();
    let mut i: usize = 0;
    while i < spent.len()
        invariant
            i <= spent@.len(),
            out@ == indices_of(spent@.take(i as int), node),
        decreases spent@.len() - i,
    {
        assert(spent@.take(i + 1).drop_last() == spent@.take(i as int));
        if spent[i].origin == node {
            out.push(spent[i].index);
        }
        i = i + 1;
    }
    assert(spent@.take(i as int) == spent@);
    out
}

fn has_node(entries: &Vec<ParentEntry>, node: NodeRef) -> (r: bool)
    ensures
        r == exists|k: int| 0 <= k < entries@.len() && (#[trigger] entries@[k]).node == node,
{
    let mut i: usize = 0;
    while i < entries.len()
        invariant
            i <= entries@.len(),
            forall|k: int| 0 <= k < i ==> (#[trigger] entries@[k]).node != node,
        decreases entries@.len() - i,
    {
        if entries[i].node == node {
            return true;
        }
        i = i + 1;
    }
    false
}

/// Groups the spent allocations by the record that created them, keeping
/// every index, in order of first appearance.
pub fn group_parents(spent: &Vec<Allocation>) -> (r: Vec<ParentEntry>)
    ensures
        parents_of(r@, spent@),
{
    let mut entries: Vec<ParentEntry> = Vec::new();
    let mut i: usize = 0;
    while i < spent.len()
        invariant
            i <= spent@.len(),
            forall|k: int|
                0 <= k < entries@.len() ==> (#[trigger] entries@[k]).right == OwnedRightsType::Assets
                    && entries@[k].indices@ == indices_of(spent@, entries@[k].node),
            forall|k1: int, k2: int|
                0 <= k1 < entries@.len() && 0 <= k2 < entries@.len() && k1 != k2 ==> (
                #[trigger] entries@[k1]).node != (#[trigger] entries@[k2]).node,
            forall|j: int|
                0 <= j < i ==> exists|k: int|
                    0 <= k < entries@.len() && (#[trigger] entries@[k]).node == (
                    #[trigger] spent@[j]).origin,
            forall|k: int|
                0 <= k < entries@.len() ==> exists|j: int|
                    0 <= j < i && (#[trigger] entries@[k]).node == (#[trigger] spent@[j]).origin,
            forall|k: int|
                0 <= k < entries@.len() ==> first_index(spent@, (#[trigger] entries@[k]).node) < i,
            forall|k1: int, k2: int|
                0 <= k1 < k2 < entries@.len() ==> first_index(
                    spent@,
                    (#[trigger] entries@[k1]).node,
                ) < first_index(spent@, (#[trigger] entries@[k2]).node),
        decreases spent@.len() - i,
    {
        let node = spent[i].origin;
        if !has_node(&entries, node) {
            let indices = collect_indices(spent, node);
            let ghost prev = entries@;
            entries.push(ParentEntry { node, right: OwnedRightsType::Assets, indices });
            proof {
                assert(forall|k: int| 0 <= k < prev.len() ==> entries@[k] == prev[k]);
                let last = entries@.len() - 1;
                assert(entries@[last].node == spent@[i as int].origin);
                assert forall|j: int| 0 <= j <= i implies exists|k: int|
                    0 <= k < entries@.len() && (#[trigger] entries@[k]).node == (
                    #[trigger] spent@[j]).origin by {
                    if j < i {
                        let k = choose|k: int|
                            0 <= k < prev.len() && (#[trigger] prev[k]).node == spent@[j].origin;
                        assert(entries@[k] == prev[k]);
                    } else {
                        assert(entries@[last].node == spent@[j].origin);
                    }
                }
                assert forall|j: int| 0 <= j < i implies (#[trigger] spent@[j]).origin != node by {
                    if spent@[j].origin == node {
                        let k = choose|k: int|
                            0 <= k < prev.len() && (#[trigger] prev[k]).node == spent@[j].origin;
                        assert(prev[k].node == node);
                    }
                }
                lemma_first_index_at(spent@, node, i as int);
                assert forall|k: int| 0 <= k < entries@.len() implies exists|j: int|
                    0 <= j < i + 1 && (#[trigger] entries@[k]).node == (#[trigger] spent@[j]).origin by {
                    if k < last {
                        assert(entries@[k] == prev[k]);
                    } else {
                        assert(entries@[k].node == spent@[i as int].origin);
                    }
                }
                assert forall|k: int| 0 <= k < entries@.len() implies first_index(
                    spent@,
                    (#[trigger] entries@[k]).node,
                ) < i + 1 by {
                    if k < last {
                        assert(entries@[k] == prev[k]);
                    }
                }
                assert forall|k1: int, k2: int| 0 <= k1 < k2 < entries@.len() implies first_index(
                    spent@,
                    (#[trigger] entries@[k1]).node,
                ) < first_index(spent@, (#[trigger] entries@[k2]).node) by {
                    assert(entries@[k1] == prev[k1]);
                    if k2 < last {
                        assert(entries@[k2] == prev[k2]);
                    }
                }
            }
        } else {
            proof {
                assert forall|j: int| 0 <= j <= i implies exists|k: int|
                    0 <= k < entries@.len() && (#[trigger] entries@[k]).node == (
                    #[trigger] spent@[j]).origin by {
                    if j == i {
                        let k = choose|k: int|
                            0 <= k < entries@.len() && (#[trigger] entries@[k]).node == node;
                        assert(entries@[k].node == spent@[j].origin);
                    }
                }
                assert forall|k: int| 0 <= k < entries@.len() implies exists|j: int|
                    0 <= j < i + 1 && (#[trigger] entries@[k]).node == (#[trigger] spent@[j]).origin by {
                    let j = choose|j: int|
                        0 <= j < i && (#[trigger] entries@[k]).node == (#[trigger] spent@[j]).origin;
                    assert(0 <= j < i + 1 && entries@[k].node == spent@[j].origin);
                }
            }
        }
        i = i + 1;
    }
    proof {
        assert forall|k: int| 0 <= k < entries@.len() implies exists|j: int|
            0 <= j < spent@.len() && (#[trigger] entries@[k]).node == (
            #[trigger] spent@[j]).origin by {
            let j = choose|j: int|
                0 <= j < i && (#[trigger] entries@[k]).node == (#[trigger] spent@[j]).origin;
            assert(0 <= j < spent@.len() && entries@[k].node == spent@[j].origin);
        }
    }
    entries
}

} // verus!
