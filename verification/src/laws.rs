//! Laws of the stage semantics, proved over the mathematical model.

use vstd::prelude::*;
use vstd::seq_lib::to_multiset_update;
use crate::exchange::{
    exchanged, ops_disjoint, ops_in_range, ops_touch, sorted_by_key, sorted_by_meta, stage_lane,
    stage_result, stage_valid, valid_count, CompareExchange, LaneSwap,
};
use crate::lane::{bit_is_set, penalty_lane, Lane, LaneArrayType, PENALTY};
use crate::lane_array::initial_lanes;
use crate::network::NetworkSpec;

verus! {

/// A stage without its last operator is in range where the whole stage is.
proof fn lemma_shorter_in_range(ops: Seq<LaneSwap>, n: nat)
    requires
        ops_in_range(ops, n),
        ops.len() > 0,
    ensures
        ops_in_range(ops.drop_last(), n),
        ops.last().in_range(n),
{
    assert(ops[ops.len() - 1].in_range(n));
    assert forall|k: int| 0 <= k < ops.drop_last().len() implies (#[trigger] ops.drop_last()[k])
        .in_range(n) by {
        assert(ops.drop_last()[k] == ops[k]);
    }
}

/// A stage without its last operator addresses no lane twice where the whole
/// stage does not, and none of its operators touches a lane of the last one.
proof fn lemma_shorter_disjoint(ops: Seq<LaneSwap>)
    requires
        ops_disjoint(ops),
        ops.len() > 0,
    ensures
        ops_disjoint(ops.drop_last()),
        forall|k: int|
            0 <= k < ops.len() - 1 ==> (#[trigger] ops.drop_last()[k]).disjoint_from(ops.last()),
{
    let shorter = ops.drop_last();
    assert forall|j: int, k: int| 0 <= j < k < shorter.len() implies (#[trigger] shorter[j])
        .disjoint_from(#[trigger] shorter[k]) by {
        assert(ops[j].disjoint_from(ops[k]));
    }
    assert forall|k: int| 0 <= k < ops.len() - 1 implies (#[trigger] shorter[k]).disjoint_from(
        ops.last(),
    ) by {
        assert(ops[k].disjoint_from(ops[ops.len() - 1]));
    }
}

/// A lane that no operator of the stage touches comes out as it went in.
pub proof fn lemma_untouched_lane(kind: CompareExchange, v: Seq<Lane>, ops: Seq<LaneSwap>, i: int)
    requires
        forall|k: int| 0 <= k < ops.len() ==> !(#[trigger] ops[k]).touches(i),
    ensures
        stage_lane(kind, v, ops, i) == v[i],
    decreases ops.len(),
{
    if ops.len() > 0 {
        let shorter = ops.drop_last();
        assert(!ops[ops.len() - 1].touches(i));
        assert forall|k: int| 0 <= k < shorter.len() implies !(#[trigger] shorter[k]).touches(
            i,
        ) by {
            assert(shorter[k] == ops[k]);
        }
        lemma_untouched_lane(kind, v, shorter, i);
    }
}

/// The operators of a stage run in parallel: where no lane is addressed by
/// two operators, a lane that operator `k` touches comes out as that operator
/// alone writes it, wherever the operator stands in the list.
pub proof fn lemma_touched_lane(
    kind: CompareExchange,
    v: Seq<Lane>,
    ops: Seq<LaneSwap>,
    k: int,
    i: int,
)
    requires
        ops_disjoint(ops),
        0 <= k < ops.len(),
        ops[k].touches(i),
    ensures
        stage_lane(kind, v, ops, i) == exchanged(kind, v, ops[k], i),
    decreases ops.len(),
{
    if k < ops.len() - 1 {
        lemma_shorter_disjoint(ops);
        assert(ops.drop_last()[k].disjoint_from(ops.last()));
        lemma_touched_lane(kind, v, ops.drop_last(), k, i);
    }
}

/// The whole stage at once: a lane that no operator touches comes out as it
/// went in, and where no lane is addressed twice, each operator's two lanes
/// come out as that operator alone writes them.
pub proof fn lemma_stage_in_parallel(kind: CompareExchange, v: Seq<Lane>, ops: Seq<LaneSwap>)
    requires
        ops_in_range(ops, v.len()),
    ensures
        forall|i: int|
            0 <= i < v.len() && !ops_touch(ops, i) ==> #[trigger] stage_result(kind, v, ops)[i]
                == v[i],
        ops_disjoint(ops) ==> forall|k: int|
            0 <= k < ops.len() ==> stage_result(kind, v, ops)[(#[trigger] ops[k]).0 as int]
                == exchanged(kind, v, ops[k], ops[k].0 as int) && stage_result(
                kind,
                v,
                ops,
            )[ops[k].1 as int] == exchanged(kind, v, ops[k], ops[k].1 as int),
{
    let out = stage_result(kind, v, ops);
    assert forall|i: int| 0 <= i < v.len() && !ops_touch(ops, i) implies #[trigger] out[i]
        == v[i] by {
        lemma_untouched_lane(kind, v, ops, i);
    }
    if ops_disjoint(ops) {
        assert forall|k: int| 0 <= k < ops.len() implies out[(#[trigger] ops[k]).0 as int]
            == exchanged(kind, v, ops[k], ops[k].0 as int) && out[ops[k].1 as int] == exchanged(
            kind,
            v,
            ops[k],
            ops[k].1 as int,
        ) by {
            assert(ops[k].in_range(v.len()));
            lemma_touched_lane(kind, v, ops, k, ops[k].0 as int);
            lemma_touched_lane(kind, v, ops, k, ops[k].1 as int);
        }
    }
}

/// The order in which a stage lists its operators is irrelevant: two stages
/// in which no lane is addressed twice and which hold the same operators give
/// the same result.
pub proof fn lemma_stage_order_is_irrelevant(
    kind: CompareExchange,
    v: Seq<Lane>,
    ops: Seq<LaneSwap>,
    reordered: Seq<LaneSwap>,
)
    requires
        ops_disjoint(ops),
        ops_disjoint(reordered),
        forall|k: int| 0 <= k < ops.len() ==> reordered.contains(#[trigger] ops[k]),
        forall|k: int| 0 <= k < reordered.len() ==> ops.contains(#[trigger] reordered[k]),
    ensures
        stage_result(kind, v, ops) == stage_result(kind, v, reordered),
{
    assert forall|i: int| 0 <= i < v.len() implies stage_lane(kind, v, ops, i) == stage_lane(
        kind,
        v,
        reordered,
        i,
    ) by {
        if ops_touch(ops, i) {
            let k = choose|k: int| 0 <= k < ops.len() && (#[trigger] ops[k]).touches(i);
            assert(reordered.contains(ops[k]));
            let r = choose|r: int| 0 <= r < reordered.len() && reordered[r] == ops[k];
            lemma_touched_lane(kind, v, ops, k, i);
            lemma_touched_lane(kind, v, reordered, r, i);
        } else {
            assert forall|r: int| 0 <= r < reordered.len() implies !(#[trigger] reordered[r])
                .touches(i) by {
                assert(ops.contains(reordered[r]));
                let k = choose|k: int| 0 <= k < ops.len() && ops[k] == reordered[r];
                assert(!ops[k].touches(i));
            }
            lemma_untouched_lane(kind, v, ops, i);
            lemma_untouched_lane(kind, v, reordered, i);
        }
    }
    assert(stage_result(kind, v, ops) =~= stage_result(kind, v, reordered));
}

/// One lane of `lemma_swap_keeps_ordered_pairs`.
proof fn lemma_swap_lane_of_ordered_pairs(v: Seq<Lane>, ops: Seq<LaneSwap>, i: int)
    requires
        forall|k: int|
            0 <= k < ops.len() ==> v[(#[trigger] ops[k]).0 as int].key <= v[ops[k].1 as int].key,
    ensures
        stage_lane(CompareExchange::Swap, v, ops, i) == v[i],
    decreases ops.len(),
{
    if ops.len() > 0 {
        let shorter = ops.drop_last();
        let last = ops[ops.len() - 1];
        assert(v[last.0 as int].key <= v[last.1 as int].key);
        assert forall|k: int| 0 <= k < shorter.len() implies v[(#[trigger] shorter[k]).0 as int].key
            <= v[shorter[k].1 as int].key by {
            assert(shorter[k] == ops[k]);
        }
        lemma_swap_lane_of_ordered_pairs(v, shorter, i);
    }
}

/// A stage of swaps changes nothing where every pair is already in order: if
/// each operator finds the key at its first index at most the key at its
/// second, the vector comes out as it went in.
pub proof fn lemma_swap_keeps_ordered_pairs(v: Seq<Lane>, ops: Seq<LaneSwap>)
    requires
        forall|k: int|
            0 <= k < ops.len() ==> v[(#[trigger] ops[k]).0 as int].key <= v[ops[k].1 as int].key,
    ensures
        stage_result(CompareExchange::Swap, v, ops) == v,
{
    assert forall|i: int| 0 <= i < v.len() implies stage_lane(CompareExchange::Swap, v, ops, i)
        == v[i] by {
        lemma_swap_lane_of_ordered_pairs(v, ops, i);
    }
    assert(stage_result(CompareExchange::Swap, v, ops) =~= v);
}

/// One swap operator on a pair that is already in order leaves both lanes,
/// and with them the whole vector, as they were.
pub proof fn lemma_swap_keeps_ordered_pair(v: Seq<Lane>, op: LaneSwap)
    requires
        op.in_range(v.len()),
        v[op.0 as int].key <= v[op.1 as int].key,
    ensures
        stage_result(CompareExchange::Swap, v, seq![op])[op.0 as int] == v[op.0 as int],
        stage_result(CompareExchange::Swap, v, seq![op])[op.1 as int] == v[op.1 as int],
        stage_result(CompareExchange::Swap, v, seq![op]) == v,
{
    lemma_swap_keeps_ordered_pairs(v, seq![op]);
}

/// After a stage of swaps in which no lane is addressed twice, every pair is
/// in order.
pub proof fn lemma_swap_orders_pairs(v: Seq<Lane>, ops: Seq<LaneSwap>, k: int)
    requires
        ops_in_range(ops, v.len()),
        ops_disjoint(ops),
        0 <= k < ops.len(),
    ensures
        stage_result(CompareExchange::Swap, v, ops)[ops[k].0 as int].key <= stage_result(
            CompareExchange::Swap,
            v,
            ops,
        )[ops[k].1 as int].key,
{
    lemma_stage_in_parallel(CompareExchange::Swap, v, ops);
    assert(ops[k].in_range(v.len()));
}

/// A stage of swaps in which no lane is addressed twice is idempotent: run a
/// second time, it changes nothing.
pub proof fn lemma_swap_idempotent(v: Seq<Lane>, ops: Seq<LaneSwap>)
    requires
        ops_in_range(ops, v.len()),
        ops_disjoint(ops),
    ensures
        stage_result(CompareExchange::Swap, stage_result(CompareExchange::Swap, v, ops), ops)
            == stage_result(CompareExchange::Swap, v, ops),
{
    let once = stage_result(CompareExchange::Swap, v, ops);
    assert forall|k: int| 0 <= k < ops.len() implies once[(#[trigger] ops[k]).0 as int].key
        <= once[ops[k].1 as int].key by {
        lemma_swap_orders_pairs(v, ops, k);
    }
    lemma_swap_keeps_ordered_pairs(once, ops);
}

/// The last operator of a stage in which no lane is addressed twice finds its
/// two lanes as they went in, and the stage as a whole is the stage without
/// that operator followed by the operator's two writes.
proof fn lemma_last_operator(kind: CompareExchange, v: Seq<Lane>, ops: Seq<LaneSwap>)
    requires
        ops_in_range(ops, v.len()),
        ops_disjoint(ops),
        ops.len() > 0,
    ensures
        ops_in_range(ops.drop_last(), v.len()),
        ops_disjoint(ops.drop_last()),
        ops.last().in_range(v.len()),
        stage_result(kind, v, ops.drop_last())[ops.last().0 as int] == v[ops.last().0 as int],
        stage_result(kind, v, ops.drop_last())[ops.last().1 as int] == v[ops.last().1 as int],
        stage_result(kind, v, ops) == stage_result(kind, v, ops.drop_last()).update(
            ops.last().0 as int,
            exchanged(kind, v, ops.last(), ops.last().0 as int),
        ).update(ops.last().1 as int, exchanged(kind, v, ops.last(), ops.last().1 as int)),
{
    let shorter = ops.drop_last();
    let op = ops.last();
    lemma_shorter_in_range(ops, v.len());
    lemma_shorter_disjoint(ops);
    assert forall|k: int| 0 <= k < shorter.len() implies !(#[trigger] shorter[k]).touches(
        op.0 as int,
    ) && !shorter[k].touches(op.1 as int) by {
        assert(shorter[k].disjoint_from(op));
    }
    lemma_untouched_lane(kind, v, shorter, op.0 as int);
    lemma_untouched_lane(kind, v, shorter, op.1 as int);
    assert(stage_result(kind, v, ops) =~= stage_result(kind, v, shorter).update(
        op.0 as int,
        exchanged(kind, v, op, op.0 as int),
    ).update(op.1 as int, exchanged(kind, v, op, op.1 as int)));
}

/// Replacing one lane changes the number of valid lanes by what the new lane
/// counts for, less what the old one counted for.
proof fn lemma_valid_count_update(v: Seq<Lane>, i: int, lane: Lane)
    requires
        0 <= i < v.len(),
    ensures
        valid_count(v.update(i, lane)) + (if v[i].is_valid() { 1nat } else { 0nat })
            == valid_count(v) + (if lane.is_valid() { 1nat } else { 0nat }),
    decreases v.len(),
{
    if i == v.len() - 1 {
        assert(v.update(i, lane).drop_last() == v.drop_last());
    } else {
        assert(v.update(i, lane).drop_last() == v.drop_last().update(i, lane));
        lemma_valid_count_update(v.drop_last(), i, lane);
    }
}

/// A stage in which no lane is addressed twice neither gains nor loses a valid
/// lane. A swap only moves lanes; a shift drops the content of an invalid
/// first slot and nothing else.
pub proof fn lemma_stage_keeps_valid_count(kind: CompareExchange, v: Seq<Lane>, ops: Seq<LaneSwap>)
    requires
        ops_in_range(ops, v.len()),
        ops_disjoint(ops),
    ensures
        valid_count(stage_result(kind, v, ops)) == valid_count(v),
    decreases ops.len(),
{
    if ops.len() == 0 {
        assert(stage_result(kind, v, ops) =~= v);
    } else {
        let op = ops.last();
        let before = stage_result(kind, v, ops.drop_last());
        let middle = before.update(op.0 as int, exchanged(kind, v, op, op.0 as int));
        lemma_last_operator(kind, v, ops);
        lemma_stage_keeps_valid_count(kind, v, ops.drop_last());
        lemma_valid_count_update(before, op.0 as int, exchanged(kind, v, op, op.0 as int));
        lemma_valid_count_update(middle, op.1 as int, exchanged(kind, v, op, op.1 as int));
    }
}

/// A stage of shifts in which no lane is addressed twice never increases the
/// number of valid lanes; it keeps that number as it is.
pub proof fn lemma_shift_keeps_valid_count(v: Seq<Lane>, ops: Seq<LaneSwap>)
    requires
        ops_in_range(ops, v.len()),
        ops_disjoint(ops),
    ensures
        valid_count(stage_result(CompareExchange::Shift, v, ops)) <= valid_count(v),
        valid_count(stage_result(CompareExchange::Shift, v, ops)) == valid_count(v),
{
    lemma_stage_keeps_valid_count(CompareExchange::Shift, v, ops);
}

/// A stage of swaps in which no lane is addressed twice only reorders: the
/// lanes that come out are the lanes that went in, each as often as before.
pub proof fn lemma_swap_permutes(v: Seq<Lane>, ops: Seq<LaneSwap>)
    requires
        ops_in_range(ops, v.len()),
        ops_disjoint(ops),
    ensures
        stage_result(CompareExchange::Swap, v, ops).to_multiset() == v.to_multiset(),
    decreases ops.len(),
{
    let kind = CompareExchange::Swap;
    if ops.len() == 0 {
        assert(stage_result(kind, v, ops) =~= v);
    } else {
        let op = ops.last();
        let before = stage_result(kind, v, ops.drop_last());
        let first = exchanged(kind, v, op, op.0 as int);
        let second = exchanged(kind, v, op, op.1 as int);
        let middle = before.update(op.0 as int, first);
        lemma_last_operator(kind, v, ops);
        lemma_swap_permutes(v, ops.drop_last());
        to_multiset_update(before, op.0 as int, first);
        to_multiset_update(middle, op.1 as int, second);
        before.to_multiset_ensures();
        assert(before.contains(before[op.0 as int]));
        assert(before.contains(before[op.1 as int]));
        assert(middle.update(op.1 as int, second).to_multiset() =~= before.to_multiset());
    }
}

/// A network whose stages are all valid neither gains nor loses a valid lane,
/// whatever the semantics of its stages.
pub proof fn lemma_network_keeps_valid_count(network: NetworkSpec, v: Seq<Lane>)
    requires
        network.valid(),
        v.len() == network.arity,
    ensures
        network.apply(v).len() == v.len(),
        valid_count(network.apply(v)) == valid_count(v),
    decreases network.stages.len(),
{
    if network.stages.len() > 0 {
        let stage = network.stages[network.stages.len() - 1];
        let rest = NetworkSpec { arity: network.arity, stages: network.stages.drop_last() };
        assert forall|s: int| 0 <= s < rest.stages.len() implies stage_valid(
            (#[trigger] rest.stages[s]).ops,
            rest.arity,
        ) by {
            assert(rest.stages[s] == network.stages[s]);
        }
        lemma_network_keeps_valid_count(rest, v);
        assert(stage_valid(stage.ops, network.arity));
        lemma_stage_keeps_valid_count(stage.kind, rest.apply(v), stage.ops);
    }
}

/// Key and tag travel together: every lane that a stage puts out is a lane of
/// the vector that went in, whole, or the penalty placeholder; and a stage of
/// swaps puts out no placeholder of its own.
pub proof fn lemma_lanes_stay_whole(kind: CompareExchange, v: Seq<Lane>, ops: Seq<LaneSwap>, i: int)
    requires
        ops_in_range(ops, v.len()),
        0 <= i < v.len(),
    ensures
        (kind == CompareExchange::Shift && stage_lane(kind, v, ops, i) == penalty_lane()) || exists|
            j: int,
        |
            0 <= j < v.len() && stage_lane(kind, v, ops, i) == #[trigger] v[j],
    decreases ops.len(),
{
    if ops.len() == 0 {
        assert(stage_lane(kind, v, ops, i) == v[i]);
    } else {
        let op = ops.last();
        lemma_shorter_in_range(ops, v.len());
        if op.touches(i) {
            let out = exchanged(kind, v, op, i);
            assert(out == v[i] || out == v[op.0 as int] || out == v[op.1 as int] || (kind
                == CompareExchange::Shift && out == penalty_lane()));
        } else {
            lemma_lanes_stay_whole(kind, v, ops.drop_last(), i);
        }
    }
}

/// The lane with its tag replaced by the tag's image under `f`.
pub open spec fn retag(lane: Lane, f: spec_fn(u64) -> u64) -> Lane {
    Lane { key: lane.key, meta: f(lane.meta) }
}

/// The vector `v` with every tag replaced by its image under `f`.
pub open spec fn retagged(v: Seq<Lane>, f: spec_fn(u64) -> u64) -> Seq<Lane> {
    Seq::new(v.len(), |i: int| retag(v[i], f))
}

/// One lane of `lemma_stage_ignores_tags`.
proof fn lemma_lane_ignores_tags(
    kind: CompareExchange,
    v: Seq<Lane>,
    ops: Seq<LaneSwap>,
    f: spec_fn(u64) -> u64,
    i: int,
)
    requires
        ops_in_range(ops, v.len()),
        kind == CompareExchange::Shift ==> f(PENALTY) == PENALTY,
        0 <= i < v.len(),
    ensures
        stage_lane(kind, retagged(v, f), ops, i) == retag(stage_lane(kind, v, ops, i), f),
    decreases ops.len(),
{
    if ops.len() > 0 {
        lemma_shorter_in_range(ops, v.len());
        if !ops.last().touches(i) {
            lemma_lane_ignores_tags(kind, v, ops.drop_last(), f, i);
        }
    }
}

/// No operator consults a tag: a stage moves the lanes of a retagged vector
/// as it moves the lanes of the vector itself. For a stage of shifts the
/// retagging has to leave the tag of the placeholder alone.
pub proof fn lemma_stage_ignores_tags(
    kind: CompareExchange,
    v: Seq<Lane>,
    ops: Seq<LaneSwap>,
    f: spec_fn(u64) -> u64,
)
    requires
        ops_in_range(ops, v.len()),
        kind == CompareExchange::Shift ==> f(PENALTY) == PENALTY,
    ensures
        stage_result(kind, retagged(v, f), ops) == retagged(stage_result(kind, v, ops), f),
{
    assert forall|i: int| 0 <= i < v.len() implies stage_lane(kind, retagged(v, f), ops, i)
        == retag(stage_lane(kind, v, ops, i), f) by {
        lemma_lane_ignores_tags(kind, v, ops, f, i);
    }
    assert(stage_result(kind, retagged(v, f), ops) =~= retagged(stage_result(kind, v, ops), f));
}

/// A shift is lossy: what an invalid first slot held cannot be told from the
/// result. Two vectors that differ only in lanes that are invalid in both and
/// that some operator of a valid stage has as its first lane come out the
/// same.
pub proof fn lemma_shift_forgets_invalid_first_slots(
    v: Seq<Lane>,
    w: Seq<Lane>,
    ops: Seq<LaneSwap>,
)
    requires
        stage_valid(ops, v.len()),
        v.len() == w.len(),
        forall|i: int|
            0 <= i < v.len() ==> #[trigger] v[i] == w[i] || (!v[i].is_valid() && !w[i].is_valid()
                && exists|k: int| 0 <= k < ops.len() && (#[trigger] ops[k]).0 == i),
    ensures
        stage_result(CompareExchange::Shift, v, ops) == stage_result(
            CompareExchange::Shift,
            w,
            ops,
        ),
{
    let kind = CompareExchange::Shift;
    assert forall|k: int| 0 <= k < ops.len() implies v[(#[trigger] ops[k]).1 as int]
        == w[ops[k].1 as int] by {
        let second = ops[k].1 as int;
        assert(ops[k].in_range(v.len()));
        if v[second] != w[second] {
            let j = choose|j: int| 0 <= j < ops.len() && (#[trigger] ops[j]).0 == second;
            if j < k {
                assert(ops[j].disjoint_from(ops[k]));
            } else if k < j {
                assert(ops[k].disjoint_from(ops[j]));
            }
        }
    }
    assert forall|i: int| 0 <= i < v.len() implies stage_lane(kind, v, ops, i) == stage_lane(
        kind,
        w,
        ops,
        i,
    ) by {
        if ops_touch(ops, i) {
            let k = choose|k: int| 0 <= k < ops.len() && (#[trigger] ops[k]).touches(i);
            assert(ops[k].in_range(v.len()));
            assert(v[ops[k].1 as int] == w[ops[k].1 as int]);
            assert(v[ops[k].0 as int] == w[ops[k].0 as int] || (!v[ops[k].0 as int].is_valid()
                && !w[ops[k].0 as int].is_valid()));
            lemma_touched_lane(kind, v, ops, k, i);
            lemma_touched_lane(kind, w, ops, k, i);
        } else {
            lemma_untouched_lane(kind, v, ops, i);
            lemma_untouched_lane(kind, w, ops, i);
            assert(v[i] == w[i]);
        }
    }
    assert(stage_result(kind, v, ops) =~= stage_result(kind, w, ops));
}

/// A vector that holds nothing but placeholders passes every stage unchanged.
pub proof fn lemma_saturated_vector_passes_stage(
    kind: CompareExchange,
    v: Seq<Lane>,
    ops: Seq<LaneSwap>,
)
    requires
        ops_in_range(ops, v.len()),
        forall|i: int| 0 <= i < v.len() ==> v[i] == penalty_lane(),
    ensures
        stage_result(kind, v, ops) == v,
{
    assert forall|i: int| 0 <= i < v.len() implies stage_lane(kind, v, ops, i) == v[i] by {
        lemma_lanes_stay_whole(kind, v, ops, i);
    }
    assert(stage_result(kind, v, ops) =~= v);
}

/// A vector whose lanes are all disabled is sorted from the start and passes
/// every network unchanged, so it comes out sorted by key and by tag.
pub proof fn lemma_saturated_vector_passes(network: NetworkSpec, v: Seq<Lane>)
    requires
        network.well_formed(),
        v.len() == network.arity,
        forall|i: int| 0 <= i < v.len() ==> v[i] == penalty_lane(),
    ensures
        network.apply(v) == v,
        sorted_by_key(network.apply(v)),
        sorted_by_meta(network.apply(v)),
    decreases network.stages.len(),
{
    if network.stages.len() > 0 {
        let stage = network.stages[network.stages.len() - 1];
        let rest = NetworkSpec { arity: network.arity, stages: network.stages.drop_last() };
        assert forall|s: int| 0 <= s < rest.stages.len() implies ops_in_range(
            (#[trigger] rest.stages[s]).ops,
            rest.arity,
        ) by {
            assert(rest.stages[s] == network.stages[s]);
        }
        lemma_saturated_vector_passes(rest, v);
        assert(ops_in_range(stage.ops, network.arity));
        lemma_saturated_vector_passes_stage(stage.kind, v, stage.ops);
    }
}

/// The number of lanes below `len` that the mask leaves enabled.
pub open spec fn enabled_count(mask: u64, len: nat) -> nat
    decreases len,
{
    if len == 0 {
        0
    } else {
        enabled_count(mask, (len - 1) as nat) + if bit_is_set(mask, (len - 1) as nat) {
            0nat
        } else {
            1nat
        }
    }
}

/// The number of lanes below `len` that an addressing mode leaves enabled.
/// The zeroed vector has no disabled lane.
pub open spec fn enabled_lanes(typ: LaneArrayType, len: nat) -> nat {
    match typ {
        LaneArrayType::Simple(mask) => enabled_count(mask, len),
        LaneArrayType::Hidden(mask) => enabled_count(mask, len),
        LaneArrayType::Empty => len,
    }
}

/// An initial vector has exactly as many valid lanes as its addressing mode
/// leaves enabled.
pub proof fn lemma_initial_valid_count(len: u8, typ: LaneArrayType)
    ensures
        valid_count(initial_lanes(len, typ)) == enabled_lanes(typ, len as nat),
    decreases len,
{
    if len > 0 {
        let shorter = (len - 1) as u8;
        assert(initial_lanes(len, typ).drop_last() == initial_lanes(shorter, typ));
        lemma_initial_valid_count(shorter, typ);
    }
}

/// A valid network puts out as many valid lanes as the addressing mode of its
/// input left enabled.
pub proof fn lemma_network_keeps_enabled_lanes(network: NetworkSpec, len: u8, typ: LaneArrayType)
    requires
        network.valid(),
        len as nat == network.arity,
    ensures
        valid_count(network.apply(initial_lanes(len, typ))) == enabled_lanes(typ, len as nat),
{
    lemma_initial_valid_count(len, typ);
    lemma_network_keeps_valid_count(network, initial_lanes(len, typ));
}

/// In a vector sorted by key the valid lanes stand first: the lanes below the
/// number of valid lanes are valid, and no other lane is.
pub proof fn lemma_sorted_valid_lanes_first(v: Seq<Lane>)
    requires
        sorted_by_key(v),
    ensures
        valid_count(v) <= v.len(),
        forall|i: int| 0 <= i < v.len() ==> ((#[trigger] v[i]).is_valid() <==> i < valid_count(v)),
    decreases v.len(),
{
    if v.len() > 0 {
        let shorter = v.drop_last();
        assert forall|i: int, j: int| 0 <= i <= j < shorter.len() implies shorter[i].key
            <= shorter[j].key by {
            assert(v[i].key <= v[j].key);
        }
        lemma_sorted_valid_lanes_first(shorter);
        assert forall|i: int| 0 <= i < v.len() implies ((#[trigger] v[i]).is_valid() <==> i
            < valid_count(v)) by {
            if i < v.len() - 1 {
                assert(shorter[i] == v[i]);
                assert(v[i].key <= v[v.len() - 1].key);
            }
            if v.len() > 1 {
                assert(shorter[v.len() - 2] == v[v.len() - 2]);
                assert(v[v.len() - 2].key <= v[v.len() - 1].key);
            }
        }
    }
}

} // verus!
