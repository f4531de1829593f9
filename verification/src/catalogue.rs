//! A catalogue of network topologies, each given as a literal list of stages.
//!
//! Every topology comes in three forms: its mathematical content, a function
//! that builds it as data, and a function that runs it on a vector.

use vstd::prelude::*;
use crate::exchange::{sw, LaneSwap};
use crate::lane_array::LaneArray;
use crate::network::{apply_network, shifts, swaps, Network, NetworkSpec, Stage};

verus! {

/// The bitonic sorter for four lanes in its classic formulation, in which
/// one operator of the first stage sorts downwards.
pub open spec fn bitonic4a_spec() -> NetworkSpec {
    NetworkSpec {
        arity: 4,
        stages: seq![
            swaps(seq![LaneSwap(0, 1), LaneSwap(3, 2)]),
            swaps(seq![LaneSwap(0, 2), LaneSwap(1, 3)]),
            swaps(seq![LaneSwap(0, 1), LaneSwap(2, 3)]),
        ],
    }
}

/// Builds the network `bitonic4a_spec`. Each of its stages is valid.
pub fn bitonic4a_network() -> (network: Network)
    ensures
        network@ == bitonic4a_spec(),
        network@.valid(),
{
    let network = Network {
        arity: 4,
        stages: vec![
            Stage::swaps(vec![sw(0, 1), sw(3, 2)]),
            Stage::swaps(vec![sw(0, 2), sw(1, 3)]),
            Stage::swaps(vec![sw(0, 1), sw(2, 3)]),
        ],
    };
    assert(network@.stages =~~= bitonic4a_spec().stages);
    network
}

/// Runs the network `bitonic4a_spec` on a vector of four lanes.
pub fn bitonic4a(p0: &LaneArray) -> (out: LaneArray)
    requires
        p0@.len() == 4,
    ensures
        out@ == bitonic4a_spec().apply(p0@),
{
    apply_network(&bitonic4a_network(), p0)
}

/// The bitonic sorter for four lanes with downward swaps only.
pub open spec fn bitonic4b_spec() -> NetworkSpec {
    NetworkSpec {
        arity: 4,
        stages: seq![
            swaps(seq![LaneSwap(0, 1), LaneSwap(2, 3)]),
            swaps(seq![LaneSwap(0, 3), LaneSwap(1, 2)]),
            swaps(seq![LaneSwap(0, 1), LaneSwap(2, 3)]),
        ],
    }
}

/// Builds the network `bitonic4b_spec`. Each of its stages is valid.
pub fn bitonic4b_network() -> (network: Network)
    ensures
        network@ == bitonic4b_spec(),
        network@.valid(),
{
    let network = Network {
        arity: 4,
        stages: vec![
            Stage::swaps(vec![sw(0, 1), sw(2, 3)]),
            Stage::swaps(vec![sw(0, 3), sw(1, 2)]),
            Stage::swaps(vec![sw(0, 1), sw(2, 3)]),
        ],
    };
    assert(network@.stages =~~= bitonic4b_spec().stages);
    network
}

/// Runs the network `bitonic4b_spec` on a vector of four lanes.
pub fn bitonic4b(p0: &LaneArray) -> (out: LaneArray)
    requires
        p0@.len() == 4,
    ensures
        out@ == bitonic4b_spec().apply(p0@),
{
    apply_network(&bitonic4b_network(), p0)
}

/// The bitonic sorter for eight lanes in its classic formulation, in which
/// some operators of the first three stages sort downwards.
pub open spec fn bitonic8a_spec() -> NetworkSpec {
    NetworkSpec {
        arity: 8,
        stages: seq![
            swaps(seq![LaneSwap(0, 1), LaneSwap(3, 2), LaneSwap(4, 5), LaneSwap(7, 6)]),
            swaps(seq![LaneSwap(0, 2), LaneSwap(1, 3), LaneSwap(7, 5), LaneSwap(6, 4)]),
            swaps(seq![LaneSwap(0, 1), LaneSwap(2, 3), LaneSwap(5, 4), LaneSwap(7, 6)]),
            swaps(seq![LaneSwap(0, 4), LaneSwap(1, 5), LaneSwap(2, 6), LaneSwap(3, 7)]),
            swaps(seq![LaneSwap(0, 2), LaneSwap(1, 3), LaneSwap(4, 6), LaneSwap(5, 7)]),
            swaps(seq![LaneSwap(0, 1), LaneSwap(2, 3), LaneSwap(4, 5), LaneSwap(6, 7)]),
        ],
    }
}

/// Builds the network `bitonic8a_spec`. Each of its stages is valid.
pub fn bitonic8a_network() -> (network: Network)
    ensures
        network@ == bitonic8a_spec(),
        network@.valid(),
{
    let network = Network {
        arity: 8,
        stages: vec![
            Stage::swaps(vec![sw(0, 1), sw(3, 2), sw(4, 5), sw(7, 6)]),
            Stage::swaps(vec![sw(0, 2), sw(1, 3), sw(7, 5), sw(6, 4)]),
            Stage::swaps(vec![sw(0, 1), sw(2, 3), sw(5, 4), sw(7, 6)]),
            Stage::swaps(vec![sw(0, 4), sw(1, 5), sw(2, 6), sw(3, 7)]),
            Stage::swaps(vec![sw(0, 2), sw(1, 3), sw(4, 6), sw(5, 7)]),
            Stage::swaps(vec![sw(0, 1), sw(2, 3), sw(4, 5), sw(6, 7)]),
        ],
    };
    assert(network@.stages =~~= bitonic8a_spec().stages);
    network
}

/// Runs the network `bitonic8a_spec` on a vector of eight lanes.
pub fn bitonic8a(p0: &LaneArray) -> (out: LaneArray)
    requires
        p0@.len() == 8,
    ensures
        out@ == bitonic8a_spec().apply(p0@),
{
    apply_network(&bitonic8a_network(), p0)
}

/// The bitonic sorter for eight lanes with downward swaps only.
pub open spec fn bitonic8b_spec() -> NetworkSpec {
    NetworkSpec {
        arity: 8,
        stages: seq![
            swaps(seq![LaneSwap(0, 1), LaneSwap(2, 3), LaneSwap(4, 5), LaneSwap(6, 7)]),
            swaps(seq![LaneSwap(0, 3), LaneSwap(1, 2), LaneSwap(4, 7), LaneSwap(5, 6)]),
            swaps(seq![LaneSwap(0, 1), LaneSwap(2, 3), LaneSwap(4, 5), LaneSwap(6, 7)]),
            swaps(seq![LaneSwap(0, 7), LaneSwap(1, 6), LaneSwap(2, 5), LaneSwap(3, 4)]),
            swaps(seq![LaneSwap(0, 2), LaneSwap(1, 3), LaneSwap(4, 6), LaneSwap(5, 7)]),
            swaps(seq![LaneSwap(0, 1), LaneSwap(2, 3), LaneSwap(4, 5), LaneSwap(6, 7)]),
        ],
    }
}

/// Builds the network `bitonic8b_spec`. Each of its stages is valid.
pub fn bitonic8b_network() -> (network: Network)
    ensures
        network@ == bitonic8b_spec(),
        network@.valid(),
{
    let network = Network {
        arity: 8,
        stages: vec![
            Stage::swaps(vec![sw(0, 1), sw(2, 3), sw(4, 5), sw(6, 7)]),
            Stage::swaps(vec![sw(0, 3), sw(1, 2), sw(4, 7), sw(5, 6)]),
            Stage::swaps(vec![sw(0, 1), sw(2, 3), sw(4, 5), sw(6, 7)]),
            Stage::swaps(vec![sw(0, 7), sw(1, 6), sw(2, 5), sw(3, 4)]),
            Stage::swaps(vec![sw(0, 2), sw(1, 3), sw(4, 6), sw(5, 7)]),
            Stage::swaps(vec![sw(0, 1), sw(2, 3), sw(4, 5), sw(6, 7)]),
        ],
    };
    assert(network@.stages =~~= bitonic8b_spec().stages);
    network
}

/// Runs the network `bitonic8b_spec` on a vector of eight lanes.
pub fn bitonic8b(p0: &LaneArray) -> (out: LaneArray)
    requires
        p0@.len() == 8,
    ensures
        out@ == bitonic8b_spec().apply(p0@),
{
    apply_network(&bitonic8b_network(), p0)
}

/// Batcher's odd-even merge sort for eight lanes.
pub open spec fn batcher8_spec() -> NetworkSpec {
    NetworkSpec {
        arity: 8,
        stages: seq![
            swaps(seq![LaneSwap(0, 1), LaneSwap(2, 3), LaneSwap(4, 5), LaneSwap(6, 7)]),
            swaps(seq![LaneSwap(0, 2), LaneSwap(1, 3), LaneSwap(4, 6), LaneSwap(5, 7)]),
            swaps(seq![LaneSwap(1, 2), LaneSwap(5, 6)]),
            swaps(seq![LaneSwap(0, 4), LaneSwap(1, 5), LaneSwap(2, 6), LaneSwap(3, 7)]),
            swaps(seq![LaneSwap(2, 4), LaneSwap(3, 5)]),
            swaps(seq![LaneSwap(1, 2), LaneSwap(3, 4), LaneSwap(5, 6)]),
        ],
    }
}

/// Builds the network `batcher8_spec`. Each of its stages is valid.
pub fn batcher8_network() -> (network: Network)
    ensures
        network@ == batcher8_spec(),
        network@.valid(),
{
    let network = Network {
        arity: 8,
        stages: vec![
            Stage::swaps(vec![sw(0, 1), sw(2, 3), sw(4, 5), sw(6, 7)]),
            Stage::swaps(vec![sw(0, 2), sw(1, 3), sw(4, 6), sw(5, 7)]),
            Stage::swaps(vec![sw(1, 2), sw(5, 6)]),
            Stage::swaps(vec![sw(0, 4), sw(1, 5), sw(2, 6), sw(3, 7)]),
            Stage::swaps(vec![sw(2, 4), sw(3, 5)]),
            Stage::swaps(vec![sw(1, 2), sw(3, 4), sw(5, 6)]),
        ],
    };
    assert(network@.stages =~~= batcher8_spec().stages);
    network
}

/// Runs the network `batcher8_spec` on a vector of eight lanes.
pub fn batcher8(p0: &LaneArray) -> (out: LaneArray)
    requires
        p0@.len() == 8,
    ensures
        out@ == batcher8_spec().apply(p0@),
{
    apply_network(&batcher8_network(), p0)
}

/// Bubble sort for eight lanes as a compaction network: every operator is a
/// shift.
pub open spec fn bubble8_spec() -> NetworkSpec {
    NetworkSpec {
        arity: 8,
        stages: seq![
            shifts(seq![LaneSwap(0, 1)]),
            shifts(seq![LaneSwap(1, 2)]),
            shifts(seq![LaneSwap(0, 1), LaneSwap(2, 3)]),
            shifts(seq![LaneSwap(1, 2), LaneSwap(3, 4)]),
            shifts(seq![LaneSwap(0, 1), LaneSwap(2, 3), LaneSwap(4, 5)]),
            shifts(seq![LaneSwap(1, 2), LaneSwap(3, 4), LaneSwap(5, 6)]),
            shifts(seq![LaneSwap(0, 1), LaneSwap(2, 3), LaneSwap(4, 5), LaneSwap(6, 7)]),
            shifts(seq![LaneSwap(1, 2), LaneSwap(3, 4), LaneSwap(5, 6)]),
            shifts(seq![LaneSwap(0, 1), LaneSwap(2, 3), LaneSwap(4, 5)]),
            shifts(seq![LaneSwap(1, 2), LaneSwap(3, 4)]),
            shifts(seq![LaneSwap(0, 1), LaneSwap(2, 3)]),
            shifts(seq![LaneSwap(1, 2)]),
            shifts(seq![LaneSwap(0, 1)]),
        ],
    }
}

/// Builds the network `bubble8_spec`. Each of its stages is valid.
pub fn bubble8_network() -> (network: Network)
    ensures
        network@ == bubble8_spec(),
        network@.valid(),
{
    let network = Network {
        arity: 8,
        stages: vec![
            Stage::shifts(vec![sw(0, 1)]),
            Stage::shifts(vec![sw(1, 2)]),
            Stage::shifts(vec![sw(0, 1), sw(2, 3)]),
            Stage::shifts(vec![sw(1, 2), sw(3, 4)]),
            Stage::shifts(vec![sw(0, 1), sw(2, 3), sw(4, 5)]),
            Stage::shifts(vec![sw(1, 2), sw(3, 4), sw(5, 6)]),
            Stage::shifts(vec![sw(0, 1), sw(2, 3), sw(4, 5), sw(6, 7)]),
            Stage::shifts(vec![sw(1, 2), sw(3, 4), sw(5, 6)]),
            Stage::shifts(vec![sw(0, 1), sw(2, 3), sw(4, 5)]),
            Stage::shifts(vec![sw(1, 2), sw(3, 4)]),
            Stage::shifts(vec![sw(0, 1), sw(2, 3)]),
            Stage::shifts(vec![sw(1, 2)]),
            Stage::shifts(vec![sw(0, 1)]),
        ],
    };
    assert(network@.stages =~~= bubble8_spec().stages);
    network
}

/// Runs the network `bubble8_spec` on a vector of eight lanes.
pub fn bubble8(p0: &LaneArray) -> (out: LaneArray)
    requires
        p0@.len() == 8,
    ensures
        out@ == bubble8_spec().apply(p0@),
{
    apply_network(&bubble8_network(), p0)
}

/// The pairwise sorting network for eight lanes.
pub open spec fn pairwise8_spec() -> NetworkSpec {
    NetworkSpec {
        arity: 8,
        stages: seq![
            swaps(seq![LaneSwap(0, 1), LaneSwap(2, 3), LaneSwap(4, 5), LaneSwap(6, 7)]),
            swaps(seq![LaneSwap(0, 2), LaneSwap(1, 3), LaneSwap(4, 6), LaneSwap(5, 7)]),
            swaps(seq![LaneSwap(0, 4), LaneSwap(1, 5), LaneSwap(2, 6), LaneSwap(3, 7)]),
            swaps(seq![LaneSwap(2, 4), LaneSwap(3, 5)]),
            swaps(seq![LaneSwap(1, 4), LaneSwap(3, 6)]),
            swaps(seq![LaneSwap(1, 2), LaneSwap(3, 4), LaneSwap(5, 6)]),
        ],
    }
}

/// Builds the network `pairwise8_spec`. Each of its stages is valid.
pub fn pairwise8_network() -> (network: Network)
    ensures
        network@ == pairwise8_spec(),
        network@.valid(),
{
    let network = Network {
        arity: 8,
        stages: vec![
            Stage::swaps(vec![sw(0, 1), sw(2, 3), sw(4, 5), sw(6, 7)]),
            Stage::swaps(vec![sw(0, 2), sw(1, 3), sw(4, 6), sw(5, 7)]),
            Stage::swaps(vec![sw(0, 4), sw(1, 5), sw(2, 6), sw(3, 7)]),
            Stage::swaps(vec![sw(2, 4), sw(3, 5)]),
            Stage::swaps(vec![sw(1, 4), sw(3, 6)]),
            Stage::swaps(vec![sw(1, 2), sw(3, 4), sw(5, 6)]),
        ],
    };
    assert(network@.stages =~~= pairwise8_spec().stages);
    network
}

/// Runs the network `pairwise8_spec` on a vector of eight lanes.
pub fn pairwise8(p0: &LaneArray) -> (out: LaneArray)
    requires
        p0@.len() == 8,
    ensures
        out@ == pairwise8_spec().apply(p0@),
{
    apply_network(&pairwise8_network(), p0)
}

/// Odd-even transposition sort for eight lanes.
pub open spec fn transpose8_spec() -> NetworkSpec {
    NetworkSpec {
        arity: 8,
        stages: seq![
            swaps(seq![LaneSwap(0, 1), LaneSwap(2, 3), LaneSwap(4, 5), LaneSwap(6, 7)]),
            swaps(seq![LaneSwap(1, 2), LaneSwap(3, 4), LaneSwap(5, 6)]),
            swaps(seq![LaneSwap(0, 1), LaneSwap(2, 3), LaneSwap(4, 5), LaneSwap(6, 7)]),
            swaps(seq![LaneSwap(1, 2), LaneSwap(3, 4), LaneSwap(5, 6)]),
            swaps(seq![LaneSwap(0, 1), LaneSwap(2, 3), LaneSwap(4, 5), LaneSwap(6, 7)]),
            swaps(seq![LaneSwap(1, 2), LaneSwap(3, 4), LaneSwap(5, 6)]),
            swaps(seq![LaneSwap(0, 1), LaneSwap(2, 3), LaneSwap(4, 5), LaneSwap(6, 7)]),
            swaps(seq![LaneSwap(1, 2), LaneSwap(3, 4), LaneSwap(5, 6)]),
        ],
    }
}

/// Builds the network `transpose8_spec`. Each of its stages is valid.
pub fn transpose8_network() -> (network: Network)
    ensures
        network@ == transpose8_spec(),
        network@.valid(),
{
    let network = Network {
        arity: 8,
        stages: vec![
            Stage::swaps(vec![sw(0, 1), sw(2, 3), sw(4, 5), sw(6, 7)]),
            Stage::swaps(vec![sw(1, 2), sw(3, 4), sw(5, 6)]),
            Stage::swaps(vec![sw(0, 1), sw(2, 3), sw(4, 5), sw(6, 7)]),
            Stage::swaps(vec![sw(1, 2), sw(3, 4), sw(5, 6)]),
            Stage::swaps(vec![sw(0, 1), sw(2, 3), sw(4, 5), sw(6, 7)]),
            Stage::swaps(vec![sw(1, 2), sw(3, 4), sw(5, 6)]),
            Stage::swaps(vec![sw(0, 1), sw(2, 3), sw(4, 5), sw(6, 7)]),
            Stage::swaps(vec![sw(1, 2), sw(3, 4), sw(5, 6)]),
        ],
    };
    assert(network@.stages =~~= transpose8_spec().stages);
    network
}

/// Runs the network `transpose8_spec` on a vector of eight lanes.
pub fn transpose8(p0: &LaneArray) -> (out: LaneArray)
    requires
        p0@.len() == 8,
    ensures
        out@ == transpose8_spec().apply(p0@),
{
    apply_network(&transpose8_network(), p0)
}

/// The compacting counterpart of `transpose8_spec`: the same operators, run
/// as shifts.
pub open spec fn transpose8s_spec() -> NetworkSpec {
    NetworkSpec {
        arity: 8,
        stages: seq![
            shifts(seq![LaneSwap(0, 1), LaneSwap(2, 3), LaneSwap(4, 5), LaneSwap(6, 7)]),
            shifts(seq![LaneSwap(1, 2), LaneSwap(3, 4), LaneSwap(5, 6)]),
            shifts(seq![LaneSwap(0, 1), LaneSwap(2, 3), LaneSwap(4, 5), LaneSwap(6, 7)]),
            shifts(seq![LaneSwap(1, 2), LaneSwap(3, 4), LaneSwap(5, 6)]),
            shifts(seq![LaneSwap(0, 1), LaneSwap(2, 3), LaneSwap(4, 5), LaneSwap(6, 7)]),
            shifts(seq![LaneSwap(1, 2), LaneSwap(3, 4), LaneSwap(5, 6)]),
            shifts(seq![LaneSwap(0, 1), LaneSwap(2, 3), LaneSwap(4, 5), LaneSwap(6, 7)]),
            shifts(seq![LaneSwap(1, 2), LaneSwap(3, 4), LaneSwap(5, 6)]),
        ],
    }
}

/// Builds the network `transpose8s_spec`. Each of its stages is valid.
pub fn transpose8s_network() -> (network: Network)
    ensures
        network@ == transpose8s_spec(),
        network@.valid(),
{
    let network = Network {
        arity: 8,
        stages: vec![
            Stage::shifts(vec![sw(0, 1), sw(2, 3), sw(4, 5), sw(6, 7)]),
            Stage::shifts(vec![sw(1, 2), sw(3, 4), sw(5, 6)]),
            Stage::shifts(vec![sw(0, 1), sw(2, 3), sw(4, 5), sw(6, 7)]),
            Stage::shifts(vec![sw(1, 2), sw(3, 4), sw(5, 6)]),
            Stage::shifts(vec![sw(0, 1), sw(2, 3), sw(4, 5), sw(6, 7)]),
            Stage::shifts(vec![sw(1, 2), sw(3, 4), sw(5, 6)]),
            Stage::shifts(vec![sw(0, 1), sw(2, 3), sw(4, 5), sw(6, 7)]),
            Stage::shifts(vec![sw(1, 2), sw(3, 4), sw(5, 6)]),
        ],
    };
    assert(network@.stages =~~= transpose8s_spec().stages);
    network
}

/// Runs the network `transpose8s_spec` on a vector of eight lanes.
pub fn transpose8s(p0: &LaneArray) -> (out: LaneArray)
    requires
        p0@.len() == 8,
    ensures
        out@ == transpose8s_spec().apply(p0@),
{
    apply_network(&transpose8s_network(), p0)
}

/// Odd-even transposition by shifts for three lanes.
pub open spec fn transpose3s_spec() -> NetworkSpec {
    NetworkSpec {
        arity: 3,
        stages: seq![
            shifts(seq![LaneSwap(0, 1)]),
            shifts(seq![LaneSwap(1, 2)]),
            shifts(seq![LaneSwap(0, 1)]),
        ],
    }
}

/// Builds the network `transpose3s_spec`. Each of its stages is valid.
pub fn transpose3s_network() -> (network: Network)
    ensures
        network@ == transpose3s_spec(),
        network@.valid(),
{
    let network = Network {
        arity: 3,
        stages: vec![
            Stage::shifts(vec![sw(0, 1)]),
            Stage::shifts(vec![sw(1, 2)]),
            Stage::shifts(vec![sw(0, 1)]),
        ],
    };
    assert(network@.stages =~~= transpose3s_spec().stages);
    network
}

/// Runs the network `transpose3s_spec` on a vector of three lanes.
pub fn transpose3s(p0: &LaneArray) -> (out: LaneArray)
    requires
        p0@.len() == 3,
    ensures
        out@ == transpose3s_spec().apply(p0@),
{
    apply_network(&transpose3s_network(), p0)
}

/// Odd-even transposition by shifts for five lanes.
pub open spec fn transpose5s_spec() -> NetworkSpec {
    NetworkSpec {
        arity: 5,
        stages: seq![
            shifts(seq![LaneSwap(0, 1), LaneSwap(2, 3)]),
            shifts(seq![LaneSwap(1, 2), LaneSwap(3, 4)]),
            shifts(seq![LaneSwap(0, 1), LaneSwap(2, 3)]),
            shifts(seq![LaneSwap(1, 2), LaneSwap(3, 4)]),
            shifts(seq![LaneSwap(0, 1), LaneSwap(2, 3)]),
        ],
    }
}

/// Builds the network `transpose5s_spec`. Each of its stages is valid.
pub fn transpose5s_network() -> (network: Network)
    ensures
        network@ == transpose5s_spec(),
        network@.valid(),
{
    let network = Network {
        arity: 5,
        stages: vec![
            Stage::shifts(vec![sw(0, 1), sw(2, 3)]),
            Stage::shifts(vec![sw(1, 2), sw(3, 4)]),
            Stage::shifts(vec![sw(0, 1), sw(2, 3)]),
            Stage::shifts(vec![sw(1, 2), sw(3, 4)]),
            Stage::shifts(vec![sw(0, 1), sw(2, 3)]),
        ],
    };
    assert(network@.stages =~~= transpose5s_spec().stages);
    network
}

/// Runs the network `transpose5s_spec` on a vector of five lanes.
pub fn transpose5s(p0: &LaneArray) -> (out: LaneArray)
    requires
        p0@.len() == 5,
    ensures
        out@ == transpose5s_spec().apply(p0@),
{
    apply_network(&transpose5s_network(), p0)
}

/// Odd-even transposition by shifts for six lanes.
pub open spec fn transpose6s_spec() -> NetworkSpec {
    NetworkSpec {
        arity: 6,
        stages: seq![
            shifts(seq![LaneSwap(0, 1), LaneSwap(2, 3), LaneSwap(4, 5)]),
            shifts(seq![LaneSwap(1, 2), LaneSwap(3, 4)]),
            shifts(seq![LaneSwap(0, 1), LaneSwap(2, 3), LaneSwap(4, 5)]),
            shifts(seq![LaneSwap(1, 2), LaneSwap(3, 4)]),
            shifts(seq![LaneSwap(0, 1), LaneSwap(2, 3), LaneSwap(4, 5)]),
            shifts(seq![LaneSwap(1, 2), LaneSwap(3, 4)]),
        ],
    }
}

/// Builds the network `transpose6s_spec`. Each of its stages is valid.
pub fn transpose6s_network() -> (network: Network)
    ensures
        network@ == transpose6s_spec(),
        network@.valid(),
{
    let network = Network {
        arity: 6,
        stages: vec![
            Stage::shifts(vec![sw(0, 1), sw(2, 3), sw(4, 5)]),
            Stage::shifts(vec![sw(1, 2), sw(3, 4)]),
            Stage::shifts(vec![sw(0, 1), sw(2, 3), sw(4, 5)]),
            Stage::shifts(vec![sw(1, 2), sw(3, 4)]),
            Stage::shifts(vec![sw(0, 1), sw(2, 3), sw(4, 5)]),
            Stage::shifts(vec![sw(1, 2), sw(3, 4)]),
        ],
    };
    assert(network@.stages =~~= transpose6s_spec().stages);
    network
}

/// Runs the network `transpose6s_spec` on a vector of six lanes.
pub fn transpose6s(p0: &LaneArray) -> (out: LaneArray)
    requires
        p0@.len() == 6,
    ensures
        out@ == transpose6s_spec().apply(p0@),
{
    apply_network(&transpose6s_network(), p0)
}

} // verus!
