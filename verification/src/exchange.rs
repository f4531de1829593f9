//! Compare-exchange operators and the meaning of one stage of them.
//!
//! A stage is a list of operators that all read the same snapshot of the
//! vector: what an operator writes depends on the vector before the stage,
//! never on what another operator of the stage wrote.

use vstd::prelude::*;
use crate::lane::{penalty_lane, Lane};

verus! {

/// A compare-exchange operator on the lanes at two indices. The first index is
/// by convention the lower slot.
#[derive(Clone, Copy, Debug, PartialEq, Eq, Structural)]
pub struct LaneSwap(pub usize, pub usize);

/// The semantics under which the operators of a stage run.
#[derive(Clone, Copy, Debug, PartialEq, Eq, Structural)]
pub enum CompareExchange {
    /// Reorders the two lanes and keeps both.
    Swap,
    /// Compacts: pulls the second lane into an invalid first slot and leaves a
    /// placeholder behind.
    Shift,
}

/// Makes the operator on lanes `a` and `b`.
pub fn sw(a: usize, b: usize) -> (op: LaneSwap)
    ensures
        op == LaneSwap(a, b),
{
    LaneSwap(a, b)
}

impl LaneSwap {
    /// Both indices address a lane of a vector of `n` lanes.
    pub open spec fn in_range(self, n: nat) -> bool {
        self.0 < n && self.1 < n
    }

    /// The operator reads and writes lane `i`.
    pub open spec fn touches(self, i: int) -> bool {
        self.0 == i || self.1 == i
    }

    /// The two operators have no index in common.
    pub open spec fn disjoint_from(self, other: LaneSwap) -> bool {
        self.0 != other.0 && self.0 != other.1 && self.1 != other.0 && self.1 != other.1
    }
}

/// Every operator of the stage addresses lanes of a vector of `n` lanes.
pub open spec fn ops_in_range(ops: Seq<LaneSwap>, n: nat) -> bool {
    forall|k: int| 0 <= k < ops.len() ==> (#[trigger] ops[k]).in_range(n)
}

/// No lane is addressed by two operators of the stage.
pub open spec fn ops_disjoint(ops: Seq<LaneSwap>) -> bool {
    forall|j: int, k: int|
        0 <= j < k < ops.len() ==> (#[trigger] ops[j]).disjoint_from(#[trigger] ops[k])
}

/// Some operator of the stage reads and writes lane `i`.
pub open spec fn ops_touch(ops: Seq<LaneSwap>, i: int) -> bool {
    exists|k: int| 0 <= k < ops.len() && (#[trigger] ops[k]).touches(i)
}

/// The stage is valid for a vector of `n` lanes: every operator addresses two
/// different lanes of it, and no lane is addressed by two operators.
pub open spec fn stage_valid(ops: Seq<LaneSwap>, n: nat) -> bool {
    &&& ops_in_range(ops, n)
    &&& forall|k: int| 0 <= k < ops.len() ==> (#[trigger] ops[k]).0 != ops[k].1
    &&& ops_disjoint(ops)
}

/// What the operator `op` writes to lane `i`, one of its two lanes, given the
/// vector `v` before the stage.
///
/// Swap: if the key at the first index is at most the key at the second, both
/// lanes stay; otherwise they trade places, key and tag together.
/// Shift: if the first lane is valid, both lanes stay; otherwise the first slot
/// receives the second lane and the second slot the penalty placeholder.
pub open spec fn exchanged(kind: CompareExchange, v: Seq<Lane>, op: LaneSwap, i: int) -> Lane {
    let first = v[op.0 as int];
    let second = v[op.1 as int];
    match kind {
        CompareExchange::Swap => if first.key <= second.key {
            v[i]
        } else if i == op.1 {
            first
        } else {
            second
        },
        CompareExchange::Shift => if first.is_valid() {
            v[i]
        } else if i == op.1 {
            penalty_lane()
        } else {
            second
        },
    }
}

/// Lane `i` after the stage `ops` has run on `v`: what the operator that
/// touches lane `i` writes there, and `v[i]` where no operator touches it. In
/// a valid stage at most one operator touches a lane; should several do so,
/// the last of them in the list decides.
pub open spec fn stage_lane(kind: CompareExchange, v: Seq<Lane>, ops: Seq<LaneSwap>, i: int) -> Lane
    decreases ops.len(),
{
    if ops.len() == 0 {
        v[i]
    } else if ops.last().touches(i) {
        exchanged(kind, v, ops.last(), i)
    } else {
        stage_lane(kind, v, ops.drop_last(), i)
    }
}

/// The vector after the stage `ops` has run on `v`.
pub open spec fn stage_result(kind: CompareExchange, v: Seq<Lane>, ops: Seq<LaneSwap>) -> Seq<
    Lane,
> {
    Seq::new(v.len(), |i: int| stage_lane(kind, v, ops, i))
}

/// The keys of the lanes never decrease from one index to the next.
pub open spec fn sorted_by_key(v: Seq<Lane>) -> bool {
    forall|i: int, j: int| 0 <= i <= j < v.len() ==> v[i].key <= v[j].key
}

/// The tags of the lanes never decrease from one index to the next.
pub open spec fn sorted_by_meta(v: Seq<Lane>) -> bool {
    forall|i: int, j: int| 0 <= i <= j < v.len() ==> v[i].meta <= v[j].meta
}

/// The number of valid lanes in the vector.
pub open spec fn valid_count(v: Seq<Lane>) -> nat
    decreases v.len(),
{
    if v.len() == 0 {
        0
    } else {
        valid_count(v.drop_last()) + if v.last().is_valid() {
            1nat
        } else {
            0nat
        }
    }
}

} // verus!
