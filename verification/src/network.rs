//! Networks as data: an ordered list of stages for vectors of one length.

use vstd::prelude::*;
use crate::exchange::{ops_in_range, stage_result, stage_valid, CompareExchange, LaneSwap};
use crate::lane::Lane;
use crate::lane_array::LaneArray;

verus! {

/// One stage: a set of operators that run in parallel under one semantics.
#[derive(Clone, Debug, PartialEq, Eq)]
pub struct Stage {
    pub kind: CompareExchange,
    pub ops: Vec<LaneSwap>,
}

/// A network: its stages in the order in which they run, and the only vector
/// length that it accepts.
#[derive(Clone, Debug, PartialEq, Eq)]
pub struct Network {
    pub arity: usize,
    pub stages: Vec<Stage>,
}

/// The mathematical content of a `Stage`.
#[verifier::ext_equal]
pub struct StageSpec {
    pub kind: CompareExchange,
    pub ops: Seq<LaneSwap>,
}

/// The mathematical content of a `Network`.
#[verifier::ext_equal]
pub struct NetworkSpec {
    pub arity: nat,
    pub stages: Seq<StageSpec>,
}

impl View for Stage {
    type V = StageSpec;

    open spec fn view(&self) -> StageSpec {
        StageSpec { kind: self.kind, ops: self.ops@ }
    }
}

impl View for Network {
    type V = NetworkSpec;

    open spec fn view(&self) -> NetworkSpec {
        NetworkSpec {
            arity: self.arity as nat,
            stages: Seq::new(self.stages@.len(), |s: int| self.stages@[s]@),
        }
    }
}

/// The vector after the given stages have run on `v`, first to last.
pub open spec fn run_stages(stages: Seq<StageSpec>, v: Seq<Lane>) -> Seq<Lane>
    decreases stages.len(),
{
    if stages.len() == 0 {
        v
    } else {
        stage_result(stages.last().kind, run_stages(stages.drop_last(), v), stages.last().ops)
    }
}

impl NetworkSpec {
    /// Every operator of every stage addresses lanes of a vector of `arity`
    /// lanes, so the network can run on such a vector.
    pub open spec fn well_formed(self) -> bool {
        forall|s: int| 0 <= s < self.stages.len() ==> ops_in_range(
            (#[trigger] self.stages[s]).ops,
            self.arity,
        )
    }

    /// Every stage is valid: its operators address two different lanes each
    /// and are pairwise disjoint.
    pub open spec fn valid(self) -> bool {
        forall|s: int| 0 <= s < self.stages.len() ==> stage_valid(
            (#[trigger] self.stages[s]).ops,
            self.arity,
        )
    }

    /// The output of the network on the input `v`.
    pub open spec fn apply(self, v: Seq<Lane>) -> Seq<Lane> {
        run_stages(self.stages, v)
    }
}

/// The stage that runs `ops` as swaps.
pub open spec fn swaps(ops: Seq<LaneSwap>) -> StageSpec {
    StageSpec { kind: CompareExchange::Swap, ops }
}

/// The stage that runs `ops` as shifts.
pub open spec fn shifts(ops: Seq<LaneSwap>) -> StageSpec {
    StageSpec { kind: CompareExchange::Shift, ops }
}

impl Stage {
    /// Makes the stage that runs `ops` as swaps.
    pub fn swaps(ops: Vec<LaneSwap>) -> (stage: Stage)
        ensures
            stage@ == swaps(ops@),
    {
        Stage { kind: CompareExchange::Swap, ops }
    }

    /// Makes the stage that runs `ops` as shifts.
    pub fn shifts(ops: Vec<LaneSwap>) -> (stage: Stage)
        ensures
            stage@ == shifts(ops@),
    {
        Stage { kind: CompareExchange::Shift, ops }
    }

    /// Tests whether every operator of the stage addresses lanes below
    /// `arity`.
    pub fn is_in_range_for(&self, arity: usize) -> (ok: bool)
        ensures
            ok == ops_in_range(self@.ops, arity as nat),
    {
        let mut k: usize = 0;
        while k < self.ops.len()
            invariant
                k <= self.ops@.len(),
                forall|j: int| 0 <= j < k ==> (#[trigger] self.ops@[j]).in_range(arity as nat),
            decreases self.ops@.len() - k,
        {
            if self.ops[k].0 >= arity || self.ops[k].1 >= arity {
                assert(!self.ops@[k as int].in_range(arity as nat));
                return false;
            }
            k = k + 1;
        }
        true
    }

    /// Tests whether the stage is valid for vectors of `arity` lanes: every
    /// operator addresses two different lanes below `arity`, and no lane is
    /// addressed by two operators.
    pub fn is_valid_for(&self, arity: usize) -> (ok: bool)
        ensures
            ok == stage_valid(self@.ops, arity as nat),
    {
        let mut k: usize = 0;
        while k < self.ops.len()
            invariant
                k <= self.ops@.len(),
                forall|j: int| 0 <= j < k ==> (#[trigger] self.ops@[j]).in_range(arity as nat),
                forall|j: int| 0 <= j < k ==> (#[trigger] self.ops@[j]).0 != self.ops@[j].1,
                forall|i: int, j: int|
                    0 <= i < j < k ==> (#[trigger] self.ops@[i]).disjoint_from(
                        #[trigger] self.ops@[j],
                    ),
            decreases self.ops@.len() - k,
        {
            let op = self.ops[k];
            if op.0 >= arity || op.1 >= arity || op.0 == op.1 {
                assert(!self.ops@[k as int].in_range(arity as nat) || self.ops@[k as int].0
                    == self.ops@[k as int].1);
                return false;
            }
            let mut j: usize = 0;
            while j < k
                invariant
                    j <= k < self.ops@.len(),
                    op == self.ops@[k as int],
                    forall|i: int| 0 <= i < j ==> (#[trigger] self.ops@[i]).disjoint_from(op),
                decreases k - j,
            {
                let other = self.ops[j];
                if other.0 == op.0 || other.0 == op.1 || other.1 == op.0 || other.1 == op.1 {
                    assert(!self.ops@[j as int].disjoint_from(self.ops@[k as int]));
                    return false;
                }
                j = j + 1;
            }
            k = k + 1;
        }
        true
    }
}

impl Network {
    /// Tests whether every stage of the network is valid for its arity.
    pub fn is_valid(&self) -> (ok: bool)
        ensures
            ok == self@.valid(),
    {
        let mut s: usize = 0;
        while s < self.stages.len()
            invariant
                s <= self.stages@.len(),
                forall|t: int|
                    0 <= t < s ==> stage_valid((#[trigger] self@.stages[t]).ops, self@.arity),
            decreases self.stages@.len() - s,
        {
            assert(self@.stages[s as int] == self.stages@[s as int]@);
            if !self.stages[s].is_valid_for(self.arity) {
                return false;
            }
            s = s + 1;
        }
        true
    }

    /// Tests whether every operator of the network addresses lanes below its
    /// arity.
    pub fn is_well_formed(&self) -> (ok: bool)
        ensures
            ok == self@.well_formed(),
    {
        let mut s: usize = 0;
        while s < self.stages.len()
            invariant
                s <= self.stages@.len(),
                forall|t: int|
                    0 <= t < s ==> ops_in_range((#[trigger] self@.stages[t]).ops, self@.arity),
            decreases self.stages@.len() - s,
        {
            assert(self@.stages[s as int] == self.stages@[s as int]@);
            if !self.stages[s].is_in_range_for(self.arity) {
                return false;
            }
            s = s + 1;
        }
        true
    }
}

/// Runs the network on `input`: each stage takes the vector that the stage
/// before it produced, and the vector after the last stage is the result.
pub fn apply_network(network: &Network, input: &LaneArray) -> (output: LaneArray)
    requires
        network@.well_formed(),
        input@.len() == network@.arity,
    ensures
        output@ == network@.apply(input@),
        output@.len() == input@.len(),
{
    let mut current = input.duplicate();
    let mut s: usize = 0;
    while s < network.stages.len()
        invariant
            s <= network.stages@.len(),
            network@.well_formed(),
            current@.len() == network@.arity,
            current@ == run_stages(network@.stages.take(s as int), input@),
        decreases network.stages@.len() - s,
    {
        let stage = &network.stages[s];
        assert(network@.stages[s as int] == stage@);
        assert(network@.stages.take(s + 1).drop_last() == network@.stages.take(s as int));
        current = match stage.kind {
            CompareExchange::Swap => current.swap(&stage.ops),
            CompareExchange::Shift => current.shift(&stage.ops),
        };
        s = s + 1;
    }
    assert(network@.stages.take(s as int) == network@.stages);
    current
}

} // verus!
