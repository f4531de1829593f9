//! The lane vector: the full state of the bus at one pipeline stage.

use vstd::prelude::*;
use crate::exchange::{
    exchanged, ops_disjoint, ops_in_range, ops_touch, sorted_by_key, sorted_by_meta, stage_lane,
    stage_result, valid_count, CompareExchange, LaneSwap,
};
use crate::lane::{initial_lane, Lane, LaneArrayType, PENALTY};
use crate::laws::{
    lemma_shift_keeps_valid_count, lemma_stage_in_parallel, lemma_swap_keeps_ordered_pairs,
    lemma_swap_permutes,
};

verus! {

/// An ordered vector of lanes. It serves as the input of a network, as the
/// state between two stages, and as the output.
#[derive(Clone, Debug, PartialEq, Eq)]
pub struct LaneArray {
    pub lanes: Vec<Lane>,
}

impl View for LaneArray {
    type V = Seq<Lane>;

    open spec fn view(&self) -> Seq<Lane> {
        self.lanes@
    }
}

/// The vector of `len` lanes that an addressing mode starts from.
pub open spec fn initial_lanes(len: u8, typ: LaneArrayType) -> Seq<Lane> {
    Seq::new(len as nat, |i: int| initial_lane(typ, i as u8))
}

impl LaneArray {
    /// Builds the initial vector of `len` lanes for the given addressing mode.
    pub fn new(len: u8, typ: &LaneArrayType) -> (array: LaneArray)
        ensures
            array@ == initial_lanes(len, *typ),
    {
        let mut lanes: Vec<Lane> = Vec::new();
        let mut n: u8 = 0;
        while n < len
            invariant
                n <= len,
                lanes@.len() == n,
                forall|i: int| 0 <= i < n ==> lanes@[i] == initial_lane(*typ, i as u8),
            decreases len - n,
        {
            lanes.push(Lane::new(typ, n));
            n = n + 1;
        }
        LaneArray { lanes }
    }

    /// Are all lanes in ascending order by key?
    pub fn is_sorted_key(&self) -> (sorted: bool)
        ensures
            sorted == sorted_by_key(self@),
    {
        let mut prev: u64 = 0;
        let mut n: usize = 0;
        while n < self.lanes.len()
            invariant
                n <= self@.len(),
                n == 0 ==> prev == 0,
                n > 0 ==> prev == self@[n - 1].key,
                forall|i: int, j: int| 0 <= i <= j < n ==> self@[i].key <= self@[j].key,
            decreases self@.len() - n,
        {
            let key: u64 = self.lanes[n].key;
            if key < prev {
                assert(self@[n - 1].key > self@[n as int].key);
                return false;
            }
            prev = key;
            n = n + 1;
        }
        true
    }

    /// Are all lanes in ascending order by tag?
    pub fn is_sorted_meta(&self) -> (sorted: bool)
        ensures
            sorted == sorted_by_meta(self@),
    {
        let mut prev: u64 = 0;
        let mut n: usize = 0;
        while n < self.lanes.len()
            invariant
                n <= self@.len(),
                n == 0 ==> prev == 0,
                n > 0 ==> prev == self@[n - 1].meta,
                forall|i: int, j: int| 0 <= i <= j < n ==> self@[i].meta <= self@[j].meta,
            decreases self@.len() - n,
        {
            let meta: u64 = self.lanes[n].meta;
            if meta < prev {
                assert(self@[n - 1].meta > self@[n as int].meta);
                return false;
            }
            prev = meta;
            n = n + 1;
        }
        true
    }

    /// A copy of the vector, lane for lane.
    pub(crate) fn duplicate(&self) -> (copy: LaneArray)
        ensures
            copy@ == self@,
    {
        let mut lanes: Vec<Lane> = Vec::new();
        let mut n: usize = 0;
        while n < self.lanes.len()
            invariant
                n <= self@.len(),
                lanes@ == self@.take(n as int),
            decreases self@.len() - n,
        {
            lanes.push(self.lanes[n]);
            n = n + 1;
        }
        LaneArray { lanes }
    }

    /// Runs one stage of swap operators and returns the new vector. Every
    /// operator compares the keys of its two lanes as they were before the
    /// stage; the lane with the smaller key goes to the first index, and on
    /// equal keys nothing moves.
    pub fn swap(&self, ops: &Vec<LaneSwap>) -> (result: LaneArray)
        requires
            ops_in_range(ops@, self@.len()),
        ensures
            result@ == stage_result(CompareExchange::Swap, self@, ops@),
            result@.len() == self@.len(),
            forall|i: int|
                0 <= i < self@.len() && !ops_touch(ops@, i) ==> #[trigger] result@[i] == self@[i],
            ops_disjoint(ops@) ==> forall|k: int|
                0 <= k < ops@.len() ==> result@[(#[trigger] ops@[k]).0 as int] == exchanged(
                    CompareExchange::Swap,
                    self@,
                    ops@[k],
                    ops@[k].0 as int,
                ) && result@[ops@[k].1 as int] == exchanged(
                    CompareExchange::Swap,
                    self@,
                    ops@[k],
                    ops@[k].1 as int,
                ),
            (forall|k: int|
                0 <= k < ops@.len() ==> self@[(#[trigger] ops@[k]).0 as int].key
                    <= self@[ops@[k].1 as int].key) ==> result@ == self@,
            ops_disjoint(ops@) ==> result@.to_multiset() == self@.to_multiset(),
    {
        let mut result = self.duplicate();
        let mut k: usize = 0;
        while k < ops.len()
            invariant
                k <= ops@.len(),
                ops_in_range(ops@, self@.len()),
                result@.len() == self@.len(),
                forall|i: int|
                    0 <= i < self@.len() ==> result@[i] == stage_lane(
                        CompareExchange::Swap,
                        self@,
                        ops@.take(k as int),
                        i,
                    ),
            decreases ops@.len() - k,
        {
            let n1: usize = ops[k].0;
            let n2: usize = ops[k].1;
            assert(ops@[k as int].in_range(self@.len()));
            if self.lanes[n1].key <= self.lanes[n2].key {
                result.lanes.set(n1, self.lanes[n1]);
                result.lanes.set(n2, self.lanes[n2]);
            } else {
                result.lanes.set(n1, self.lanes[n2]);
                result.lanes.set(n2, self.lanes[n1]);
            }
            assert(ops@.take(k + 1).drop_last() == ops@.take(k as int));
            k = k + 1;
        }
        proof {
            assert(ops@.take(k as int) == ops@);
            assert(result@ == stage_result(CompareExchange::Swap, self@, ops@));
            lemma_stage_in_parallel(CompareExchange::Swap, self@, ops@);
            if forall|k: int|
                0 <= k < ops@.len() ==> self@[(#[trigger] ops@[k]).0 as int].key
                    <= self@[ops@[k].1 as int].key {
                lemma_swap_keeps_ordered_pairs(self@, ops@);
            }
            if ops_disjoint(ops@) {
                lemma_swap_permutes(self@, ops@);
            }
        }
        result
    }

    /// Runs one stage of shift operators and returns the new vector. An
    /// operator whose first lane is valid leaves both lanes alone; otherwise
    /// it moves the second lane into the first slot and fills the second slot
    /// with the penalty placeholder, dropping what the first slot held.
    pub fn shift(&self, ops: &Vec<LaneSwap>) -> (result: LaneArray)
        requires
            ops_in_range(ops@, self@.len()),
        ensures
            result@ == stage_result(CompareExchange::Shift, self@, ops@),
            result@.len() == self@.len(),
            forall|i: int|
                0 <= i < self@.len() && !ops_touch(ops@, i) ==> #[trigger] result@[i] == self@[i],
            ops_disjoint(ops@) ==> forall|k: int|
                0 <= k < ops@.len() ==> result@[(#[trigger] ops@[k]).0 as int] == exchanged(
                    CompareExchange::Shift,
                    self@,
                    ops@[k],
                    ops@[k].0 as int,
                ) && result@[ops@[k].1 as int] == exchanged(
                    CompareExchange::Shift,
                    self@,
                    ops@[k],
                    ops@[k].1 as int,
                ),
            ops_disjoint(ops@) ==> valid_count(result@) <= valid_count(self@),
            ops_disjoint(ops@) ==> valid_count(result@) == valid_count(self@),
    {
        let mut result = self.duplicate();
        let mut k: usize = 0;
        while k < ops.len()
            invariant
                k <= ops@.len(),
                ops_in_range(ops@, self@.len()),
                result@.len() == self@.len(),
                forall|i: int|
                    0 <= i < self@.len() ==> result@[i] == stage_lane(
                        CompareExchange::Shift,
                        self@,
                        ops@.take(k as int),
                        i,
                    ),
            decreases ops@.len() - k,
        {
            let n1: usize = ops[k].0;
            let n2: usize = ops[k].1;
            assert(ops@[k as int].in_range(self@.len()));
            if self.lanes[n1].key < PENALTY {
                result.lanes.set(n1, self.lanes[n1]);
                result.lanes.set(n2, self.lanes[n2]);
            } else {
                result.lanes.set(n1, self.lanes[n2]);
                result.lanes.set(n2, Lane { key: PENALTY, meta: PENALTY });
            }
            assert(ops@.take(k + 1).drop_last() == ops@.take(k as int));
            k = k + 1;
        }
        proof {
            assert(ops@.take(k as int) == ops@);
            assert(result@ == stage_result(CompareExchange::Shift, self@, ops@));
            lemma_stage_in_parallel(CompareExchange::Shift, self@, ops@);
            if ops_disjoint(ops@) {
                lemma_shift_keeps_valid_count(self@, ops@);
            }
        }
        result
    }
}

} // verus!
