//! The exhaustive check: a network is run on every enable mask under both
//! addressing modes, and classified by what came out unsorted.

use vstd::prelude::*;
use vstd::arithmetic::power2::{
    lemma2_to64, lemma2_to64_rest, lemma_pow2_strictly_increases, lemma_pow2_unfold, pow2,
};
use crate::exchange::{sorted_by_key, sorted_by_meta};
use crate::lane::LaneArrayType;
use crate::lane_array::{initial_lanes, LaneArray};
use crate::network::{apply_network, Network, NetworkSpec};

verus! {

/// The verdict on a network. Correctness and stability are separate
/// properties; a sorting error outranks a stability violation.
#[derive(Clone, Copy, Debug, PartialEq, Eq, Structural)]
pub enum Classification {
    /// Some trial left the keys out of order.
    SortingError,
    /// The keys always came out in order, but some trial left the tags out of
    /// order.
    OrderNotPreserved,
    /// Keys and tags came out in order in every trial.
    AllPassed,
}

/// One run of a network on one initial vector.
#[derive(Clone, Debug, PartialEq, Eq)]
pub struct Trial {
    pub input: LaneArray,
    pub output: LaneArray,
    pub key_sorted: bool,
    pub meta_sorted: bool,
}

/// The outcome of an exhaustive check.
#[derive(Clone, Debug, PartialEq, Eq)]
pub struct CheckReport {
    /// The label that the caller gave the network.
    pub label: String,
    pub classification: Classification,
    /// The number of trials that were run.
    pub trials: u128,
    /// The number of trials whose output was not sorted by key.
    pub err_key: u128,
    /// The number of trials whose output was not sorted by tag.
    pub err_meta: u128,
    /// The addressing modes of the trials counted in `err_key`, in the order
    /// in which they were run.
    pub key_failures: Vec<LaneArrayType>,
}

/// The verdict that follows from the two failure counts.
pub open spec fn classification_of(err_key: nat, err_meta: nat) -> Classification {
    if err_key > 0 {
        Classification::SortingError
    } else if err_meta > 0 {
        Classification::OrderNotPreserved
    } else {
        Classification::AllPassed
    }
}

/// The trials of an exhaustive check over the masks below `masks`, in the
/// order in which they run: each mask in turn, `Simple` before `Hidden`.
pub open spec fn trial_types(masks: nat) -> Seq<LaneArrayType> {
    Seq::new(
        2 * masks,
        |t: int|
            if t % 2 == 0 {
                LaneArrayType::Simple((t / 2) as u64)
            } else {
                LaneArrayType::Hidden((t / 2) as u64)
            },
    )
}

/// The addressing mode is one of the trials of an exhaustive check on `len`
/// lanes: `Simple` or `Hidden`, with a mask below 2^`len`.
pub open spec fn is_trial(typ: LaneArrayType, len: u8) -> bool {
    match typ {
        LaneArrayType::Simple(mask) => mask < pow2(len as nat),
        LaneArrayType::Hidden(mask) => mask < pow2(len as nat),
        LaneArrayType::Empty => false,
    }
}

/// The trials on which the network leaves the keys out of order.
pub open spec fn key_failure(network: NetworkSpec, len: u8) -> spec_fn(LaneArrayType) -> bool {
    |typ: LaneArrayType| !sorted_by_key(network.apply(initial_lanes(len, typ)))
}

/// The trials on which the network leaves the tags out of order.
pub open spec fn meta_failure(network: NetworkSpec, len: u8) -> spec_fn(LaneArrayType) -> bool {
    |typ: LaneArrayType| !sorted_by_meta(network.apply(initial_lanes(len, typ)))
}

/// The verdict on a network for vectors of `len` lanes, over all 2^`len`
/// masks and both addressing modes.
pub open spec fn exhaustive_classification(network: NetworkSpec, len: u8) -> Classification {
    if exists|typ: LaneArrayType| is_trial(typ, len) && #[trigger] key_failure(network, len)(typ) {
        Classification::SortingError
    } else if exists|typ: LaneArrayType|
        is_trial(typ, len) && #[trigger] meta_failure(network, len)(typ) {
        Classification::OrderNotPreserved
    } else {
        Classification::AllPassed
    }
}

/// Derives the verdict from the two failure counts: a key failure makes a
/// sorting error whatever the tags did; failing that, a tag failure means that
/// order was not preserved.
pub fn classify(err_key: u128, err_meta: u128) -> (classification: Classification)
    ensures
        classification == classification_of(err_key as nat, err_meta as nat),
{
    if err_key > 0 {
        Classification::SortingError
    } else if err_meta > 0 {
        Classification::OrderNotPreserved
    } else {
        Classification::AllPassed
    }
}

/// Runs the network once, on the initial vector of the given addressing mode,
/// and evaluates both sortedness predicates on the output.
pub fn run_trial(network: &Network, len: u8, typ: &LaneArrayType) -> (trial: Trial)
    requires
        network@.well_formed(),
        len as nat == network@.arity,
    ensures
        trial.input@ == initial_lanes(len, *typ),
        trial.output@ == network@.apply(initial_lanes(len, *typ)),
        trial.key_sorted == sorted_by_key(trial.output@),
        trial.meta_sorted == sorted_by_meta(trial.output@),
{
    let input = LaneArray::new(len, typ);
    let output = apply_network(network, &input);
    let key_sorted = output.is_sorted_key();
    let meta_sorted = output.is_sorted_meta();
    Trial { input, output, key_sorted, meta_sorted }
}

/// The number of enable masks for `len` lanes.
fn mask_count(len: u8) -> (count: u128)
    requires
        len <= 64,
    ensures
        count == pow2(len as nat),
{
    let mut count: u128 = 1;
    let mut n: u8 = 0;
    proof {
        lemma2_to64();
    }
    while n < len
        invariant
            n <= len <= 64,
            count == pow2(n as nat),
        decreases len - n,
    {
        proof {
            lemma_pow2_unfold((n + 1) as nat);
            lemma2_to64_rest();
            if n + 1 < 64 {
                lemma_pow2_strictly_increases((n + 1) as nat, 64);
            }
        }
        count = count * 2;
        n = n + 1;
    }
    count
}

/// Adding one mask to the range adds its two trials at the end.
proof fn lemma_trial_types_step(masks: nat)
    requires
        masks < pow2(64),
    ensures
        trial_types(masks + 1) == trial_types(masks).push(
            LaneArrayType::Simple(masks as u64),
        ).push(LaneArrayType::Hidden(masks as u64)),
{
    assert(trial_types(masks + 1) =~= trial_types(masks).push(
        LaneArrayType::Simple(masks as u64),
    ).push(LaneArrayType::Hidden(masks as u64)));
}

/// A filtered sequence is empty exactly when no element passes the filter.
proof fn lemma_filter_empty<A>(s: Seq<A>, pred: spec_fn(A) -> bool)
    ensures
        s.filter(pred).len() == 0 <==> forall|i: int| 0 <= i < s.len() ==> !pred(#[trigger] s[i]),
    decreases s.len(),
{
    reveal(Seq::filter);
    if s.len() > 0 {
        lemma_filter_empty(s.drop_last(), pred);
        if s.filter(pred).len() == 0 {
            assert forall|i: int| 0 <= i < s.len() implies !pred(#[trigger] s[i]) by {
                if i < s.len() - 1 {
                    assert(s.drop_last()[i] == s[i]);
                }
            }
        } else {
            if !pred(s.last()) {
                let shorter = s.drop_last();
                let i = choose|i: int| 0 <= i < shorter.len() && pred(#[trigger] shorter[i]);
                assert(pred(s[i]));
            }
        }
    }
}

/// The trials of an exhaustive check on `len` lanes are exactly the
/// addressing modes that `is_trial` admits.
proof fn lemma_trials_cover(len: u8, pred: spec_fn(LaneArrayType) -> bool)
    requires
        len <= 64,
    ensures
        (exists|typ: LaneArrayType| is_trial(typ, len) && #[trigger] pred(typ)) <==> trial_types(
            pow2(len as nat),
        ).filter(pred).len() > 0,
{
    let masks = pow2(len as nat);
    let s = trial_types(masks);
    lemma_filter_empty(s, pred);
    lemma2_to64_rest();
    if len < 64 {
        lemma_pow2_strictly_increases(len as nat, 64);
    }
    if exists|typ: LaneArrayType| is_trial(typ, len) && #[trigger] pred(typ) {
        let typ = choose|typ: LaneArrayType| is_trial(typ, len) && #[trigger] pred(typ);
        match typ {
            LaneArrayType::Simple(mask) => {
                assert(s[2 * mask] == typ);
            },
            LaneArrayType::Hidden(mask) => {
                assert(s[2 * mask + 1] == typ);
            },
            LaneArrayType::Empty => {},
        }
    }
    if s.filter(pred).len() > 0 {
        let i = choose|i: int| 0 <= i < s.len() && pred(#[trigger] s[i]);
        assert(is_trial(s[i], len));
    }
}

/// Checks a network exhaustively. For every mask below 2^`len` the network is
/// run on the `Simple` and on the `Hidden` vector of that mask, and both
/// sortedness predicates are evaluated on each output. No failure ends the
/// enumeration: every trial is run and counted.
pub fn run_exhaustive_check(network: &Network, len: u8, label: &str) -> (report: CheckReport)
    requires
        network@.well_formed(),
        len as nat == network@.arity,
        len <= 64,
    ensures
        report.label@ == label@,
        report.trials == 2 * pow2(len as nat),
        report.key_failures@ == trial_types(pow2(len as nat)).filter(key_failure(network@, len)),
        report.err_key == report.key_failures@.len(),
        report.err_meta == trial_types(pow2(len as nat)).filter(
            meta_failure(network@, len),
        ).len(),
        report.classification == classification_of(report.err_key as nat, report.err_meta as nat),
        report.classification == exhaustive_classification(network@, len),
{
    let total: u128 = mask_count(len);
    let mut mask: u128 = 0;
    let mut trials: u128 = 0;
    let mut err_key: u128 = 0;
    let mut err_meta: u128 = 0;
    let mut key_failures: Vec<LaneArrayType> = Vec::new();
    proof {
        lemma2_to64_rest();
        if len < 64 {
            lemma_pow2_strictly_increases(len as nat, 64);
        }
        reveal(Seq::filter);
        assert(trial_types(0) =~= Seq::empty());
    }
    while mask < total
        invariant
            mask <= total,
            total == pow2(len as nat),
            total <= 0x1_0000_0000_0000_0000,
            pow2(64) == 0x1_0000_0000_0000_0000,
            network@.well_formed(),
            len as nat == network@.arity,
            trials == 2 * mask,
            key_failures@ == trial_types(mask as nat).filter(key_failure(network@, len)),
            err_key == key_failures@.len(),
            err_meta == trial_types(mask as nat).filter(meta_failure(network@, len)).len(),
        decreases total - mask,
    {
        let m: u64 = mask as u64;
        let simple = LaneArrayType::Simple(m);
        let hidden = LaneArrayType::Hidden(m);
        proof {
            let before = trial_types(mask as nat);
            lemma_trial_types_step(mask as nat);
            before.lemma_filter_len(key_failure(network@, len));
            before.lemma_filter_len(meta_failure(network@, len));
            before.lemma_filter_push(simple, key_failure(network@, len));
            before.lemma_filter_push(simple, meta_failure(network@, len));
            before.push(simple).lemma_filter_push(hidden, key_failure(network@, len));
            before.push(simple).lemma_filter_push(hidden, meta_failure(network@, len));
        }
        let first = run_trial(network, len, &simple);
        if !first.key_sorted {
            key_failures.push(simple);
            err_key = err_key + 1;
        }
        if !first.meta_sorted {
            err_meta = err_meta + 1;
        }
        let second = run_trial(network, len, &hidden);
        if !second.key_sorted {
            key_failures.push(hidden);
            err_key = err_key + 1;
        }
        if !second.meta_sorted {
            err_meta = err_meta + 1;
        }
        trials = trials + 2;
        mask = mask + 1;
    }
    proof {
        lemma_trials_cover(len, key_failure(network@, len));
        lemma_trials_cover(len, meta_failure(network@, len));
    }
    CheckReport {
        label: label.to_owned(),
        classification: classify(err_key, err_meta),
        trials,
        err_key,
        err_meta,
        key_failures,
    }
}

} // verus!
