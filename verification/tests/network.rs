use bitonic::exchange::{sw, CompareExchange};
use bitonic::lane::{Lane, LaneArrayType, PENALTY};
use bitonic::lane_array::LaneArray;
use bitonic::network::{apply_network, Network, Stage};

fn array(lanes: &[(u64, u64)]) -> LaneArray {
    LaneArray { lanes: lanes.iter().map(|&(key, meta)| Lane { key, meta }).collect() }
}

fn pairs(array: &LaneArray) -> Vec<(u64, u64)> {
    array.lanes.iter().map(|lane| (lane.key, lane.meta)).collect()
}

#[test]
fn stage_constructors_set_the_semantics() {
    let stage = Stage::swaps(vec![sw(0, 1)]);
    assert_eq!(stage.kind, CompareExchange::Swap);
    assert_eq!(stage.ops, vec![sw(0, 1)]);
    let stage = Stage::shifts(vec![sw(1, 2), sw(3, 4)]);
    assert_eq!(stage.kind, CompareExchange::Shift);
    assert_eq!(stage.ops, vec![sw(1, 2), sw(3, 4)]);
}

#[test]
fn network_without_stages_returns_its_input() {
    let network = Network { arity: 3, stages: vec![] };
    assert!(network.is_well_formed());
    let v = array(&[(3, 0), (1, 1), (2, 2)]);
    assert_eq!(apply_network(&network, &v), v);
}

#[test]
fn stages_run_first_to_last() {
    let v = array(&[(3, 0), (2, 1), (1, 2)]);
    let down = Network {
        arity: 3,
        stages: vec![Stage::swaps(vec![sw(0, 1)]), Stage::swaps(vec![sw(1, 2)])],
    };
    let up = Network {
        arity: 3,
        stages: vec![Stage::swaps(vec![sw(1, 2)]), Stage::swaps(vec![sw(0, 1)])],
    };
    assert_eq!(pairs(&apply_network(&down, &v)), vec![(2, 1), (1, 2), (3, 0)]);
    assert_eq!(pairs(&apply_network(&up, &v)), vec![(1, 2), (3, 0), (2, 1)]);
}

#[test]
fn each_stage_takes_the_output_of_the_stage_before() {
    let v = array(&[(3, 0), (2, 1), (1, 2)]);
    let network = Network {
        arity: 3,
        stages: vec![
            Stage::swaps(vec![sw(0, 1)]),
            Stage::swaps(vec![sw(1, 2)]),
            Stage::swaps(vec![sw(0, 1)]),
        ],
    };
    let by_hand = v.swap(&vec![sw(0, 1)]).swap(&vec![sw(1, 2)]).swap(&vec![sw(0, 1)]);
    let out = apply_network(&network, &v);
    assert_eq!(out, by_hand);
    assert_eq!(pairs(&out), vec![(1, 2), (2, 1), (3, 0)]);
}

#[test]
fn a_network_may_mix_swaps_and_shifts() {
    let v = array(&[(PENALTY, PENALTY), (7, 1), (2, 2)]);
    let network = Network {
        arity: 3,
        stages: vec![Stage::shifts(vec![sw(0, 1)]), Stage::swaps(vec![sw(0, 2)])],
    };
    let out = apply_network(&network, &v);
    assert_eq!(pairs(&out), vec![(2, 2), (PENALTY, PENALTY), (7, 1)]);
}

#[test]
fn applying_a_network_does_not_change_its_input() {
    let v = LaneArray::new(4, &LaneArrayType::Simple(0b0001));
    let before = v.clone();
    let network = Network { arity: 4, stages: vec![Stage::swaps(vec![sw(0, 1), sw(2, 3)])] };
    let out = apply_network(&network, &v);
    assert_eq!(v, before);
    assert_ne!(out, v);
}

#[test]
fn well_formedness_is_about_indices_below_the_arity() {
    let good = Network {
        arity: 2,
        stages: vec![Stage::swaps(vec![sw(0, 1)]), Stage::shifts(vec![sw(1, 0)])],
    };
    assert!(good.is_well_formed());
    let first_too_high = Network { arity: 2, stages: vec![Stage::swaps(vec![sw(2, 1)])] };
    assert!(!first_too_high.is_well_formed());
    let second_too_high = Network {
        arity: 2,
        stages: vec![Stage::swaps(vec![sw(0, 1)]), Stage::swaps(vec![sw(0, 2)])],
    };
    assert!(!second_too_high.is_well_formed());
    let no_lanes = Network { arity: 0, stages: vec![Stage::swaps(vec![])] };
    assert!(no_lanes.is_well_formed());
    let overlapping = Network { arity: 3, stages: vec![Stage::swaps(vec![sw(0, 1), sw(1, 2)])] };
    assert!(overlapping.is_well_formed());
}

#[test]
fn validity_asks_for_distinct_and_disjoint_lanes() {
    let good = Network {
        arity: 4,
        stages: vec![Stage::swaps(vec![sw(0, 1), sw(3, 2)]), Stage::shifts(vec![sw(1, 2)])],
    };
    assert!(good.is_valid());
    let overlapping = Network { arity: 3, stages: vec![Stage::swaps(vec![sw(0, 1), sw(1, 2)])] };
    assert!(overlapping.is_well_formed());
    assert!(!overlapping.is_valid());
    let twice = Network { arity: 3, stages: vec![Stage::swaps(vec![sw(0, 1), sw(2, 0)])] };
    assert!(!twice.is_valid());
    let same_lane = Network { arity: 3, stages: vec![Stage::shifts(vec![sw(1, 1)])] };
    assert!(same_lane.is_well_formed());
    assert!(!same_lane.is_valid());
    let out_of_range = Network { arity: 3, stages: vec![Stage::shifts(vec![sw(0, 3)])] };
    assert!(!out_of_range.is_valid());
    let across_stages = Network {
        arity: 2,
        stages: vec![Stage::swaps(vec![sw(0, 1)]), Stage::swaps(vec![sw(0, 1)])],
    };
    assert!(across_stages.is_valid());
    assert!(Network { arity: 0, stages: vec![] }.is_valid());
}

#[test]
fn a_stage_is_valid_for_some_arities_only() {
    let stage = Stage::swaps(vec![sw(0, 1), sw(2, 3)]);
    assert!(stage.is_valid_for(4));
    assert!(stage.is_valid_for(9));
    assert!(!stage.is_valid_for(3));
    assert!(Stage::shifts(vec![]).is_valid_for(0));
}
