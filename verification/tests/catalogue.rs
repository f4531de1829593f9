use bitonic::catalogue::{
    batcher8, batcher8_network, bitonic4a, bitonic4a_network, bitonic4b, bitonic4b_network,
    bitonic8a, bitonic8a_network, bitonic8b, bitonic8b_network, bubble8, bubble8_network,
    pairwise8, pairwise8_network, transpose3s, transpose3s_network, transpose5s,
    transpose5s_network, transpose6s, transpose6s_network, transpose8, transpose8_network,
    transpose8s, transpose8s_network,
};
use bitonic::exchange::{sw, CompareExchange};
use bitonic::exhaustive::{classify, run_trial, Classification};
use bitonic::lane::{Lane, LaneArrayType, PENALTY};
use bitonic::lane_array::LaneArray;
use bitonic::network::{apply_network, Network};

fn keys(array: &LaneArray) -> Vec<u64> {
    array.lanes.iter().map(|lane| lane.key).collect()
}

fn metas(array: &LaneArray) -> Vec<u64> {
    array.lanes.iter().map(|lane| lane.meta).collect()
}

fn array_of_keys(keys: &[u64]) -> LaneArray {
    LaneArray {
        lanes: keys.iter().enumerate().map(|(i, &key)| Lane { key, meta: i as u64 }).collect(),
    }
}

fn all_networks() -> Vec<Network> {
    vec![
        bitonic4a_network(),
        bitonic4b_network(),
        bitonic8a_network(),
        bitonic8b_network(),
        batcher8_network(),
        bubble8_network(),
        pairwise8_network(),
        transpose8_network(),
        transpose8s_network(),
        transpose3s_network(),
        transpose5s_network(),
        transpose6s_network(),
    ]
}

fn disjoint(network: &Network) -> bool {
    network.stages.iter().all(|stage| {
        let mut seen = vec![false; network.arity];
        stage.ops.iter().all(|op| {
            let fresh = op.0 != op.1 && !seen[op.0] && !seen[op.1];
            seen[op.0] = true;
            seen[op.1] = true;
            fresh
        })
    })
}

#[test]
fn catalogue_arities_and_depths() {
    let shape: Vec<(usize, usize)> =
        all_networks().iter().map(|network| (network.arity, network.stages.len())).collect();
    assert_eq!(
        shape,
        vec![
            (4, 3),
            (4, 3),
            (8, 6),
            (8, 6),
            (8, 6),
            (8, 13),
            (8, 6),
            (8, 8),
            (8, 8),
            (3, 3),
            (5, 5),
            (6, 6)
        ]
    );
}

#[test]
fn catalogue_networks_are_valid() {
    for network in all_networks().iter() {
        assert!(network.is_well_formed());
        assert!(network.is_valid());
        assert!(disjoint(network));
    }
}

#[test]
fn catalogue_semantics_are_uniform_per_network() {
    let kinds: Vec<CompareExchange> = all_networks()
        .iter()
        .map(|network| {
            let kind = network.stages[0].kind;
            assert!(network.stages.iter().all(|stage| stage.kind == kind));
            kind
        })
        .collect();
    let swap = CompareExchange::Swap;
    let shift = CompareExchange::Shift;
    assert_eq!(
        kinds,
        vec![swap, swap, swap, swap, swap, shift, swap, swap, shift, shift, shift, shift]
    );
}

#[test]
fn bitonic4a_stages_are_the_classic_formulation() {
    let network = bitonic4a_network();
    assert_eq!(network.stages[0].ops, vec![sw(0, 1), sw(3, 2)]);
    assert_eq!(network.stages[1].ops, vec![sw(0, 2), sw(1, 3)]);
    assert_eq!(network.stages[2].ops, vec![sw(0, 1), sw(2, 3)]);
}

#[test]
fn bubble8_stages_widen_and_narrow() {
    let widths: Vec<usize> =
        bubble8_network().stages.iter().map(|stage| stage.ops.len()).collect();
    assert_eq!(widths, vec![1, 1, 2, 2, 3, 3, 4, 3, 3, 2, 2, 1, 1]);
    assert_eq!(bubble8_network().stages[6].ops, vec![sw(0, 1), sw(2, 3), sw(4, 5), sw(6, 7)]);
    assert_eq!(bubble8_network().stages[7].ops, vec![sw(1, 2), sw(3, 4), sw(5, 6)]);
}

#[test]
fn running_a_topology_is_applying_its_network() {
    let v4 = array_of_keys(&[3, 1, 2, 0]);
    assert_eq!(bitonic4a(&v4), apply_network(&bitonic4a_network(), &v4));
    assert_eq!(bitonic4b(&v4), apply_network(&bitonic4b_network(), &v4));
    let v8 = array_of_keys(&[7, 300, 5, 1, 256, 1, 0, 4]);
    assert_eq!(bitonic8a(&v8), apply_network(&bitonic8a_network(), &v8));
    assert_eq!(bitonic8b(&v8), apply_network(&bitonic8b_network(), &v8));
    assert_eq!(batcher8(&v8), apply_network(&batcher8_network(), &v8));
    assert_eq!(bubble8(&v8), apply_network(&bubble8_network(), &v8));
    assert_eq!(pairwise8(&v8), apply_network(&pairwise8_network(), &v8));
    assert_eq!(transpose8(&v8), apply_network(&transpose8_network(), &v8));
    assert_eq!(transpose8s(&v8), apply_network(&transpose8s_network(), &v8));
    let v3 = array_of_keys(&[256, 1, 2]);
    assert_eq!(transpose3s(&v3), apply_network(&transpose3s_network(), &v3));
    let v5 = array_of_keys(&[256, 1, 256, 3, 4]);
    assert_eq!(transpose5s(&v5), apply_network(&transpose5s_network(), &v5));
    let v6 = array_of_keys(&[256, 1, 256, 3, 4, 256]);
    assert_eq!(transpose6s(&v6), apply_network(&transpose6s_network(), &v6));
}

#[test]
fn bitonic4_sorts_the_all_enabled_simple_vector() {
    let input = LaneArray::new(4, &LaneArrayType::Simple(0b0000));
    for out in [bitonic4a(&input), bitonic4b(&input)] {
        assert_eq!(keys(&out), vec![0, 1, 2, 3]);
        assert_eq!(metas(&out), vec![0, 1, 2, 3]);
        assert!(out.is_sorted_key());
        assert!(out.is_sorted_meta());
    }
    let trial = run_trial(&bitonic4a_network(), 4, &LaneArrayType::Simple(0b0000));
    assert_eq!(keys(&trial.output), vec![0, 1, 2, 3]);
    let err_key = u128::from(!trial.key_sorted);
    let err_meta = u128::from(!trial.meta_sorted);
    assert_eq!(classify(err_key, err_meta), Classification::AllPassed);
}

#[test]
fn bitonic4_keeps_tied_lanes_in_place() {
    let input = LaneArray::new(4, &LaneArrayType::Hidden(0b0000));
    assert_eq!(keys(&input), vec![0, 0, 0, 0]);
    for out in [bitonic4a(&input), bitonic4b(&input)] {
        assert_eq!(keys(&out), vec![0, 0, 0, 0]);
        assert!(out.is_sorted_key());
        assert_eq!(metas(&out), vec![0, 1, 2, 3]);
        assert!(out.is_sorted_meta());
    }
}

#[test]
fn bitonic4a_breaks_the_tie_against_lane_order() {
    let trial = run_trial(&bitonic4a_network(), 4, &LaneArrayType::Hidden(0b0001));
    assert_eq!(keys(&trial.input), vec![PENALTY, 0, 0, 0]);
    assert_eq!(keys(&trial.output), vec![0, 0, 0, PENALTY]);
    assert_eq!(metas(&trial.output), vec![1, 3, 2, PENALTY]);
    assert!(trial.key_sorted);
    assert!(!trial.meta_sorted);
    let err_key = u128::from(!trial.key_sorted);
    let err_meta = u128::from(!trial.meta_sorted);
    assert_eq!(classify(err_key, err_meta), Classification::OrderNotPreserved);
}

#[test]
fn bitonic4b_breaks_the_tie_against_lane_order() {
    let out = bitonic4b(&LaneArray::new(4, &LaneArrayType::Hidden(0b0011)));
    assert_eq!(keys(&out), vec![0, 0, PENALTY, PENALTY]);
    assert_eq!(metas(&out), vec![3, 2, PENALTY, PENALTY]);
}

#[test]
fn saturated_vector_passes_every_network_of_four() {
    let input = LaneArray::new(4, &LaneArrayType::Simple(0b1111));
    for out in [bitonic4a(&input), bitonic4b(&input)] {
        assert_eq!(out.lanes, vec![Lane { key: PENALTY, meta: PENALTY }; 4]);
        assert!(out.is_sorted_key());
        assert!(out.is_sorted_meta());
    }
}

#[test]
fn swap_networks_of_eight_sort_arbitrary_keys() {
    let inputs: [[u64; 8]; 4] = [
        [7, 6, 5, 4, 3, 2, 1, 0],
        [3, 300, 3, 0, 256, 1, 1, 9],
        [0, 0, 0, 0, 0, 0, 0, 0],
        [5, 1, 4, 1, 5, 9, 2, 6],
    ];
    for input in inputs.iter() {
        let v = array_of_keys(input);
        let mut sorted = input.to_vec();
        sorted.sort();
        for out in [bitonic8a(&v), bitonic8b(&v), batcher8(&v), pairwise8(&v), transpose8(&v)] {
            assert_eq!(keys(&out), sorted);
        }
    }
}

#[test]
fn transpose8_is_stable() {
    let v = array_of_keys(&[2, 1, 2, 1, 2, 1, 2, 1]);
    let out = transpose8(&v);
    assert_eq!(keys(&out), vec![1, 1, 1, 1, 2, 2, 2, 2]);
    assert_eq!(metas(&out), vec![1, 3, 5, 7, 0, 2, 4, 6]);
}

#[test]
fn shift_compaction_packs_enabled_lanes_in_order() {
    let mask: u64 = 0b0010_1001;
    let input = LaneArray::new(8, &LaneArrayType::Simple(mask));
    assert_eq!(keys(&input), vec![256, 1, 2, 256, 4, 256, 6, 7]);
    for out in [transpose8s(&input), bubble8(&input)] {
        assert_eq!(keys(&out), vec![1, 2, 4, 6, 7, 256, 256, 256]);
        assert_eq!(metas(&out), vec![1, 2, 4, 6, 7, 256, 256, 256]);
        let valid = out.lanes.iter().filter(|lane| lane.key < PENALTY).count();
        assert_eq!(valid, 8 - mask.count_ones() as usize);
    }
    let hidden = LaneArray::new(8, &LaneArrayType::Hidden(0b1000_0110));
    let out = bubble8(&hidden);
    assert_eq!(keys(&out), vec![0, 0, 0, 0, 0, 256, 256, 256]);
    assert_eq!(metas(&out), vec![0, 3, 4, 5, 6, 256, 256, 256]);
}

#[test]
fn shift_compaction_holds_for_every_mask_with_three_disabled_lanes() {
    let mut masks_seen = 0;
    for mask in 0u64..256 {
        if mask.count_ones() != 3 {
            continue;
        }
        masks_seen += 1;
        let enabled: Vec<u64> = (0..8).filter(|i| mask & (1 << i) == 0).collect();
        let mut expected = enabled.clone();
        expected.extend([PENALTY; 3]);
        let input = LaneArray::new(8, &LaneArrayType::Simple(mask));
        for out in [transpose8s(&input), bubble8(&input)] {
            assert_eq!(keys(&out), expected);
            assert_eq!(metas(&out), expected);
            assert!(out.lanes[..5].iter().all(|lane| lane.key < PENALTY));
            assert!(out.lanes[5..].iter().all(|lane| lane.key == PENALTY));
        }
    }
    assert_eq!(masks_seen, 56);
}

#[test]
fn small_shift_networks_compact() {
    let out = transpose3s(&LaneArray::new(3, &LaneArrayType::Simple(0b011)));
    assert_eq!(keys(&out), vec![2, 256, 256]);
    let out = transpose5s(&LaneArray::new(5, &LaneArrayType::Simple(0b01101)));
    assert_eq!(keys(&out), vec![1, 4, 256, 256, 256]);
    let out = transpose6s(&LaneArray::new(6, &LaneArrayType::Hidden(0b011110)));
    assert_eq!(keys(&out), vec![0, 0, 256, 256, 256, 256]);
    assert_eq!(metas(&out), vec![0, 5, 256, 256, 256, 256]);
}

#[test]
fn networks_keep_the_number_of_valid_lanes() {
    for network in all_networks().iter() {
        let len = network.arity as u8;
        for mask in [0u64, 0b1, 0b101, 0b110, 0b10110, 0b11111111] {
            let trial = run_trial(network, len, &LaneArrayType::Hidden(mask));
            let before = trial.input.lanes.iter().filter(|lane| lane.key < PENALTY).count();
            let after = trial.output.lanes.iter().filter(|lane| lane.key < PENALTY).count();
            assert_eq!(before, after);
        }
    }
}
