use bitonic::catalogue::{
    batcher8_network, bitonic4a_network, bitonic4b_network, bitonic8a_network, bitonic8b_network,
    bubble8_network, pairwise8_network, transpose3s_network, transpose5s_network,
    transpose6s_network, transpose8_network, transpose8s_network,
};
use bitonic::exchange::sw;
use bitonic::exhaustive::{classify, run_exhaustive_check, run_trial, Classification};
use bitonic::lane::{LaneArrayType, PENALTY};
use bitonic::network::{Network, Stage};

#[test]
fn classify_ranks_a_sorting_error_first() {
    assert_eq!(classify(1, 0), Classification::SortingError);
    assert_eq!(classify(1, 1), Classification::SortingError);
    assert_eq!(classify(u128::MAX, 7), Classification::SortingError);
}

#[test]
fn classify_reports_lost_order_when_keys_are_fine() {
    assert_eq!(classify(0, 1), Classification::OrderNotPreserved);
    assert_eq!(classify(0, u128::MAX), Classification::OrderNotPreserved);
}

#[test]
fn classify_passes_when_nothing_failed() {
    assert_eq!(classify(0, 0), Classification::AllPassed);
}

#[test]
fn every_mask_is_tried_in_both_modes() {
    let report = run_exhaustive_check(&bitonic4a_network(), 4, "bitonic4a");
    assert_eq!(report.trials, 2 * 16);
    let report = run_exhaustive_check(&transpose3s_network(), 3, "transpose3s");
    assert_eq!(report.trials, 2 * 8);
    let report = run_exhaustive_check(&transpose5s_network(), 5, "transpose5s");
    assert_eq!(report.trials, 2 * 32);
    let report = run_exhaustive_check(&transpose6s_network(), 6, "transpose6s");
    assert_eq!(report.trials, 2 * 64);
    let report = run_exhaustive_check(&bubble8_network(), 8, "bubble8");
    assert_eq!(report.trials, 2 * 256);
}

#[test]
fn the_label_is_handed_back() {
    let report = run_exhaustive_check(&bitonic4b_network(), 4, "bubble8\t");
    assert_eq!(report.label, "bubble8\t");
    let report = run_exhaustive_check(&bitonic4b_network(), 4, "");
    assert_eq!(report.label, "");
}

#[test]
fn bitonic_networks_of_four_do_not_preserve_order() {
    let report = run_exhaustive_check(&bitonic4a_network(), 4, "bitonic4a");
    assert_eq!(report.classification, Classification::OrderNotPreserved);
    assert_eq!((report.err_key, report.err_meta), (0, 2));
    assert!(report.key_failures.is_empty());
    let report = run_exhaustive_check(&bitonic4b_network(), 4, "bitonic4b");
    assert_eq!(report.classification, Classification::OrderNotPreserved);
    assert_eq!((report.err_key, report.err_meta), (0, 1));
}

#[test]
fn swap_networks_of_eight_sort_but_most_lose_order() {
    let report = run_exhaustive_check(&bitonic8a_network(), 8, "bitonic8a");
    assert_eq!(report.classification, Classification::OrderNotPreserved);
    assert_eq!((report.trials, report.err_key, report.err_meta), (512, 0, 124));
    let report = run_exhaustive_check(&bitonic8b_network(), 8, "bitonic8b");
    assert_eq!(report.classification, Classification::OrderNotPreserved);
    assert_eq!((report.trials, report.err_key, report.err_meta), (512, 0, 125));
    let report = run_exhaustive_check(&batcher8_network(), 8, "batcher8");
    assert_eq!(report.classification, Classification::OrderNotPreserved);
    assert_eq!((report.trials, report.err_key, report.err_meta), (512, 0, 132));
    let report = run_exhaustive_check(&pairwise8_network(), 8, "pairwise8");
    assert_eq!(report.classification, Classification::OrderNotPreserved);
    assert_eq!((report.trials, report.err_key, report.err_meta), (512, 0, 164));
}

#[test]
fn transposition_and_shift_networks_pass() {
    let passing = [
        (bubble8_network(), 8u8),
        (transpose8_network(), 8),
        (transpose8s_network(), 8),
        (transpose3s_network(), 3),
        (transpose5s_network(), 5),
        (transpose6s_network(), 6),
    ];
    for (network, len) in passing.iter() {
        let report = run_exhaustive_check(network, *len, "passing");
        assert_eq!(report.classification, Classification::AllPassed);
        assert_eq!((report.err_key, report.err_meta), (0, 0));
        assert!(report.key_failures.is_empty());
    }
}

#[test]
fn a_network_without_stages_is_a_sorting_error() {
    let network = Network { arity: 2, stages: vec![] };
    let report = run_exhaustive_check(&network, 2, "identity");
    assert_eq!(report.classification, Classification::SortingError);
    assert_eq!(report.trials, 8);
    assert_eq!(report.err_key, 2);
    assert_eq!(report.err_meta, 2);
    assert_eq!(
        report.key_failures,
        vec![LaneArrayType::Simple(0b01), LaneArrayType::Hidden(0b01)]
    );
}

#[test]
fn enumeration_goes_on_after_a_failure() {
    let network = Network { arity: 3, stages: vec![Stage::swaps(vec![sw(0, 1)])] };
    let report = run_exhaustive_check(&network, 3, "too shallow");
    assert_eq!(report.classification, Classification::SortingError);
    assert_eq!(report.trials, 16);
    assert_eq!(report.err_key, 6);
    assert_eq!(report.err_meta, 6);
    assert_eq!(
        report.key_failures,
        vec![
            LaneArrayType::Simple(0b001),
            LaneArrayType::Hidden(0b001),
            LaneArrayType::Simple(0b010),
            LaneArrayType::Hidden(0b010),
            LaneArrayType::Simple(0b011),
            LaneArrayType::Hidden(0b011),
        ]
    );
}

#[test]
fn key_failures_can_be_replayed() {
    let network = Network { arity: 3, stages: vec![Stage::swaps(vec![sw(0, 1)])] };
    let report = run_exhaustive_check(&network, 3, "too shallow");
    assert_eq!(report.err_key, report.key_failures.len() as u128);
    for typ in report.key_failures.iter() {
        let trial = run_trial(&network, 3, typ);
        assert!(!trial.key_sorted);
    }
    let trial = run_trial(&network, 3, &LaneArrayType::Simple(0b011));
    let keys: Vec<u64> = trial.output.lanes.iter().map(|lane| lane.key).collect();
    assert_eq!(keys, vec![PENALTY, PENALTY, 2]);
}

#[test]
fn a_sorting_error_outranks_lost_order() {
    let network = Network { arity: 4, stages: vec![Stage::swaps(vec![sw(0, 3), sw(1, 2)])] };
    let report = run_exhaustive_check(&network, 4, "one stage");
    assert!(report.err_key > 0);
    assert!(report.err_meta > report.err_key);
    assert_eq!(report.classification, Classification::SortingError);
}

#[test]
fn no_lanes_means_one_mask_and_two_trials() {
    let network = Network { arity: 0, stages: vec![] };
    let report = run_exhaustive_check(&network, 0, "nothing");
    assert_eq!(report.trials, 2);
    assert_eq!(report.classification, Classification::AllPassed);
}

#[test]
fn a_trial_reports_input_output_and_both_predicates() {
    let trial = run_trial(&bitonic4a_network(), 4, &LaneArrayType::Simple(0b0110));
    let input: Vec<u64> = trial.input.lanes.iter().map(|lane| lane.key).collect();
    let output: Vec<u64> = trial.output.lanes.iter().map(|lane| lane.key).collect();
    assert_eq!(input, vec![0, 256, 256, 3]);
    assert_eq!(output, vec![0, 3, 256, 256]);
    assert!(trial.key_sorted);
    assert!(trial.meta_sorted);
}
