//! Simulation and exhaustive checking of fixed-topology compare-exchange
//! networks over small vectors of tagged lanes.
//!
//! A network is a list of stages, each a set of two-lane operators that run in
//! parallel, either as swaps or as shifts. The exhaustive check runs a network
//! on every enable mask under two addressing modes and tells whether it sorts
//! and whether it keeps tied lanes in their order.

pub mod lane;
pub mod exchange;
pub mod lane_array;
pub mod network;
pub mod exhaustive;
pub mod catalogue;
pub mod laws;
