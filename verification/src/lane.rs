//! A single lane of the bus: an ordering key and a verification tag.

use vstd::prelude::*;
use vstd::arithmetic::div_mod::lemma_basic_div;
use vstd::arithmetic::power2::{lemma2_to64_rest, lemma_pow2_strictly_increases, pow2};
use vstd::bits::lemma_u64_shr_is_div;

verus! {

/// Key given to a disabled lane. It exceeds every lane index, which is a `u8`,
/// so a disabled lane always orders after every enabled one.
pub const PENALTY: u64 = 256;

/// How the initial contents of a lane vector are derived from an enable mask.
/// Bit `i` of the mask, when set, marks lane `i` as disabled.
#[derive(Clone, Copy, Debug, PartialEq, Eq)]
pub enum LaneArrayType {
    /// The key carries both the lane index and the penalty.
    Simple(u64),
    /// The key carries the penalty only; the lane index is visible in `meta` alone.
    Hidden(u64),
    /// Every lane is zeroed; a placeholder, never a trial input.
    Empty,
}

/// One lane: `key` is the only field that comparisons consult, `meta` travels
/// with it and records which lane the value came from.
#[derive(Clone, Copy, Debug, PartialEq, Eq, Structural)]
pub struct Lane {
    pub key: u64,
    pub meta: u64,
}

/// Whether bit `idx` of `mask` is set. Bits at position 64 and above do not
/// exist in a `u64` and count as clear.
pub open spec fn bit_is_set(mask: u64, idx: nat) -> bool {
    (mask as nat / pow2(idx)) % 2 == 1
}

/// The lane that an addressing mode puts at index `idx`.
///
/// A disabled lane is tagged `PENALTY`, an enabled one with its own index. In
/// `Simple` mode the key is the tag; in `Hidden` mode the key of an enabled
/// lane is 0, so that enabled lanes cannot be told apart by key.
pub open spec fn initial_lane(typ: LaneArrayType, idx: u8) -> Lane {
    match typ {
        LaneArrayType::Simple(mask) => {
            let tag = if bit_is_set(mask, idx as nat) { PENALTY } else { idx as u64 };
            Lane { key: tag, meta: tag }
        },
        LaneArrayType::Hidden(mask) => {
            if bit_is_set(mask, idx as nat) {
                Lane { key: PENALTY, meta: PENALTY }
            } else {
                Lane { key: 0, meta: idx as u64 }
            }
        },
        LaneArrayType::Empty => Lane { key: 0, meta: 0 },
    }
}

/// Tests one bit of an enable mask.
fn mask_bit(mask: u64, idx: u8) -> (set: bool)
    ensures
        set == bit_is_set(mask, idx as nat),
{
    if idx < 64 {
        let shift: u64 = idx as u64;
        let chk: u64 = 1u64 << shift;
        proof {
            lemma_u64_shr_is_div(mask, shift);
            assert((mask & chk > 0) == ((mask >> shift) % 2 == 1)) by (bit_vector)
                requires
                    shift < 64,
                    chk == 1u64 << shift,
            ;
        }
        mask & chk > 0
    } else {
        proof {
            lemma2_to64_rest();
            if idx > 64 {
                lemma_pow2_strictly_increases(64, idx as nat);
            }
            lemma_basic_div(mask as int, pow2(idx as nat) as int);
        }
        false
    }
}

impl Lane {
    /// Builds the lane at index `idx` for the given addressing mode.
    pub fn new(typ: &LaneArrayType, idx: u8) -> (lane: Lane)
        ensures
            lane == initial_lane(*typ, idx),
    {
        let idx64: u64 = idx as u64;
        match *typ {
            LaneArrayType::Simple(mask) => {
                let pen: u64 = if mask_bit(mask, idx) { PENALTY } else { 0 };
                let tag: u64 = if idx64 > pen { idx64 } else { pen };
                Lane { key: tag, meta: tag }
            },
            LaneArrayType::Hidden(mask) => {
                let pen: u64 = if mask_bit(mask, idx) { PENALTY } else { 0 };
                let tag: u64 = if idx64 > pen { idx64 } else { pen };
                Lane { key: pen, meta: tag }
            },
            LaneArrayType::Empty => Lane { key: 0, meta: 0 },
        }
    }

    /// Whether the lane holds a valid value, that is, one whose key is below
    /// the penalty.
    pub open spec fn is_valid(self) -> bool {
        self.key < PENALTY
    }
}

/// The placeholder that a shift leaves in a vacated slot.
pub open spec fn penalty_lane() -> Lane {
    Lane { key: PENALTY, meta: PENALTY }
}

} // verus!
