//! The orientation and gesture extractor: a palm normal from three
//! landmarks, and the gesture label read verbatim from the observation.

use vstd::prelude::*;
use crate::fixed::{FX_ONE, fx_abs};
use crate::vec3::{Vec3x, spec_cross, spec_normalize, lemma_cross_bounded};
use crate::packet::{
    Landmark, HandObservation, FramePacket, Side, Gesture, obs_wf, spec_find_lm, spec_find_hand,
    find_landmark, find_hand, lemma_find_lm_bounded,
};

verus! {

/// The gesture label of the side's observation, if the side is present;
/// consumed as-is, with no smoothing or hysteresis.
pub open spec fn spec_hand_gesture(packet: FramePacket, side: Side) -> Option<Gesture> {
    match spec_find_hand(packet.hands@, side) {
        Some(h) => Some(h.gesture),
        None => None,
    }
}

/// Reads the gesture label of one side out of the packet.
pub fn hand_gesture(packet: &FramePacket, side: Side) -> (r: Option<Gesture>)
    ensures
        r == spec_hand_gesture(*packet, side),
{
    match find_hand(packet, side) {
        Some(h) => Some(h.gesture),
        None => None,
    }
}

/// Edge vector from the wrist to a metacarpophalangeal joint, in the
/// y-flipped convention of the world mapping.
pub open spec fn spec_edge(w: Landmark, e: Landmark) -> Vec3x {
    Vec3x { x: (e.x - w.x) as i64, y: (w.y - e.y) as i64, z: (e.z - w.z) as i64 }
}

/// The palm normal of one observation: the cross product of the
/// wrist-to-index and wrist-to-pinky edges (order reversed for the left
/// side, keeping the normal outward), normalized or zero when degenerate,
/// with the vertical component negated to undo the mapping's flip.
/// Undefined while any of landmarks 0, 5 and 17 is missing.
pub open spec fn spec_palm_normal(h: HandObservation, side: Side) -> Option<Vec3x> {
    match (
        spec_find_lm(h.landmarks@, 0),
        spec_find_lm(h.landmarks@, 5),
        spec_find_lm(h.landmarks@, 17),
    ) {
        (Some(w), Some(ix), Some(pk)) => {
            let to_index = spec_edge(w, ix);
            let to_pinky = spec_edge(w, pk);
            let c = if side == Side::Right {
                spec_cross(to_index, to_pinky)
            } else {
                spec_cross(to_pinky, to_index)
            };
            let n = spec_normalize(c);
            Some(Vec3x { x: n.x, y: (-(n.y as int)) as i64, z: n.z })
        },
        _ => None,
    }
}

/// Computes the palm normal of one observation.
pub fn palm_normal(h: &HandObservation, side: Side) -> (r: Option<Vec3x>)
    requires
        obs_wf(*h),
    ensures
        r == spec_palm_normal(*h, side),
        match r {
            Some(n) => fx_abs(n.x as int) <= FX_ONE && fx_abs(n.y as int) <= FX_ONE && fx_abs(
                n.z as int,
            ) <= FX_ONE,
            None => true,
        },
{
    let w_opt = find_landmark(h, 0);
    let ix_opt = find_landmark(h, 5);
    let pk_opt = find_landmark(h, 17);
    proof {
        lemma_find_lm_bounded(h.landmarks@, 0);
        lemma_find_lm_bounded(h.landmarks@, 5);
        lemma_find_lm_bounded(h.landmarks@, 17);
    }
    match (w_opt, ix_opt, pk_opt) {
        (Some(w), Some(ix), Some(pk)) => {
            let to_index = Vec3x { x: ix.x - w.x, y: w.y - ix.y, z: ix.z - w.z };
            let to_pinky = Vec3x { x: pk.x - w.x, y: w.y - pk.y, z: pk.z - w.z };
            proof {
                lemma_cross_bounded(to_index, to_pinky, 201000000);
                lemma_cross_bounded(to_pinky, to_index, 201000000);
            }
            let c: Vec3x = if side == Side::Right {
                to_index.cross(to_pinky)
            } else {
                to_pinky.cross(to_index)
            };
            let n = c.normalize_or_zero();
            Some(Vec3x { x: n.x, y: -n.y, z: n.z })
        },
        _ => None,
    }
}

} // verus!
