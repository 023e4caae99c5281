//! The pose mapper: normalized sensor landmarks become world-space targets
//! through a depth-compensation heuristic, and each tracked hand point is
//! exponentially smoothed toward its target, never overshooting.

use vstd::prelude::*;
use crate::fixed::{
    FX_ONE, FX_BOUND, fx_bounded, fx_abs, tdiv, mul_div, sqrt_floor, isqrt,
    lemma_sqrt_floor_exists, lemma_sqrt_floor_unique, lemma_tdiv_bound, lerp1, lemma_step_within,
    lemma_smoothing_monotone, lemma_smoothing_strict,
};
use crate::vec3::{Vec3x, v3_bounded};
use crate::config::{PipelineConfig, cfg_wf};
use crate::packet::{
    Landmark, HandObservation, FramePacket, Side, lm_bounded, obs_wf, packet_wf, spec_find_lm,
    spec_find_hand, find_landmark, find_hand, lemma_find_hand_wf, lemma_find_lm_bounded,
};

verus! {

/// Half of a normalized sensor unit: the image-space centre.
pub const HALF_UNIT: i64 = 500_000;

/// Largest magnitude a depth offset can reach under a well-formed
/// configuration and in-range landmarks.
pub const DEPTH_LIMIT: i64 = 400_000_000_000;

/// Height every tracked point starts at, far below the floor of the scene.
pub const START_Y: i64 = -100_000_000;

/// Apparent hand size: the image-space distance between the wrist and the
/// middle-finger metacarpophalangeal joint, rounded down.
pub open spec fn spec_hand_size(w: Landmark, m: Landmark) -> int {
    sqrt_floor((w.x - m.x) * (w.x - m.x) + (w.y - m.y) * (w.y - m.y))
}

/// The depth heuristic of one hand: defined once per hand from landmarks 0
/// and 9, pushing a hand that looks small on screen away from the camera.
/// Nothing is substituted when either landmark is missing.
pub open spec fn spec_depth_offset(h: HandObservation, cfg: PipelineConfig) -> Option<i64> {
    match (spec_find_lm(h.landmarks@, 0), spec_find_lm(h.landmarks@, 9)) {
        (Some(w), Some(m)) => Some(
            (cfg.depth_base - tdiv(spec_hand_size(w, m) * cfg.depth_gain, FX_ONE as int)) as i64,
        ),
        _ => None,
    }
}

/// Where a landmark maps in world space, given the hand's depth offset.
pub open spec fn spec_world_target(lm: Landmark, depth: i64, cfg: PipelineConfig) -> Vec3x {
    Vec3x {
        x: tdiv((lm.x - HALF_UNIT) * cfg.scale, FX_ONE as int) as i64,
        y: (tdiv((HALF_UNIT - lm.y) * cfg.scale, FX_ONE as int) + cfg.y_offset) as i64,
        z: (depth + tdiv(lm.z * cfg.scale, FX_ONE as int)) as i64,
    }
}

/// Every component of a world target stays in range: the raw quotients fit
/// the scalar width, so the mapping is exact.
pub proof fn lemma_world_target_bounds(lm: Landmark, depth: i64, cfg: PipelineConfig)
    requires
        lm_bounded(lm),
        fx_abs(depth as int) <= DEPTH_LIMIT,
        cfg_wf(cfg),
    ensures
        fx_abs(tdiv((lm.x - HALF_UNIT) * cfg.scale, FX_ONE as int)) <= FX_BOUND,
        fx_abs(tdiv((HALF_UNIT - lm.y) * cfg.scale, FX_ONE as int) + cfg.y_offset) <= FX_BOUND,
        fx_abs(depth + tdiv(lm.z * cfg.scale, FX_ONE as int)) <= FX_BOUND,
{
    assert(-20100000000000000 <= (lm.x - HALF_UNIT) * cfg.scale <= 20100000000000000)
        by (nonlinear_arith)
        requires
            -100500000 <= lm.x - HALF_UNIT <= 100500000,
            0 <= cfg.scale <= 100000000,
    ;
    lemma_tdiv_bound((lm.x - HALF_UNIT) * cfg.scale, FX_ONE as int, 20100000000000000);
    assert(-20100000000000000 <= (HALF_UNIT - lm.y) * cfg.scale <= 20100000000000000)
        by (nonlinear_arith)
        requires
            -100500000 <= HALF_UNIT - lm.y <= 100500000,
            0 <= cfg.scale <= 100000000,
    ;
    lemma_tdiv_bound((HALF_UNIT - lm.y) * cfg.scale, FX_ONE as int, 20100000000000000);
    assert(-10000000000000000 <= lm.z * cfg.scale <= 10000000000000000) by (nonlinear_arith)
        requires
            -100000000 <= lm.z <= 100000000,
            0 <= cfg.scale <= 100000000,
    ;
    lemma_tdiv_bound(lm.z * cfg.scale, FX_ONE as int, 10000000000000000);
}

/// A defined depth offset stays within [`DEPTH_LIMIT`].
pub proof fn lemma_depth_offset_bounds(w: Landmark, m: Landmark, cfg: PipelineConfig)
    requires
        lm_bounded(w),
        lm_bounded(m),
        cfg_wf(cfg),
    ensures
        0 <= spec_hand_size(w, m) <= 300_000_000,
        fx_abs(
            cfg.depth_base - tdiv(spec_hand_size(w, m) * cfg.depth_gain, FX_ONE as int),
        ) <= DEPTH_LIMIT,
{
    let dx = w.x - m.x;
    let dy = w.y - m.y;
    assert(0 <= dx * dx + dy * dy <= 81000000000000000) by (nonlinear_arith)
        requires
            -201000000 <= dx <= 201000000,
            -201000000 <= dy <= 201000000,
    ;
    let s = dx * dx + dy * dy;
    lemma_sqrt_floor_exists(s);
    let hs = sqrt_floor(s);
    if hs > 300_000_000 {
        assert(hs * hs > 81000000000000000) by (nonlinear_arith)
            requires
                hs > 300000000,
        ;
        assert(false);
    }
    assert(0 <= hs * cfg.depth_gain <= 300000000000000000) by (nonlinear_arith)
        requires
            0 <= hs <= 300000000,
            0 <= cfg.depth_gain <= 1000000000,
    ;
    lemma_tdiv_bound(hs * cfg.depth_gain, FX_ONE as int, 300000000000000000);
}

/// Computes the depth offset of one hand, or nothing when the wrist or the
/// middle metacarpophalangeal landmark is missing.
pub fn depth_offset(h: &HandObservation, cfg: &PipelineConfig) -> (r: Option<i64>)
    requires
        obs_wf(*h),
        cfg_wf(*cfg),
    ensures
        r == spec_depth_offset(*h, *cfg),
        match r {
            Some(d) => fx_abs(d as int) <= DEPTH_LIMIT,
            None => true,
        },
{
    let w_opt = find_landmark(h, 0);
    let m_opt = find_landmark(h, 9);
    proof {
        lemma_find_lm_bounded(h.landmarks@, 0);
        lemma_find_lm_bounded(h.landmarks@, 9);
    }
    match (w_opt, m_opt) {
        (Some(w), Some(m)) => {
            proof {
                lemma_depth_offset_bounds(w, m, *cfg);
            }
            let dx: i64 = w.x - m.x;
            let dy: i64 = w.y - m.y;
            proof {
                assert(0 <= (dx as int) * (dx as int) <= 40402000000000000) by (nonlinear_arith)
                    requires
                        -201000000 <= dx as int <= 201000000,
                ;
                assert(0 <= (dy as int) * (dy as int) <= 40402000000000000) by (nonlinear_arith)
                    requires
                        -201000000 <= dy as int <= 201000000,
                ;
            }
            let sq: u128 = ((dx as i128) * (dx as i128) + (dy as i128) * (dy as i128)) as u128;
            let hs: u64 = isqrt(sq);
            proof {
                lemma_sqrt_floor_unique(sq as int, hs as int);
            }
            let scaled: i64 = mul_div(hs as i64, cfg.depth_gain, FX_ONE);
            Some(cfg.depth_base - scaled)
        },
        _ => None,
    }
}

/// Maps one landmark to its world-space target position.
pub fn world_target(lm: Landmark, depth: i64, cfg: &PipelineConfig) -> (r: Vec3x)
    requires
        lm_bounded(lm),
        fx_abs(depth as int) <= DEPTH_LIMIT,
        cfg_wf(*cfg),
    ensures
        r == spec_world_target(lm, depth, *cfg),
        v3_bounded(r),
{
    proof {
        lemma_world_target_bounds(lm, depth, *cfg);
    }
    let x: i64 = mul_div(lm.x - HALF_UNIT, cfg.scale, FX_ONE);
    let y: i64 = mul_div(HALF_UNIT - lm.y, cfg.scale, FX_ONE) + cfg.y_offset;
    let z: i64 = depth + mul_div(lm.z, cfg.scale, FX_ONE);
    Vec3x { x, y, z }
}

/// The world target of one tracked point, if the packet defines one: the
/// hand's depth offset and the point's own landmark must both be present.
pub open spec fn spec_point_target(h: HandObservation, id: int, cfg: PipelineConfig) -> Option<
    Vec3x,
> {
    match spec_depth_offset(h, cfg) {
        Some(depth) => match spec_find_lm(h.landmarks@, id) {
            Some(lm) => Some(spec_world_target(lm, depth, cfg)),
            None => None,
        },
        None => None,
    }
}

/// Componentwise smoothing step of a point toward a target.
pub open spec fn spec_lerp_v(p: Vec3x, tgt: Vec3x, t: int) -> Vec3x {
    Vec3x {
        x: lerp1(p.x as int, tgt.x as int, t) as i64,
        y: lerp1(p.y as int, tgt.y as int, t) as i64,
        z: lerp1(p.z as int, tgt.z as int, t) as i64,
    }
}

/// Where one tracked point stands after one frame: smoothed toward its
/// target when the packet defines one, frozen in place otherwise.
pub open spec fn spec_point_after(
    p: Vec3x,
    packet: FramePacket,
    side: Side,
    id: int,
    t: int,
    cfg: PipelineConfig,
) -> Vec3x {
    match spec_find_hand(packet.hands@, side) {
        Some(h) => match spec_point_target(h, id, cfg) {
            Some(tgt) => spec_lerp_v(p, tgt, t),
            None => p,
        },
        None => p,
    }
}

/// Advances one tracked point by one frame.
pub fn step_point(
    p: Vec3x,
    packet: &FramePacket,
    side: Side,
    id: usize,
    t: i64,
    cfg: &PipelineConfig,
) -> (r: Vec3x)
    requires
        v3_bounded(p),
        packet_wf(*packet),
        cfg_wf(*cfg),
        0 <= t <= FX_ONE,
    ensures
        r == spec_point_after(p, *packet, side, id as int, t as int, *cfg),
        v3_bounded(r),
{
    proof {
        lemma_find_hand_wf(packet.hands@, side);
    }
    match find_hand(packet, side) {
        Some(h) => {
            match depth_offset(h, cfg) {
                Some(d) => {
                    proof {
                        lemma_find_lm_bounded(h.landmarks@, id as int);
                    }
                    match find_landmark(h, id) {
                        Some(lm) => {
                            let tgt = world_target(lm, d, cfg);
                            p.lerp(tgt, t)
                        },
                        None => p,
                    }
                },
                None => p,
            }
        },
        None => p,
    }
}

/// The 42 tracked hand points, one per (side, landmark id), created once
/// at startup and never destroyed; each always holds a defined position.
pub struct TrackedPoints {
    pub pts: Vec<Vec3x>,
}

/// The point of (side, id) sits at a fixed index: the right hand first.
pub open spec fn spec_point_index(side: Side, id: int) -> int {
    match side {
        Side::Right => id,
        Side::Left => 21 + id,
    }
}

/// The side a flat index belongs to.
pub open spec fn spec_side_of(i: int) -> Side {
    if i < 21 {
        Side::Right
    } else {
        Side::Left
    }
}

/// The landmark id a flat index belongs to.
pub open spec fn spec_id_of(i: int) -> int {
    if i < 21 {
        i
    } else {
        i - 21
    }
}

/// All 42 points are present and in range.
pub open spec fn points_wf(tp: TrackedPoints) -> bool {
    tp.pts@.len() == 42 && forall|i: int| 0 <= i < 42 ==> v3_bounded(#[trigger] tp.pts@[i])
}

/// The position every point starts at: off-scene, far below the floor.
pub open spec fn spec_start_point() -> Vec3x {
    Vec3x { x: 0i64, y: START_Y, z: 0i64 }
}

impl TrackedPoints {
    /// Creates the 42 points, all off-scene until first observed.
    pub fn new() -> (r: TrackedPoints)
        ensures
            points_wf(r),
            forall|i: int| 0 <= i < 42 ==> r.pts@[i] == spec_start_point(),
    {
        let mut pts: Vec<Vec3x> = Vec::new();
        let mut i: usize = 0;
        while i < 42
            invariant
                i <= 42,
                pts@.len() == i,
                forall|j: int| 0 <= j < i ==> pts@[j] == spec_start_point(),
            decreases 42 - i,
        {
            pts.push(Vec3x { x: 0, y: START_Y, z: 0 });
            i = i + 1;
        }
        TrackedPoints { pts }
    }

    /// The current smoothed position of one point.
    pub fn get(&self, side: Side, id: usize) -> (r: Vec3x)
        requires
            points_wf(*self),
            id < 21,
        ensures
            r == self.pts@[spec_point_index(side, id as int)],
    {
        let index: usize = match side {
            Side::Right => id,
            Side::Left => 21 + id,
        };
        self.pts[index]
    }
}

/// Advances all 42 tracked points by one frame: each point of a side
/// present in the packet is smoothed toward its target, every other point
/// keeps its prior position.
pub fn update_points(tp: &mut TrackedPoints, packet: &FramePacket, t: i64, cfg: &PipelineConfig)
    requires
        points_wf(*old(tp)),
        packet_wf(*packet),
        cfg_wf(*cfg),
        0 <= t <= FX_ONE,
    ensures
        points_wf(*final(tp)),
        forall|i: int|
            0 <= i < 42 ==> final(tp).pts@[i] == spec_point_after(
                old(tp).pts@[i],
                *packet,
                spec_side_of(i),
                spec_id_of(i),
                t as int,
                *cfg,
            ),
{
    let mut i: usize = 0;
    while i < 42
        invariant
            i <= 42,
            tp.pts@.len() == 42,
            packet_wf(*packet),
            cfg_wf(*cfg),
            0 <= t <= FX_ONE,
            points_wf(*old(tp)),
            forall|j: int| 0 <= j < 42 ==> v3_bounded(#[trigger] tp.pts@[j]),
            forall|j: int|
                0 <= j < i ==> tp.pts@[j] == spec_point_after(
                    old(tp).pts@[j],
                    *packet,
                    spec_side_of(j),
                    spec_id_of(j),
                    t as int,
                    *cfg,
                ),
            forall|j: int| i <= j < 42 ==> tp.pts@[j] == old(tp).pts@[j],
        decreases 42 - i,
    {
        let side: Side = if i < 21 {
            Side::Right
        } else {
            Side::Left
        };
        let id: usize = if i < 21 {
            i
        } else {
            i - 21
        };
        let cur: Vec3x = tp.pts[i];
        let nv: Vec3x = step_point(cur, packet, side, id, t, cfg);
        tp.pts[i] = nv;
        i = i + 1;
    }
}

/// Law: for every packet, one update leaves each tracked point within the
/// componentwise interval spanned by its prior position and its target —
/// the smoothing step never overshoots — and leaves a point without a
/// target exactly in place.
pub proof fn lemma_point_no_overshoot(
    p: Vec3x,
    packet: FramePacket,
    side: Side,
    id: int,
    t: int,
    cfg: PipelineConfig,
)
    requires
        v3_bounded(p),
        packet_wf(packet),
        cfg_wf(cfg),
        0 <= t <= FX_ONE,
    ensures
        match spec_find_hand(packet.hands@, side) {
            Some(h) => match spec_point_target(h, id, cfg) {
                Some(tgt) => {
                    let r = spec_point_after(p, packet, side, id, t, cfg);
                    &&& (p.x <= tgt.x ==> p.x <= r.x <= tgt.x)
                    &&& (tgt.x <= p.x ==> tgt.x <= r.x <= p.x)
                    &&& (p.y <= tgt.y ==> p.y <= r.y <= tgt.y)
                    &&& (tgt.y <= p.y ==> tgt.y <= r.y <= p.y)
                    &&& (p.z <= tgt.z ==> p.z <= r.z <= tgt.z)
                    &&& (tgt.z <= p.z ==> tgt.z <= r.z <= p.z)
                },
                None => spec_point_after(p, packet, side, id, t, cfg) == p,
            },
            None => spec_point_after(p, packet, side, id, t, cfg) == p,
        },
{
    lemma_find_hand_wf(packet.hands@, side);
    match spec_find_hand(packet.hands@, side) {
        Some(h) => {
            lemma_find_lm_bounded(h.landmarks@, 0);
            lemma_find_lm_bounded(h.landmarks@, 9);
            lemma_find_lm_bounded(h.landmarks@, id);
            match spec_point_target(h, id, cfg) {
                Some(tgt) => {
                    let w = spec_find_lm(h.landmarks@, 0)->Some_0;
                    let m = spec_find_lm(h.landmarks@, 9)->Some_0;
                    let lm = spec_find_lm(h.landmarks@, id)->Some_0;
                    let depth = spec_depth_offset(h, cfg)->Some_0;
                    lemma_depth_offset_bounds(w, m, cfg);
                    lemma_world_target_bounds(lm, depth, cfg);
                    lemma_step_within(tgt.x - p.x, t, FX_ONE as int);
                    lemma_step_within(tgt.y - p.y, t, FX_ONE as int);
                    lemma_step_within(tgt.z - p.z, t, FX_ONE as int);
                },
                None => {},
            }
        },
        None => {},
    }
}

/// Law: feeding the identical packet on two successive frames moves every
/// updated point no farther from its target on the second frame than the
/// first left it, componentwise, and strictly closer in every component
/// whose remaining distance is still above the resolution of the step;
/// a point without a target is left exactly in place.
pub proof fn lemma_point_convergence(
    p: Vec3x,
    packet: FramePacket,
    side: Side,
    id: int,
    t: int,
    cfg: PipelineConfig,
)
    requires
        v3_bounded(p),
        packet_wf(packet),
        cfg_wf(cfg),
        0 <= t <= FX_ONE,
    ensures
        match spec_find_hand(packet.hands@, side) {
            Some(h) => match spec_point_target(h, id, cfg) {
                Some(tgt) => {
                    let p1 = spec_point_after(p, packet, side, id, t, cfg);
                    let p2 = spec_point_after(p1, packet, side, id, t, cfg);
                    &&& fx_abs(tgt.x - p2.x) <= fx_abs(tgt.x - p1.x)
                    &&& fx_abs(tgt.y - p2.y) <= fx_abs(tgt.y - p1.y)
                    &&& fx_abs(tgt.z - p2.z) <= fx_abs(tgt.z - p1.z)
                    &&& fx_abs(tgt.x - p1.x) * t >= FX_ONE ==> fx_abs(tgt.x - p2.x) < fx_abs(
                        tgt.x - p1.x,
                    )
                    &&& fx_abs(tgt.y - p1.y) * t >= FX_ONE ==> fx_abs(tgt.y - p2.y) < fx_abs(
                        tgt.y - p1.y,
                    )
                    &&& fx_abs(tgt.z - p1.z) * t >= FX_ONE ==> fx_abs(tgt.z - p2.z) < fx_abs(
                        tgt.z - p1.z,
                    )
                },
                None => spec_point_after(p, packet, side, id, t, cfg) == p,
            },
            None => spec_point_after(p, packet, side, id, t, cfg) == p,
        },
{
    lemma_find_hand_wf(packet.hands@, side);
    match spec_find_hand(packet.hands@, side) {
        Some(h) => {
            lemma_find_lm_bounded(h.landmarks@, 0);
            lemma_find_lm_bounded(h.landmarks@, 9);
            lemma_find_lm_bounded(h.landmarks@, id);
            match spec_point_target(h, id, cfg) {
                Some(tgt) => {
                    let w = spec_find_lm(h.landmarks@, 0)->Some_0;
                    let m = spec_find_lm(h.landmarks@, 9)->Some_0;
                    let lm = spec_find_lm(h.landmarks@, id)->Some_0;
                    let depth = spec_depth_offset(h, cfg)->Some_0;
                    lemma_depth_offset_bounds(w, m, cfg);
                    lemma_world_target_bounds(lm, depth, cfg);
                    assert(v3_bounded(tgt));
                    let p1 = spec_point_after(p, packet, side, id, t, cfg);
                    assert(p1.x as int == lerp1(p.x as int, tgt.x as int, t)
                        && fx_bounded(p1.x as int)) by {
                        lemma_step_within(tgt.x - p.x, t, FX_ONE as int);
                    }
                    assert(p1.y as int == lerp1(p.y as int, tgt.y as int, t)
                        && fx_bounded(p1.y as int)) by {
                        lemma_step_within(tgt.y - p.y, t, FX_ONE as int);
                    }
                    assert(p1.z as int == lerp1(p.z as int, tgt.z as int, t)
                        && fx_bounded(p1.z as int)) by {
                        lemma_step_within(tgt.z - p.z, t, FX_ONE as int);
                    }
                    let p2 = spec_point_after(p1, packet, side, id, t, cfg);
                    assert(p2.x as int == lerp1(p1.x as int, tgt.x as int, t)) by {
                        lemma_step_within(tgt.x - p1.x, t, FX_ONE as int);
                    }
                    assert(p2.y as int == lerp1(p1.y as int, tgt.y as int, t)) by {
                        lemma_step_within(tgt.y - p1.y, t, FX_ONE as int);
                    }
                    assert(p2.z as int == lerp1(p1.z as int, tgt.z as int, t)) by {
                        lemma_step_within(tgt.z - p1.z, t, FX_ONE as int);
                    }
                    lemma_smoothing_monotone(p1.x as int, tgt.x as int, t);
                    lemma_smoothing_monotone(p1.y as int, tgt.y as int, t);
                    lemma_smoothing_monotone(p1.z as int, tgt.z as int, t);
                    if fx_abs(tgt.x - p1.x) * t >= FX_ONE {
                        lemma_smoothing_strict(p1.x as int, tgt.x as int, t);
                    }
                    if fx_abs(tgt.y - p1.y) * t >= FX_ONE {
                        lemma_smoothing_strict(p1.y as int, tgt.y as int, t);
                    }
                    if fx_abs(tgt.z - p1.z) * t >= FX_ONE {
                        lemma_smoothing_strict(p1.z as int, tgt.z as int, t);
                    }
                },
                None => {},
            }
        },
        None => {},
    }
}

} // verus!
