//! One frame of the pipeline: presence, pose smoothing, gesture state and
//! the force field, advanced together by a single synchronous step.

use vstd::prelude::*;
use crate::fixed::{FX_ONE, FX_BOUND, tdiv, mul_div, lemma_tdiv_bound};
use crate::vec3::{Vec3x, v3_bounded};
use crate::config::{PipelineConfig, cfg_wf};
use crate::packet::{FramePacket, Side, packet_wf, spec_find_hand, find_hand, lemma_find_hand_wf};
use crate::presence::{Presence, presence_wf, spec_observe, spec_visible};
use crate::pose::{
    TrackedPoints, points_wf, spec_point_index, spec_side_of, spec_id_of, spec_point_after,
    spec_point_target, spec_start_point, depth_offset, update_points,
};
use crate::packet::find_landmark;
use crate::gesture::{spec_palm_normal, palm_normal};
use crate::force::{BodyState, BodyForce, HandData, hd_wf, spec_body_total, aggregate_forces};

verus! {

/// The persistent state of the pipeline: the 42 tracked points and the
/// per-side presence stamps, owned from startup to shutdown.
pub struct PipelineState {
    pub points: TrackedPoints,
    pub presence: Presence,
}

/// Both parts of the state are well-formed.
pub open spec fn state_wf(s: PipelineState) -> bool {
    points_wf(s.points) && presence_wf(s.presence)
}

impl PipelineState {
    /// The startup state: every point off-scene, nothing seen yet.
    pub fn new() -> (r: PipelineState)
        ensures
            state_wf(r),
            forall|i: int| 0 <= i < 42 ==> r.points.pts@[i] == spec_start_point(),
            r.presence.last_seen_right == 0,
            r.presence.last_seen_left == 0,
    {
        PipelineState { points: TrackedPoints::new(), presence: Presence::new() }
    }
}

/// The per-frame smoothing fraction: the smoothing rate times the frame
/// time, clamped to the unit interval so a frame-time spike can never
/// overshoot a target.
pub open spec fn spec_smooth_t(rate: i64, dt: i64) -> int {
    let raw = tdiv(rate * dt, FX_ONE as int);
    if raw < 0 {
        0
    } else if raw > FX_ONE {
        FX_ONE as int
    } else {
        raw
    }
}

/// Computes the clamped per-frame smoothing fraction.
pub fn smooth_factor(rate: i64, dt: i64) -> (r: i64)
    requires
        0 <= rate <= 1_000_000_000,
        0 <= dt <= FX_BOUND,
    ensures
        r == spec_smooth_t(rate, dt),
        0 <= r <= FX_ONE,
{
    proof {
        assert(0 <= (rate as int) * (dt as int) <= 1000000000000000000000) by (nonlinear_arith)
            requires
                0 <= rate as int <= 1000000000,
                0 <= dt as int <= 1000000000000,
        ;
        lemma_tdiv_bound((rate as int) * (dt as int), FX_ONE as int, 1000000000000000000000);
    }
    let raw: i64 = mul_div(rate, dt, FX_ONE);
    if raw < 0 {
        0
    } else if raw > FX_ONE {
        FX_ONE
    } else {
        raw
    }
}

/// What one frame derives for one hand: the gesture label when the side
/// is present, the smoothed centre when the centre point was updated this
/// frame, and the palm normal when its three landmarks are present.
pub open spec fn spec_hand_data(
    pts_after: Seq<Vec3x>,
    packet: FramePacket,
    side: Side,
    cfg: PipelineConfig,
) -> HandData {
    match spec_find_hand(packet.hands@, side) {
        Some(h) => HandData {
            gesture: Some(h.gesture),
            center: match spec_point_target(h, 9, cfg) {
                Some(_) => Some(pts_after[spec_point_index(side, 9)]),
                None => None,
            },
            normal: spec_palm_normal(h, side),
        },
        None => HandData { gesture: None, center: None, normal: None },
    }
}

/// Derives the per-hand frame data from the packet and the points as the
/// pose mapper left them.
pub fn extract_hand_data(
    points: &TrackedPoints,
    packet: &FramePacket,
    side: Side,
    cfg: &PipelineConfig,
) -> (r: HandData)
    requires
        points_wf(*points),
        packet_wf(*packet),
        cfg_wf(*cfg),
    ensures
        r == spec_hand_data(points.pts@, *packet, side, *cfg),
        hd_wf(r),
{
    proof {
        lemma_find_hand_wf(packet.hands@, side);
    }
    match find_hand(packet, side) {
        Some(h) => {
            let center: Option<Vec3x> = match depth_offset(h, cfg) {
                Some(_) => match find_landmark(h, 9) {
                    Some(_) => Some(points.get(side, 9)),
                    None => None,
                },
                None => None,
            };
            let normal = palm_normal(h, side);
            HandData { gesture: Some(h.gesture), center, normal }
        },
        None => HandData { gesture: None, center: None, normal: None },
    }
}

/// What one frame hands back to the collaborators: the force to set on
/// each body (absent when no packet arrived, so prior forces stand), the
/// one-shot spawn request, and the per-side visibility flags.
pub struct FrameOutput {
    pub forces: Option<Vec<BodyForce>>,
    pub spawn: bool,
    pub show_right: bool,
    pub show_left: bool,
}

/// Advances the pipeline by one frame.
///
/// With a packet: presence is stamped, every tracked point of a present
/// side is smoothed toward its target, the gesture state is derived from
/// the packet and the updated points, a force is computed for every body,
/// and the spawn flag is passed through.  Without one: nothing changes
/// and no forces are issued; only the visibility flags are reported.
pub fn step_frame(
    state: &mut PipelineState,
    packet: Option<&FramePacket>,
    now: i64,
    dt: i64,
    bodies: &Vec<BodyState>,
    cfg: &PipelineConfig,
) -> (out: FrameOutput)
    requires
        state_wf(*old(state)),
        cfg_wf(*cfg),
        match packet {
            Some(p) => packet_wf(*p),
            None => true,
        },
        0 <= now <= FX_BOUND,
        0 <= dt <= FX_BOUND,
        forall|i: int| 0 <= i < bodies@.len() ==> v3_bounded(#[trigger] bodies@[i].pos),
    ensures
        state_wf(*final(state)),
        match packet {
            None => {
                &&& *final(state) == *old(state)
                &&& out.forces is None
                &&& out.spawn == false
            },
            Some(p) => {
                let t = spec_smooth_t(cfg.smooth_rate, dt);
                let hr = spec_hand_data(final(state).points.pts@, *p, Side::Right, *cfg);
                let hl = spec_hand_data(final(state).points.pts@, *p, Side::Left, *cfg);
                &&& final(state).presence == spec_observe(old(state).presence, *p, now as int)
                &&& forall|i: int|
                    0 <= i < 42 ==> final(state).points.pts@[i] == spec_point_after(
                        old(state).points.pts@[i],
                        *p,
                        spec_side_of(i),
                        spec_id_of(i),
                        t,
                        *cfg,
                    )
                &&& out.spawn == p.snap
                &&& out.forces is Some
                &&& out.forces->0@.len() == bodies@.len()
                &&& forall|i: int|
                    0 <= i < bodies@.len() ==> #[trigger] out.forces->0@[i] == (BodyForce {
                        id: bodies@[i].id,
                        force: spec_body_total(hr, hl, bodies@[i].pos, *cfg),
                    })
            },
        },
        out.show_right == spec_visible(
            final(state).presence,
            Side::Right,
            now as int,
            cfg.fade_timeout as int,
        ),
        out.show_left == spec_visible(
            final(state).presence,
            Side::Left,
            now as int,
            cfg.fade_timeout as int,
        ),
{
    match packet {
        None => {
            let show_right = state.presence.visible(Side::Right, now, cfg.fade_timeout);
            let show_left = state.presence.visible(Side::Left, now, cfg.fade_timeout);
            FrameOutput { forces: None, spawn: false, show_right, show_left }
        },
        Some(p) => {
            state.presence.observe(p, now);
            let t = smooth_factor(cfg.smooth_rate, dt);
            update_points(&mut state.points, p, t, cfg);
            let hr = extract_hand_data(&state.points, p, Side::Right, cfg);
            let hl = extract_hand_data(&state.points, p, Side::Left, cfg);
            let forces = aggregate_forces(&hr, &hl, bodies, cfg);
            let show_right = state.presence.visible(Side::Right, now, cfg.fade_timeout);
            let show_left = state.presence.visible(Side::Left, now, cfg.fade_timeout);
            FrameOutput { forces: Some(forces), spawn: p.snap, show_right, show_left }
        },
    }
}

} // verus!
