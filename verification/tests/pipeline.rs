//! Scenario tests of the frame pipeline: smoothing, presence fade, force
//! zeroing, wind activation, the end-to-end attraction formula, and the
//! snap trigger.

use handfield::config::PipelineConfig;
use handfield::force::{BodyForce, BodyState, HandData, aggregate_forces, wind_vec};
use handfield::frame::{PipelineState, smooth_factor, step_frame};
use handfield::gesture::{hand_gesture, palm_normal};
use handfield::packet::{FramePacket, Gesture, HandObservation, Landmark, Side, latest_packet};
use handfield::presence::Presence;
use handfield::render::skeleton_segments;
use handfield::vec3::Vec3x;

fn lm(id: usize, x: i64, y: i64, z: i64) -> Landmark {
    Landmark { id, x, y, z }
}

fn hand(side: Side, landmarks: Vec<Landmark>, gesture: Gesture) -> HandObservation {
    HandObservation { side, landmarks, gesture }
}

/// A right hand whose wrist sits at the image centre and whose middle
/// knuckle sits 0.1 above it: depth offset 12, centre target (0, 5, 12).
fn right_hand(gesture: Gesture) -> HandObservation {
    hand(
        Side::Right,
        vec![lm(0, 500_000, 500_000, 0), lm(9, 500_000, 400_000, 0)],
        gesture,
    )
}

fn no_bodies() -> Vec<BodyState> {
    Vec::new()
}

#[test]
fn smooth_factor_scales_and_clamps() {
    assert_eq!(smooth_factor(40_000_000, 10_000), 400_000);
    assert_eq!(smooth_factor(40_000_000, 1_000_000), 1_000_000);
    assert_eq!(smooth_factor(40_000_000, 0), 0);
}

#[test]
fn pose_mapping_reaches_target_when_saturated() {
    let cfg = PipelineConfig::standard();
    let mut state = PipelineState::new();
    let p = FramePacket { hands: vec![right_hand(Gesture::NoGesture)], snap: false };
    // dt 0.1 s saturates the smoothing fraction, so points land on target.
    let out = step_frame(&mut state, Some(&p), 0, 100_000, &no_bodies(), &cfg);
    assert!(out.forces.is_some());
    assert_eq!(state.points.get(Side::Right, 9), Vec3x::new(0, 5_000_000, 12_000_000));
    assert_eq!(state.points.get(Side::Right, 0), Vec3x::new(0, 3_000_000, 12_000_000));
    // Landmarks absent from the packet leave their points frozen.
    assert_eq!(state.points.get(Side::Right, 5), Vec3x::new(0, -100_000_000, 0));
    assert_eq!(state.points.get(Side::Left, 9), Vec3x::new(0, -100_000_000, 0));
}

#[test]
fn smoothing_stays_between_prior_and_target() {
    let cfg = PipelineConfig::standard();
    let mut state = PipelineState::new();
    let p = FramePacket { hands: vec![right_hand(Gesture::NoGesture)], snap: false };
    // dt 0.01 s gives a smoothing fraction of 0.4.
    step_frame(&mut state, Some(&p), 0, 10_000, &no_bodies(), &cfg);
    let p1 = state.points.get(Side::Right, 9);
    assert_eq!(p1, Vec3x::new(0, -58_000_000, 4_800_000));
    assert!(-100_000_000 <= p1.y && p1.y <= 5_000_000);
    assert!(0 <= p1.z && p1.z <= 12_000_000);
}

#[test]
fn repeated_packet_converges_monotonically() {
    let cfg = PipelineConfig::standard();
    let mut state = PipelineState::new();
    let p = FramePacket { hands: vec![right_hand(Gesture::NoGesture)], snap: false };
    step_frame(&mut state, Some(&p), 0, 10_000, &no_bodies(), &cfg);
    let p1 = state.points.get(Side::Right, 9);
    step_frame(&mut state, Some(&p), 10_000, 10_000, &no_bodies(), &cfg);
    let p2 = state.points.get(Side::Right, 9);
    assert_eq!(p2, Vec3x::new(0, -32_800_000, 7_680_000));
    let tgt = Vec3x::new(0, 5_000_000, 12_000_000);
    assert!((tgt.y - p2.y).abs() < (tgt.y - p1.y).abs());
    assert!((tgt.z - p2.z).abs() < (tgt.z - p1.z).abs());
}

#[test]
fn presence_fades_after_timeout_and_returns() {
    let cfg = PipelineConfig::standard();
    let mut state = PipelineState::new();
    let with_right = FramePacket {
        hands: vec![hand(Side::Right, Vec::new(), Gesture::NoGesture)],
        snap: false,
    };
    let empty = FramePacket { hands: Vec::new(), snap: false };
    let out = step_frame(&mut state, Some(&with_right), 0, 10_000, &no_bodies(), &cfg);
    assert!(out.show_right);
    let out = step_frame(&mut state, Some(&empty), 499_999, 10_000, &no_bodies(), &cfg);
    assert!(out.show_right);
    let out = step_frame(&mut state, Some(&empty), 500_000, 10_000, &no_bodies(), &cfg);
    assert!(!out.show_right);
    let out = step_frame(&mut state, Some(&empty), 700_000, 10_000, &no_bodies(), &cfg);
    assert!(!out.show_right);
    let out = step_frame(&mut state, Some(&with_right), 800_000, 10_000, &no_bodies(), &cfg);
    assert!(out.show_right);
}

#[test]
fn visibility_boundary_is_strict() {
    let p = Presence::new();
    assert!(p.visible(Side::Right, 499_999, 500_000));
    assert!(!p.visible(Side::Right, 500_000, 500_000));
}

#[test]
fn fist_force_is_zeroed_when_gesture_ends() {
    let cfg = PipelineConfig::standard();
    let mut state = PipelineState::new();
    let bodies = vec![BodyState { id: 7, pos: Vec3x::new(0, 0, 0) }];
    let fist = FramePacket { hands: vec![right_hand(Gesture::Fist)], snap: false };
    let open = FramePacket { hands: vec![right_hand(Gesture::NoGesture)], snap: false };
    let out = step_frame(&mut state, Some(&fist), 0, 100_000, &bodies, &cfg);
    let forces = out.forces.unwrap();
    assert_eq!(forces.len(), 1);
    assert_eq!(forces[0].id, 7);
    assert_ne!(forces[0].force, Vec3x::zero());
    let out = step_frame(&mut state, Some(&open), 100_000, 100_000, &bodies, &cfg);
    let forces = out.forces.unwrap();
    assert_eq!(forces[0].force, Vec3x::zero());
}

#[test]
fn attraction_at_distance_two_is_exact() {
    let cfg = PipelineConfig::standard();
    let mut state = PipelineState::new();
    // The hand centre lands on (0, 5, 12); the body sits 2 units beyond.
    let bodies = vec![BodyState { id: 1, pos: Vec3x::new(0, 5_000_000, 14_000_000) }];
    let fist = FramePacket { hands: vec![right_hand(Gesture::Fist)], snap: false };
    let out = step_frame(&mut state, Some(&fist), 0, 100_000, &bodies, &cfg);
    let forces = out.forces.unwrap();
    // Magnitude 50000 / max(2^2, 1) = 12500, directed from body to centre.
    assert_eq!(forces[0].force, Vec3x::new(0, 0, -12_500_000_000));
}

#[test]
fn wind_blows_uniformly_at_close_alignment() {
    let cfg = PipelineConfig::standard();
    let hr = HandData {
        gesture: Some(Gesture::OpenPalm),
        center: None,
        normal: Some(Vec3x::new(1_000_000, 0, 0)),
    };
    // 45 degrees apart: dot 0.707107 is above the 0.5 threshold.
    let hl = HandData {
        gesture: Some(Gesture::OpenPalm),
        center: None,
        normal: Some(Vec3x::new(707_107, 707_107, 0)),
    };
    let bodies = vec![
        BodyState { id: 1, pos: Vec3x::new(0, 0, 0) },
        BodyState { id: 2, pos: Vec3x::new(9_000_000, -4_000_000, 3_000_000) },
    ];
    let forces = aggregate_forces(&hr, &hl, &bodies, &cfg);
    assert_eq!(forces.len(), 2);
    assert_ne!(forces[0].force, Vec3x::zero());
    // The wind ignores the body position entirely.
    assert_eq!(forces[0].force, forces[1].force);
    let expected = wind_vec(
        Vec3x::new(1_000_000, 0, 0),
        Vec3x::new(707_107, 707_107, 0),
        cfg.wind_strength,
    );
    assert_eq!(forces[0].force, expected);
    assert!(forces[0].force.x > 0 && forces[0].force.y > 0 && forces[0].force.z == 0);
}

#[test]
fn wind_stays_off_at_wide_alignment() {
    let cfg = PipelineConfig::standard();
    let hr = HandData {
        gesture: Some(Gesture::OpenPalm),
        center: None,
        normal: Some(Vec3x::new(1_000_000, 0, 0)),
    };
    // 70 degrees apart: dot 0.342020 is below the 0.5 threshold.
    let hl = HandData {
        gesture: Some(Gesture::OpenPalm),
        center: None,
        normal: Some(Vec3x::new(342_020, 939_693, 0)),
    };
    let bodies = vec![BodyState { id: 1, pos: Vec3x::new(0, 0, 0) }];
    let forces = aggregate_forces(&hr, &hl, &bodies, &cfg);
    assert_eq!(forces[0].force, Vec3x::zero());
}

#[test]
fn snap_requests_exactly_one_spawn() {
    let cfg = PipelineConfig::standard();
    let mut state = PipelineState::new();
    let bodies = vec![BodyState { id: 3, pos: Vec3x::new(0, 0, 0) }];
    let snap = FramePacket { hands: Vec::new(), snap: true };
    let out = step_frame(&mut state, Some(&snap), 0, 10_000, &bodies, &cfg);
    assert!(out.spawn);
    // No hands: no point moves, and every force is set to zero.
    assert_eq!(state.points.get(Side::Right, 9), Vec3x::new(0, -100_000_000, 0));
    assert_eq!(out.forces.unwrap()[0], BodyForce { id: 3, force: Vec3x::zero() });
    let plain = FramePacket { hands: Vec::new(), snap: false };
    let out = step_frame(&mut state, Some(&plain), 10_000, 10_000, &bodies, &cfg);
    assert!(!out.spawn);
}

#[test]
fn missing_frame_changes_nothing_and_sets_no_force() {
    let cfg = PipelineConfig::standard();
    let mut state = PipelineState::new();
    let bodies = vec![BodyState { id: 3, pos: Vec3x::new(0, 0, 0) }];
    let out = step_frame(&mut state, None, 0, 10_000, &bodies, &cfg);
    assert!(out.forces.is_none());
    assert!(!out.spawn);
    assert_eq!(state.points.get(Side::Right, 9), Vec3x::new(0, -100_000_000, 0));
}

#[test]
fn latest_packet_keeps_the_freshest_decode() {
    let a = FramePacket { hands: Vec::new(), snap: false };
    let b = FramePacket { hands: Vec::new(), snap: true };
    let r = latest_packet(vec![None, Some(a), Some(b), None]);
    assert!(r.unwrap().snap);
    assert!(latest_packet(vec![None, None]).is_none());
    assert!(latest_packet(Vec::new()).is_none());
}

#[test]
fn duplicate_side_first_observation_wins() {
    let p = FramePacket {
        hands: vec![
            hand(Side::Right, Vec::new(), Gesture::Fist),
            hand(Side::Right, Vec::new(), Gesture::OpenPalm),
        ],
        snap: false,
    };
    assert_eq!(hand_gesture(&p, Side::Right), Some(Gesture::Fist));
    assert_eq!(hand_gesture(&p, Side::Left), None);
}

#[test]
fn missing_wrist_skips_the_whole_hand() {
    let cfg = PipelineConfig::standard();
    let mut state = PipelineState::new();
    // Landmark 9 alone: no depth offset, so no point of the hand moves,
    // and a fist without a derivable centre exerts nothing.
    let p = FramePacket {
        hands: vec![hand(Side::Right, vec![lm(9, 500_000, 400_000, 0)], Gesture::Fist)],
        snap: false,
    };
    let bodies = vec![BodyState { id: 1, pos: Vec3x::new(0, 0, 0) }];
    let out = step_frame(&mut state, Some(&p), 0, 100_000, &bodies, &cfg);
    assert_eq!(state.points.get(Side::Right, 9), Vec3x::new(0, -100_000_000, 0));
    assert_eq!(out.forces.unwrap()[0].force, Vec3x::zero());
}

#[test]
fn palm_normal_points_along_the_palm() {
    let h = hand(
        Side::Right,
        vec![
            lm(0, 500_000, 500_000, 0),
            lm(5, 600_000, 500_000, 0),
            lm(17, 500_000, 600_000, 0),
        ],
        Gesture::OpenPalm,
    );
    assert_eq!(palm_normal(&h, Side::Right), Some(Vec3x::new(0, 0, -1_000_000)));
    let h_left = hand(
        Side::Left,
        vec![
            lm(0, 500_000, 500_000, 0),
            lm(5, 600_000, 500_000, 0),
            lm(17, 500_000, 600_000, 0),
        ],
        Gesture::OpenPalm,
    );
    assert_eq!(palm_normal(&h_left, Side::Left), Some(Vec3x::new(0, 0, 1_000_000)));
    // Degenerate geometry collapses to the zero normal, not to an error.
    let flat = hand(
        Side::Right,
        vec![
            lm(0, 500_000, 500_000, 0),
            lm(5, 600_000, 500_000, 0),
            lm(17, 700_000, 500_000, 0),
        ],
        Gesture::OpenPalm,
    );
    assert_eq!(palm_normal(&flat, Side::Right), Some(Vec3x::zero()));
    // A missing landmark leaves the normal undefined.
    let partial = hand(Side::Right, vec![lm(0, 500_000, 500_000, 0)], Gesture::OpenPalm);
    assert_eq!(palm_normal(&partial, Side::Right), None);
}

#[test]
fn skeleton_appears_once_points_are_on_scene() {
    let cfg = PipelineConfig::standard();
    let mut state = PipelineState::new();
    assert_eq!(skeleton_segments(&state.points, Side::Right).len(), 0);
    let mut lms: Vec<Landmark> = Vec::new();
    for id in 0..21 {
        lms.push(lm(id, 500_000, 500_000, 0));
    }
    let p = FramePacket { hands: vec![hand(Side::Right, lms, Gesture::NoGesture)], snap: false };
    step_frame(&mut state, Some(&p), 0, 100_000, &no_bodies(), &cfg);
    assert_eq!(skeleton_segments(&state.points, Side::Right).len(), 21);
    assert_eq!(skeleton_segments(&state.points, Side::Left).len(), 0);
}

#[test]
fn standard_config_holds_the_documented_tuning() {
    let cfg = PipelineConfig::standard();
    assert_eq!(cfg.scale, 20_000_000);
    assert_eq!(cfg.y_offset, 3_000_000);
    assert_eq!(cfg.depth_base, 20_000_000);
    assert_eq!(cfg.depth_gain, 80_000_000);
    assert_eq!(cfg.smooth_rate, 40_000_000);
    assert_eq!(cfg.fade_timeout, 500_000);
    assert_eq!(cfg.attract_strength, 50_000_000_000);
    assert_eq!(cfg.wind_strength, 1_500_000_000);
    assert_eq!(cfg.wind_dot_min, 500_000);
}
