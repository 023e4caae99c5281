//! The force field aggregator: the per-frame force set on every dynamic
//! body from the gesture conditions currently active — inverse-square
//! attraction toward each fist, and a uniform wind when two open palms
//! face the same way.

use vstd::prelude::*;
use vstd::arithmetic::div_mod::{
    lemma_div_pos_is_pos, lemma_div_is_ordered_by_denominator, lemma_div_by_multiple,
};
use crate::fixed::{FX_ONE, FX_BOUND, fx_abs, tdiv, lemma_step_within};
use crate::vec3::{Vec3x, v3_bounded, v3_len_sq, v3_dot, spec_normalize};
use crate::config::{PipelineConfig, cfg_wf};
use crate::packet::Gesture;

verus! {

/// One dynamic body as the physics collaborator reports it: a stable
/// identity handle and its current position.
#[derive(Clone, Copy, PartialEq, Eq, Structural, Debug)]
pub struct BodyState {
    pub id: u64,
    pub pos: Vec3x,
}

/// The force to set on one body this frame (overwrite, not accumulate).
#[derive(Clone, Copy, PartialEq, Eq, Structural, Debug)]
pub struct BodyForce {
    pub id: u64,
    pub force: Vec3x,
}

/// What the frame knows of one hand: its gesture label, the smoothed
/// centre position, and the palm normal, each defined only when the frame
/// could derive it.
#[derive(Clone, Copy, Debug)]
pub struct HandData {
    pub gesture: Option<Gesture>,
    pub center: Option<Vec3x>,
    pub normal: Option<Vec3x>,
}

/// A defined centre is in range and a defined normal is unit-scaled.
pub open spec fn hd_wf(hd: HandData) -> bool {
    &&& match hd.center {
        Some(c) => v3_bounded(c),
        None => true,
    }
    &&& match hd.normal {
        Some(n) => fx_abs(n.x as int) <= FX_ONE && fx_abs(n.y as int) <= FX_ONE && fx_abs(
            n.z as int,
        ) <= FX_ONE,
        None => true,
    }
}

/// The attraction of one fist on one body: directed from the body toward
/// the hand centre, inverse-square in the distance with a floor of one
/// world unit, so the magnitude never exceeds the configured strength.
pub open spec fn spec_attraction(center: Vec3x, body: Vec3x, strength: i64) -> Vec3x {
    let dir = Vec3x {
        x: (center.x - body.x) as i64,
        y: (center.y - body.y) as i64,
        z: (center.z - body.z) as i64,
    };
    let s = v3_len_sq(dir);
    let floor_sq = (FX_ONE as int) * (FX_ONE as int);
    let ms = if s < floor_sq {
        floor_sq
    } else {
        s
    };
    let mag = (strength * FX_ONE * FX_ONE) / ms;
    let u = spec_normalize(dir);
    Vec3x {
        x: tdiv(u.x * mag, FX_ONE as int) as i64,
        y: tdiv(u.y * mag, FX_ONE as int) as i64,
        z: tdiv(u.z * mag, FX_ONE as int) as i64,
    }
}

/// A unit component scaled by a magnitude stays within that magnitude.
proof fn lemma_scaled_unit_bound(ux: int, mag: int)
    requires
        fx_abs(ux) <= FX_ONE,
        0 <= mag <= FX_BOUND,
    ensures
        fx_abs(tdiv(ux * mag, FX_ONE as int)) <= mag,
{
    if ux >= 0 {
        assert(ux * mag == mag * ux) by (nonlinear_arith);
        lemma_step_within(mag, ux, FX_ONE as int);
    } else {
        assert(-(ux * mag) == mag * (-ux)) by (nonlinear_arith);
        lemma_step_within(mag, -ux, FX_ONE as int);
    }
}

/// Computes the attraction of one fist on one body.
pub fn attraction(center: Vec3x, body: Vec3x, strength: i64) -> (r: Vec3x)
    requires
        v3_bounded(center),
        v3_bounded(body),
        0 <= strength <= FX_BOUND,
    ensures
        r == spec_attraction(center, body, strength),
        fx_abs(r.x as int) <= strength,
        fx_abs(r.y as int) <= strength,
        fx_abs(r.z as int) <= strength,
{
    let dir = center.sub(body);
    let s: u128 = dir.len_sq();
    let floor_sq: u128 = 1_000_000_000_000;
    let msq: u128 = if s < floor_sq {
        floor_sq
    } else {
        s
    };
    let prod: u128 = (strength as u128) * 1_000_000_000_000;
    let magw: u128 = prod / msq;
    proof {
        lemma_div_pos_is_pos(prod as int, msq as int);
        lemma_div_is_ordered_by_denominator(prod as int, 1_000_000_000_000, msq as int);
        lemma_div_by_multiple(strength as int, 1_000_000_000_000);
        assert((strength as int) * 1_000_000_000_000 == (strength as int) * FX_ONE * FX_ONE);
    }
    let mag: i64 = magw as i64;
    let u = dir.normalize_or_zero();
    proof {
        lemma_scaled_unit_bound(u.x as int, mag as int);
        lemma_scaled_unit_bound(u.y as int, mag as int);
        lemma_scaled_unit_bound(u.z as int, mag as int);
    }
    u.scale(mag)
}

/// Whether the wind condition holds: both hands report an open palm and
/// their palm normals point within the configured alignment of each other.
pub open spec fn spec_wind_active(hr: HandData, hl: HandData, cfg: PipelineConfig) -> bool {
    &&& hr.gesture == Some(Gesture::OpenPalm)
    &&& hl.gesture == Some(Gesture::OpenPalm)
    &&& hr.normal is Some
    &&& hl.normal is Some
    &&& v3_dot(hr.normal->0, hl.normal->0) > (cfg.wind_dot_min as int) * (FX_ONE as int)
}

/// The uniform wind vector: along the normalized sum of the two palm
/// normals (zero when they cancel), scaled by the configured strength.
pub open spec fn spec_wind_vec(nr: Vec3x, nl: Vec3x, strength: i64) -> Vec3x {
    let u = spec_normalize(
        Vec3x { x: (nr.x + nl.x) as i64, y: (nr.y + nl.y) as i64, z: (nr.z + nl.z) as i64 },
    );
    Vec3x {
        x: tdiv(u.x * strength, FX_ONE as int) as i64,
        y: tdiv(u.y * strength, FX_ONE as int) as i64,
        z: tdiv(u.z * strength, FX_ONE as int) as i64,
    }
}

/// Computes the uniform wind vector from the two palm normals.
pub fn wind_vec(nr: Vec3x, nl: Vec3x, strength: i64) -> (r: Vec3x)
    requires
        fx_abs(nr.x as int) <= FX_ONE,
        fx_abs(nr.y as int) <= FX_ONE,
        fx_abs(nr.z as int) <= FX_ONE,
        fx_abs(nl.x as int) <= FX_ONE,
        fx_abs(nl.y as int) <= FX_ONE,
        fx_abs(nl.z as int) <= FX_ONE,
        0 <= strength <= FX_BOUND,
    ensures
        r == spec_wind_vec(nr, nl, strength),
        fx_abs(r.x as int) <= strength,
        fx_abs(r.y as int) <= strength,
        fx_abs(r.z as int) <= strength,
{
    let avg = nr.add(nl);
    let u = avg.normalize_or_zero();
    proof {
        lemma_scaled_unit_bound(u.x as int, strength as int);
        lemma_scaled_unit_bound(u.y as int, strength as int);
        lemma_scaled_unit_bound(u.z as int, strength as int);
    }
    u.scale(strength)
}

/// The attraction one hand contributes to one body: defined only while
/// the hand reports a fist and its centre is known this frame.
pub open spec fn spec_fist_contrib(hd: HandData, body: Vec3x, cfg: PipelineConfig) -> Vec3x {
    if hd.gesture == Some(Gesture::Fist) && hd.center is Some {
        spec_attraction(hd.center->0, body, cfg.attract_strength)
    } else {
        Vec3x { x: 0i64, y: 0i64, z: 0i64 }
    }
}

/// The total force set on one body this frame: the sum of the attraction
/// of each fisted hand and of the wind when it is active; exactly zero
/// when no condition contributes.
pub open spec fn spec_body_total(
    hr: HandData,
    hl: HandData,
    body: Vec3x,
    cfg: PipelineConfig,
) -> Vec3x {
    let fr = spec_fist_contrib(hr, body, cfg);
    let fl = spec_fist_contrib(hl, body, cfg);
    let wv = if spec_wind_active(hr, hl, cfg) {
        spec_wind_vec(hr.normal->0, hl.normal->0, cfg.wind_strength)
    } else {
        Vec3x { x: 0i64, y: 0i64, z: 0i64 }
    };
    Vec3x {
        x: (fr.x + fl.x + wv.x) as i64,
        y: (fr.y + fl.y + wv.y) as i64,
        z: (fr.z + fl.z + wv.z) as i64,
    }
}

/// Computes the total force set on one body this frame.
pub fn body_total(hr: &HandData, hl: &HandData, body: Vec3x, cfg: &PipelineConfig) -> (r: Vec3x)
    requires
        hd_wf(*hr),
        hd_wf(*hl),
        v3_bounded(body),
        cfg_wf(*cfg),
    ensures
        r == spec_body_total(*hr, *hl, body, *cfg),
        fx_abs(r.x as int) <= 3 * FX_BOUND,
        fx_abs(r.y as int) <= 3 * FX_BOUND,
        fx_abs(r.z as int) <= 3 * FX_BOUND,
{
    let fr: Vec3x = match (hr.gesture, hr.center) {
        (Some(Gesture::Fist), Some(c)) => attraction(c, body, cfg.attract_strength),
        _ => Vec3x { x: 0, y: 0, z: 0 },
    };
    let fl: Vec3x = match (hl.gesture, hl.center) {
        (Some(Gesture::Fist), Some(c)) => attraction(c, body, cfg.attract_strength),
        _ => Vec3x { x: 0, y: 0, z: 0 },
    };
    let wind_on: bool = match (hr.gesture, hl.gesture, &hr.normal, &hl.normal) {
        (Some(Gesture::OpenPalm), Some(Gesture::OpenPalm), Some(nr), Some(nl)) => {
            let d: i128 = nr.dot(*nl);
            d > (cfg.wind_dot_min as i128) * (FX_ONE as i128)
        },
        _ => false,
    };
    let wv: Vec3x = if wind_on {
        match (&hr.normal, &hl.normal) {
            (Some(nr), Some(nl)) => wind_vec(*nr, *nl, cfg.wind_strength),
            _ => Vec3x { x: 0, y: 0, z: 0 },
        }
    } else {
        Vec3x { x: 0, y: 0, z: 0 }
    };
    fr.add(fl).add(wv)
}

/// Computes the force to set on every dynamic body this frame, keyed by
/// the body's stable identity handle, in the order the bodies were given.
pub fn aggregate_forces(
    hr: &HandData,
    hl: &HandData,
    bodies: &Vec<BodyState>,
    cfg: &PipelineConfig,
) -> (r: Vec<BodyForce>)
    requires
        hd_wf(*hr),
        hd_wf(*hl),
        cfg_wf(*cfg),
        forall|i: int| 0 <= i < bodies@.len() ==> v3_bounded(#[trigger] bodies@[i].pos),
    ensures
        r@.len() == bodies@.len(),
        forall|i: int|
            0 <= i < bodies@.len() ==> #[trigger] r@[i] == (BodyForce {
                id: bodies@[i].id,
                force: spec_body_total(*hr, *hl, bodies@[i].pos, *cfg),
            }),
{
    let n: usize = bodies.len();
    let mut r: Vec<BodyForce> = Vec::new();
    let mut i: usize = 0;
    while i < n
        invariant
            i <= n,
            n == bodies@.len(),
            hd_wf(*hr),
            hd_wf(*hl),
            cfg_wf(*cfg),
            forall|j: int| 0 <= j < bodies@.len() ==> v3_bounded(#[trigger] bodies@[j].pos),
            r@.len() == i,
            forall|j: int|
                0 <= j < i ==> #[trigger] r@[j] == (BodyForce {
                    id: bodies@[j].id,
                    force: spec_body_total(*hr, *hl, bodies@[j].pos, *cfg),
                }),
        decreases n - i,
    {
        let b: BodyState = bodies[i];
        let f: Vec3x = body_total(hr, hl, b.pos, cfg);
        r.push(BodyForce { id: b.id, force: f });
        i = i + 1;
    }
    r
}

/// Law: a body receives exactly zero force on any frame in which no hand
/// reports a fist with a known centre and the wind condition does not
/// hold — a stale force can never persist once its trigger ends.
pub proof fn lemma_force_zeroing(hr: HandData, hl: HandData, body: Vec3x, cfg: PipelineConfig)
    requires
        hr.gesture != Some(Gesture::Fist) || hr.center is None,
        hl.gesture != Some(Gesture::Fist) || hl.center is None,
        !spec_wind_active(hr, hl, cfg),
    ensures
        spec_body_total(hr, hl, body, cfg) == (Vec3x { x: 0i64, y: 0i64, z: 0i64 }),
{
}

/// Law: while the wind condition holds and no fist contributes, every
/// body receives one and the same wind vector, whatever its position.
pub proof fn lemma_wind_uniform(
    hr: HandData,
    hl: HandData,
    b1: Vec3x,
    b2: Vec3x,
    cfg: PipelineConfig,
)
    requires
        spec_wind_active(hr, hl, cfg),
        hr.gesture != Some(Gesture::Fist) || hr.center is None,
        hl.gesture != Some(Gesture::Fist) || hl.center is None,
    ensures
        spec_body_total(hr, hl, b1, cfg) == spec_body_total(hr, hl, b2, cfg),
        spec_body_total(hr, hl, b1, cfg) == spec_wind_vec(
            hr.normal->0,
            hl.normal->0,
            cfg.wind_strength,
        ),
{
}

} // verus!
