//! Named configuration of the pipeline.  Every tunable the mapping, the
//! smoothing, the presence fade and the force field use lives here as a
//! fixed-point scalar, together with the range each must stay in for the
//! arithmetic of the pipeline to be exact.

use vstd::prelude::*;
use crate::fixed::{FX_ONE, fx_abs};

verus! {

/// Tunables of the pipeline, as fixed-point scalars (scaled by `FX_ONE`).
#[derive(Clone, Copy, PartialEq, Eq, Structural, Debug)]
pub struct PipelineConfig {
    /// World units per normalized sensor unit of the pose mapping.
    pub scale: i64,
    /// Vertical shift added to every mapped point.
    pub y_offset: i64,
    /// Base of the depth heuristic: the depth of a vanishing hand.
    pub depth_base: i64,
    /// Gain of the depth heuristic: how fast a growing on-screen hand
    /// approaches the camera.
    pub depth_gain: i64,
    /// Smoothing rate per simulated second; the per-frame fraction is
    /// `smooth_rate * delta_time`, clamped to one.
    pub smooth_rate: i64,
    /// Seconds a side stays visible after it was last observed.
    pub fade_timeout: i64,
    /// Strength of the inverse-square attraction of a fist.
    pub attract_strength: i64,
    /// Magnitude of the uniform wind of two facing open palms.
    pub wind_strength: i64,
    /// Least dot product of the two palm normals that turns the wind on.
    pub wind_dot_min: i64,
}

/// The ranges under which every pipeline step stays exact and in width.
pub open spec fn cfg_wf(cfg: PipelineConfig) -> bool {
    &&& 0 < cfg.scale <= 100 * FX_ONE
    &&& fx_abs(cfg.y_offset as int) <= 1_000_000_000
    &&& fx_abs(cfg.depth_base as int) <= 1_000_000_000
    &&& 0 <= cfg.depth_gain <= 1_000_000_000
    &&& 0 <= cfg.smooth_rate <= 1_000_000_000
    &&& 0 <= cfg.fade_timeout <= 1_000_000_000
    &&& 0 <= cfg.attract_strength <= 1_000_000_000_000
    &&& 0 <= cfg.wind_strength <= 1_000_000_000_000
    &&& 0 <= cfg.wind_dot_min <= FX_ONE
}

impl PipelineConfig {
    /// The standard tuning: scale 20, vertical shift 3, depth heuristic
    /// 20 − 80·size, smoothing rate 40/s, fade 0.5 s, attraction 50000,
    /// wind 1500 past a palm alignment of 0.5.
    pub fn standard() -> (r: PipelineConfig)
        ensures
            r.scale == 20 * FX_ONE,
            r.y_offset == 3 * FX_ONE,
            r.depth_base == 20 * FX_ONE,
            r.depth_gain == 80 * FX_ONE,
            r.smooth_rate == 40 * FX_ONE,
            r.fade_timeout == FX_ONE / 2,
            r.attract_strength == 50000 * FX_ONE,
            r.wind_strength == 1500 * FX_ONE,
            r.wind_dot_min == FX_ONE / 2,
            cfg_wf(r),
    {
        PipelineConfig {
            scale: 20_000_000,
            y_offset: 3_000_000,
            depth_base: 20_000_000,
            depth_gain: 80_000_000,
            smooth_rate: 40_000_000,
            fade_timeout: 500_000,
            attract_strength: 50_000_000_000,
            wind_strength: 1_500_000_000,
            wind_dot_min: 500_000,
        }
    }
}

} // verus!
