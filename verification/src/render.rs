//! What the renderer consumes: the fixed skeletal topology of a hand and
//! the per-frame line segments between the tracked points currently on
//! scene.  The colour and alpha policy stays with the renderer, driven by
//! the visibility flags of the frame output.

use vstd::prelude::*;
use crate::vec3::Vec3x;
use crate::packet::Side;
use crate::pose::{TrackedPoints, points_wf, spec_point_index};

verus! {

/// Number of skeletal connections drawn per hand.
pub const SEGMENT_COUNT: usize = 21;

/// Height above which a tracked point counts as on scene; points still at
/// their off-scene start position draw nothing.
pub const ON_SCENE_Y: i64 = -50_000_000;

/// The fixed skeletal topology: the landmark pair of one connection.
pub open spec fn spec_connection(k: int) -> (int, int) {
    if k == 0 {
        (0, 1)
    } else if k == 1 {
        (1, 2)
    } else if k == 2 {
        (2, 3)
    } else if k == 3 {
        (3, 4)
    } else if k == 4 {
        (0, 5)
    } else if k == 5 {
        (5, 6)
    } else if k == 6 {
        (6, 7)
    } else if k == 7 {
        (7, 8)
    } else if k == 8 {
        (9, 10)
    } else if k == 9 {
        (10, 11)
    } else if k == 10 {
        (11, 12)
    } else if k == 11 {
        (13, 14)
    } else if k == 12 {
        (14, 15)
    } else if k == 13 {
        (15, 16)
    } else if k == 14 {
        (0, 17)
    } else if k == 15 {
        (17, 18)
    } else if k == 16 {
        (18, 19)
    } else if k == 17 {
        (19, 20)
    } else if k == 18 {
        (5, 9)
    } else if k == 19 {
        (9, 13)
    } else {
        (13, 17)
    }
}

/// Reads one connection of the skeletal topology table.
pub fn connection(k: usize) -> (r: (usize, usize))
    requires
        k < SEGMENT_COUNT,
    ensures
        r.0 as int == spec_connection(k as int).0,
        r.1 as int == spec_connection(k as int).1,
        r.0 < 21,
        r.1 < 21,
{
    if k == 0 {
        (0, 1)
    } else if k == 1 {
        (1, 2)
    } else if k == 2 {
        (2, 3)
    } else if k == 3 {
        (3, 4)
    } else if k == 4 {
        (0, 5)
    } else if k == 5 {
        (5, 6)
    } else if k == 6 {
        (6, 7)
    } else if k == 7 {
        (7, 8)
    } else if k == 8 {
        (9, 10)
    } else if k == 9 {
        (10, 11)
    } else if k == 10 {
        (11, 12)
    } else if k == 11 {
        (13, 14)
    } else if k == 12 {
        (14, 15)
    } else if k == 13 {
        (15, 16)
    } else if k == 14 {
        (0, 17)
    } else if k == 15 {
        (17, 18)
    } else if k == 16 {
        (18, 19)
    } else if k == 17 {
        (19, 20)
    } else if k == 18 {
        (5, 9)
    } else if k == 19 {
        (9, 13)
    } else {
        (13, 17)
    }
}

/// A point is on scene once it has risen above the off-scene band.
pub open spec fn spec_on_scene(p: Vec3x) -> bool {
    p.y > ON_SCENE_Y
}

/// The line segments of one hand from connection `k` on: a connection is
/// drawn exactly when both its endpoints are on scene, in table order.
pub open spec fn spec_segments(pts: Seq<Vec3x>, side: Side, k: int) -> Seq<(Vec3x, Vec3x)>
    decreases 21 - k,
{
    if k < 0 || k >= 21 {
        Seq::empty()
    } else {
        let c = spec_connection(k);
        let a = pts[spec_point_index(side, c.0)];
        let b = pts[spec_point_index(side, c.1)];
        let head: Seq<(Vec3x, Vec3x)> = if spec_on_scene(a) && spec_on_scene(b) {
            seq![(a, b)]
        } else {
            Seq::empty()
        };
        head + spec_segments(pts, side, k + 1)
    }
}

/// Computes the line segments of one hand's skeleton for this frame.
pub fn skeleton_segments(points: &TrackedPoints, side: Side) -> (r: Vec<(Vec3x, Vec3x)>)
    requires
        points_wf(*points),
    ensures
        r@ == spec_segments(points.pts@, side, 0),
{
    let mut r: Vec<(Vec3x, Vec3x)> = Vec::new();
    let mut k: usize = 0;
    proof {
        assert(Seq::<(Vec3x, Vec3x)>::empty() + spec_segments(points.pts@, side, 0)
            =~= spec_segments(points.pts@, side, 0));
    }
    while k < 21
        invariant
            k <= 21,
            points_wf(*points),
            spec_segments(points.pts@, side, 0) == r@ + spec_segments(points.pts@, side, k as int),
        decreases 21 - k,
    {
        let c = connection(k);
        let a = points.get(side, c.0);
        let b = points.get(side, c.1);
        let ghost pre = r@;
        let ghost head: Seq<(Vec3x, Vec3x)> = if spec_on_scene(a) && spec_on_scene(b) {
            seq![(a, b)]
        } else {
            Seq::<(Vec3x, Vec3x)>::empty()
        };
        if a.y > ON_SCENE_Y && b.y > ON_SCENE_Y {
            r.push((a, b));
        }
        proof {
            assert(r@ =~= pre + head);
            assert((pre + head) + spec_segments(points.pts@, side, k as int + 1) =~= pre + (head
                + spec_segments(points.pts@, side, k as int + 1)));
        }
        k = k + 1;
    }
    proof {
        assert(spec_segments(points.pts@, side, 21).len() == 0);
        assert(r@ + spec_segments(points.pts@, side, 21) =~= r@);
    }
    r
}

} // verus!
