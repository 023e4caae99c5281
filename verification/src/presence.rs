//! Temporal presence tracking: the last frame-time each side was observed,
//! and the visibility flag with its fade timeout.

use vstd::prelude::*;
use crate::fixed::FX_BOUND;
use crate::packet::{FramePacket, Side, spec_has_side, has_side};

verus! {

/// The last frame-time a valid observation existed, per side, in
/// fixed-point simulated seconds.
#[derive(Clone, Copy, PartialEq, Eq, Structural, Debug)]
pub struct Presence {
    pub last_seen_right: i64,
    pub last_seen_left: i64,
}

/// Timestamps stay within the scalar range, so elapsed times are exact.
pub open spec fn presence_wf(p: Presence) -> bool {
    0 <= p.last_seen_right <= FX_BOUND && 0 <= p.last_seen_left <= FX_BOUND
}

/// The last-seen time of one side.
pub open spec fn spec_last_seen(p: Presence, side: Side) -> int {
    match side {
        Side::Right => p.last_seen_right as int,
        Side::Left => p.last_seen_left as int,
    }
}

/// The visibility predicate: a side is visible while less than the fade
/// timeout has elapsed since it was last seen.
pub open spec fn spec_visible(p: Presence, side: Side, now: int, timeout: int) -> bool {
    now - spec_last_seen(p, side) < timeout
}

/// The presence state after one packet: each side present in the packet
/// is stamped with the current frame-time, the other side keeps its stamp.
pub open spec fn spec_observe(p: Presence, packet: FramePacket, now: int) -> Presence {
    Presence {
        last_seen_right: if spec_has_side(packet.hands@, Side::Right) {
            now as i64
        } else {
            p.last_seen_right
        },
        last_seen_left: if spec_has_side(packet.hands@, Side::Left) {
            now as i64
        } else {
            p.last_seen_left
        },
    }
}

impl Presence {
    /// The startup state: both sides count as last seen at time zero.
    pub fn new() -> (r: Presence)
        ensures
            r.last_seen_right == 0,
            r.last_seen_left == 0,
            presence_wf(r),
    {
        Presence { last_seen_right: 0, last_seen_left: 0 }
    }

    /// Records the sides present in the packet at the current frame-time.
    pub fn observe(&mut self, packet: &FramePacket, now: i64)
        requires
            presence_wf(*old(self)),
            0 <= now <= FX_BOUND,
        ensures
            *final(self) == spec_observe(*old(self), *packet, now as int),
            presence_wf(*final(self)),
    {
        if has_side(packet, Side::Right) {
            self.last_seen_right = now;
        }
        if has_side(packet, Side::Left) {
            self.last_seen_left = now;
        }
    }

    /// The raw time elapsed since one side was last seen; consumers apply
    /// their own visual policy to it.
    pub fn elapsed(&self, side: Side, now: i64) -> (r: i64)
        requires
            presence_wf(*self),
            0 <= now <= FX_BOUND,
        ensures
            r == now - spec_last_seen(*self, side),
    {
        let last: i64 = match side {
            Side::Right => self.last_seen_right,
            Side::Left => self.last_seen_left,
        };
        now - last
    }

    /// The visibility flag of one side at the current frame-time.
    pub fn visible(&self, side: Side, now: i64, timeout: i64) -> (r: bool)
        requires
            presence_wf(*self),
            0 <= now <= FX_BOUND,
            0 <= timeout <= FX_BOUND,
        ensures
            r == spec_visible(*self, side, now as int, timeout as int),
    {
        let last: i64 = match side {
            Side::Right => self.last_seen_right,
            Side::Left => self.last_seen_left,
        };
        now - last < timeout
    }
}

/// Law: once a side has been absent for at least the fade timeout, its
/// visibility flag is false, and it stays false at every later frame-time
/// for as long as packets without that side leave its stamp unchanged;
/// a packet in which the side reappears stamps it with the frame-time,
/// which makes the flag true again whenever the timeout is positive.
pub proof fn lemma_presence_fade(p: Presence, side: Side, now: int, timeout: int)
    requires
        now - spec_last_seen(p, side) >= timeout,
    ensures
        !spec_visible(p, side, now, timeout),
        forall|later: int| now <= later ==> !spec_visible(p, side, later, timeout),
        forall|packet: FramePacket, later: int|
            !spec_has_side(packet.hands@, side) ==> spec_last_seen(
                #[trigger] spec_observe(p, packet, later),
                side,
            ) == spec_last_seen(p, side),
        forall|packet: FramePacket, later: int|
            spec_has_side(packet.hands@, side) && timeout > 0 && 0 <= later <= FX_BOUND
                ==> spec_visible(#[trigger] spec_observe(p, packet, later), side, later, timeout),
{
}

} // verus!
