//! Decoded frame packets: the structured form of one sensor datagram, and
//! the freshness policy that keeps only the most recent well-formed one.

use vstd::prelude::*;
use crate::fixed::fx_abs;

verus! {

/// Largest landmark coordinate magnitude the pose mapping accepts
/// (one hundred world units; sensor coordinates are normalized to one).
pub const LM_BOUND: i64 = 100_000_000;

/// The side a hand observation belongs to.
#[derive(Clone, Copy, PartialEq, Eq, Structural, Debug)]
pub enum Side {
    Left,
    Right,
}

/// The discrete gesture label attached to a hand observation, produced
/// upstream and consumed as-is; only a fist and an open palm drive forces.
#[derive(Clone, Copy, PartialEq, Eq, Structural, Debug)]
pub enum Gesture {
    /// An empty label: no gesture was recognized.
    NoGesture,
    Fist,
    OpenPalm,
    /// Any other label; it drives nothing.
    Other,
}

/// One tracked anatomical point of a hand, in normalized sensor
/// coordinates as fixed-point scalars.
#[derive(Clone, Copy, PartialEq, Eq, Structural, Debug)]
pub struct Landmark {
    pub id: usize,
    pub x: i64,
    pub y: i64,
    pub z: i64,
}

/// One hand present in a packet.
#[derive(Clone, Debug)]
pub struct HandObservation {
    pub side: Side,
    pub landmarks: Vec<Landmark>,
    pub gesture: Gesture,
}

/// The decoded content of one datagram.
#[derive(Clone, Debug)]
pub struct FramePacket {
    pub hands: Vec<HandObservation>,
    pub snap: bool,
}

/// Landmark coordinates small enough for the pose mapping to stay exact.
pub open spec fn lm_bounded(lm: Landmark) -> bool {
    fx_abs(lm.x as int) <= LM_BOUND && fx_abs(lm.y as int) <= LM_BOUND && fx_abs(lm.z as int)
        <= LM_BOUND
}

/// Every landmark of the observation is within range.
pub open spec fn obs_wf(h: HandObservation) -> bool {
    forall|i: int| 0 <= i < h.landmarks@.len() ==> lm_bounded(#[trigger] h.landmarks@[i])
}

/// Every observation of the packet is within range.
pub open spec fn packet_wf(p: FramePacket) -> bool {
    forall|i: int| 0 <= i < p.hands@.len() ==> obs_wf(#[trigger] p.hands@[i])
}

/// The first observation of the given side, if any: a packet holds at
/// most one observation per side, the first match winning.
pub open spec fn spec_find_hand(s: Seq<HandObservation>, side: Side) -> Option<HandObservation>
    decreases s.len(),
{
    if s.len() == 0 {
        None
    } else if s[0].side == side {
        Some(s[0])
    } else {
        spec_find_hand(s.skip(1), side)
    }
}

/// Whether some observation of the packet has the given side.
pub open spec fn spec_has_side(s: Seq<HandObservation>, side: Side) -> bool {
    spec_find_hand(s, side) is Some
}

/// The first landmark with the given id, if any.
pub open spec fn spec_find_lm(s: Seq<Landmark>, id: int) -> Option<Landmark>
    decreases s.len(),
{
    if s.len() == 0 {
        None
    } else if s[0].id == id {
        Some(s[0])
    } else {
        spec_find_lm(s.skip(1), id)
    }
}

/// A hand found in a well-formed packet is itself well-formed.
pub proof fn lemma_find_hand_wf(s: Seq<HandObservation>, side: Side)
    requires
        forall|i: int| 0 <= i < s.len() ==> obs_wf(#[trigger] s[i]),
    ensures
        match spec_find_hand(s, side) {
            Some(h) => obs_wf(h),
            None => true,
        },
    decreases s.len(),
{
    if s.len() == 0 {
    } else if s[0].side == side {
    } else {
        assert forall|i: int| 0 <= i < s.skip(1).len() implies obs_wf(#[trigger] s.skip(1)[i]) by {
            assert(s.skip(1)[i] == s[i + 1]);
        }
        lemma_find_hand_wf(s.skip(1), side);
    }
}

/// A landmark found in a well-formed observation is within range.
pub proof fn lemma_find_lm_bounded(s: Seq<Landmark>, id: int)
    requires
        forall|i: int| 0 <= i < s.len() ==> lm_bounded(#[trigger] s[i]),
    ensures
        match spec_find_lm(s, id) {
            Some(lm) => lm_bounded(lm),
            None => true,
        },
    decreases s.len(),
{
    if s.len() == 0 {
    } else if s[0].id == id {
    } else {
        assert forall|i: int| 0 <= i < s.skip(1).len() implies lm_bounded(#[trigger] s.skip(1)[i]) by {
            assert(s.skip(1)[i] == s[i + 1]);
        }
        lemma_find_lm_bounded(s.skip(1), id);
    }
}

/// Finds the observation of the given side: the first match, or nothing.
pub fn find_hand<'a>(p: &'a FramePacket, side: Side) -> (r: Option<&'a HandObservation>)
    ensures
        match r {
            Some(h) => spec_find_hand(p.hands@, side) == Some(*h),
            None => spec_find_hand(p.hands@, side) is None,
        },
{
    let n: usize = p.hands.len();
    let mut i: usize = 0;
    proof {
        assert(p.hands@.skip(0) =~= p.hands@);
    }
    while i < n
        invariant
            i <= n,
            n == p.hands@.len(),
            spec_find_hand(p.hands@, side) == spec_find_hand(p.hands@.skip(i as int), side),
        decreases n - i,
    {
        let h = &p.hands[i];
        proof {
            assert(p.hands@.skip(i as int)[0] == p.hands@[i as int]);
        }
        if h.side == side {
            return Some(h);
        }
        proof {
            assert(p.hands@.skip(i as int).skip(1) =~= p.hands@.skip(i as int + 1));
        }
        i = i + 1;
    }
    proof {
        assert(p.hands@.skip(n as int).len() == 0);
    }
    None
}

/// Finds the landmark with the given id: the first match, or nothing.
pub fn find_landmark(h: &HandObservation, id: usize) -> (r: Option<Landmark>)
    ensures
        r == spec_find_lm(h.landmarks@, id as int),
{
    let n: usize = h.landmarks.len();
    let mut i: usize = 0;
    proof {
        assert(h.landmarks@.skip(0) =~= h.landmarks@);
    }
    while i < n
        invariant
            i <= n,
            n == h.landmarks@.len(),
            spec_find_lm(h.landmarks@, id as int) == spec_find_lm(
                h.landmarks@.skip(i as int),
                id as int,
            ),
        decreases n - i,
    {
        let lm = h.landmarks[i];
        proof {
            assert(h.landmarks@.skip(i as int)[0] == h.landmarks@[i as int]);
        }
        if lm.id == id {
            return Some(lm);
        }
        proof {
            assert(h.landmarks@.skip(i as int).skip(1) =~= h.landmarks@.skip(i as int + 1));
        }
        i = i + 1;
    }
    proof {
        assert(h.landmarks@.skip(n as int).len() == 0);
    }
    None
}

/// Whether the packet holds an observation of the given side.
pub fn has_side(p: &FramePacket, side: Side) -> (r: bool)
    ensures
        r == spec_has_side(p.hands@, side),
{
    match find_hand(p, side) {
        Some(_) => true,
        None => false,
    }
}

/// The most recent well-formed datagram of a frame: later entries win,
/// entries that failed to decode are skipped and clear nothing.
pub open spec fn spec_latest(s: Seq<Option<FramePacket>>) -> Option<FramePacket>
    decreases s.len(),
{
    if s.len() == 0 {
        None
    } else if s.last() is Some {
        s.last()
    } else {
        spec_latest(s.drop_last())
    }
}

/// Keeps only the most recent successfully decoded packet of a frame,
/// the freshness-over-completeness policy of the decoder.
pub fn latest_packet(parsed: Vec<Option<FramePacket>>) -> (r: Option<FramePacket>)
    ensures
        r == spec_latest(parsed@),
{
    let ghost orig = parsed@;
    let mut rest = parsed;
    loop
        invariant
            orig == parsed@,
            spec_latest(orig) == spec_latest(rest@),
        decreases rest@.len(),
    {
        let ghost before = rest@;
        match rest.pop() {
            None => {
                return None;
            },
            Some(entry) => {
                proof {
                    assert(before.drop_last() =~= rest@);
                }
                match entry {
                    Some(p) => {
                        return Some(p);
                    },
                    None => {
                    },
                }
            },
        }
    }
}

} // verus!
