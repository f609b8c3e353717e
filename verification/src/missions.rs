//! The courier missions: a fixed round of target positions, visited in
//! order. Reaching a target toggles between "driving to a pickup" and
//! "carrying a passenger", and numbers the missions in pairs.

use vstd::prelude::*;

verus! {

/// The target positions of the mission round, in world coordinates.
pub open spec fn mission_target_seq() -> Seq<(i32, i32)> {
    seq![
        (16000, 12500),
        (22500, 21000),
        (24000, 23400),
        (24300, 18000),
        (19000, 14200),
        (11450, 20600),
        (16000, 12500),
        (22500, 21000),
        (24000, 23400),
        (24300, 18000),
        (19000, 14200),
        (11450, 20600),
    ]
}

/// The target positions of the mission round, for callers that need them at
/// run time.
pub fn mission_targets() -> (r: Vec<(i32, i32)>)
    ensures
        r@ == mission_target_seq(),
{
    let r: Vec<(i32, i32)> = vec![
        (16000, 12500),
        (22500, 21000),
        (24000, 23400),
        (24300, 18000),
        (19000, 14200),
        (11450, 20600),
        (16000, 12500),
        (22500, 21000),
        (24000, 23400),
        (24300, 18000),
        (19000, 14200),
        (11450, 20600),
    ];
    proof {
        assert(r@ =~= mission_target_seq());
    }
    r
}

/// Where the player stands in the mission round: the index of the target
/// ahead, its position, and whether a mission is underway.
#[derive(PartialEq, Eq, Debug, Clone, Copy)]
pub struct MissionState {
    pub target_idx: Option<usize>,
    pub current_target: Option<(i32, i32)>,
    pub mission_active: bool,
}

impl Default for MissionState {
    /// The round starts at the first target with no mission underway.
    fn default() -> (s: MissionState)
        ensures
            s.target_idx == Some(0usize),
            s.current_target == Some(mission_target_seq()[0]),
            !s.mission_active,
    {
        MissionState {
            target_idx: Some(0),
            current_target: Some((16000, 12500)),
            mission_active: false,
        }
    }
}

impl MissionState {
    /// Steps to the next target of the round: the index moves up by one,
    /// a mission underway ends and an ended one begins, and the result
    /// numbers the mission, counting the targets off in pairs.
    pub fn next_target(&mut self) -> (r: Option<usize>)
        requires
            old(self).target_idx is Some,
            old(self).target_idx->0 + 1 < mission_target_seq().len(),
        ensures
            ({
                let idx = old(self).target_idx->0;
                &&& final(self).target_idx == Some((idx + 1) as usize)
                &&& final(self).mission_active == !old(self).mission_active
                &&& final(self).current_target == Some(mission_target_seq()[idx + 1])
                &&& r == Some(((idx + 2) / 2) as usize)
            }),
    {
        let idx = self.target_idx.unwrap();
        self.target_idx = Some(idx + 1);
        self.mission_active = !self.mission_active;
        let targets = mission_targets();
        self.current_target = Some(targets[idx + 1]);
        Some((idx + 2) / 2)
    }
}

} // verus!
