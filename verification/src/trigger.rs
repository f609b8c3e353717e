//! Mission triggers: sensors placed at the current target. Driving into one
//! either starts or ends a mission, steps the round to its next target, and
//! names the dialogue to play.

use crate::missions::{mission_target_seq, MissionState};
use vstd::prelude::*;

verus! {

/// What a trigger does when the player reaches it.
#[derive(PartialEq, Eq, Structural, Debug, Clone, Copy)]
pub enum TriggerType {
    StartMission,
    StopMission,
}

/// A start trigger fires only while no mission is underway; a stop trigger
/// only while one is.
pub open spec fn trigger_fires(t: TriggerType, mission_active: bool) -> bool {
    match t {
        TriggerType::StartMission => !mission_active,
        TriggerType::StopMission => mission_active,
    }
}

/// The digit characters, by value.
pub open spec fn digit_char(d: int) -> char {
    if d == 0 {
        '0'
    } else if d == 1 {
        '1'
    } else if d == 2 {
        '2'
    } else if d == 3 {
        '3'
    } else if d == 4 {
        '4'
    } else if d == 5 {
        '5'
    } else if d == 6 {
        '6'
    } else if d == 7 {
        '7'
    } else if d == 8 {
        '8'
    } else {
        '9'
    }
}

/// The name of the dialogue a firing trigger plays: a start trigger plays
/// the mission's numbered passenger dialogue, a stop trigger the closing
/// one. `idx` is the target index before the trigger fires.
pub open spec fn trigger_dialogue_name(t: TriggerType, idx: int) -> Seq<char> {
    match t {
        TriggerType::StartMission => seq!['p', digit_char((idx + 2) / 2)],
        TriggerType::StopMission => "p-end"@,
    }
}

fn digit_str(d: usize) -> (r: &'static str)
    requires
        d <= 9,
    ensures
        r@ == seq![digit_char(d as int)],
{
    let r = match d {
        0 => {
            proof {
                reveal_strlit("0");
            }
            "0"
        },
        1 => {
            proof {
                reveal_strlit("1");
            }
            "1"
        },
        2 => {
            proof {
                reveal_strlit("2");
            }
            "2"
        },
        3 => {
            proof {
                reveal_strlit("3");
            }
            "3"
        },
        4 => {
            proof {
                reveal_strlit("4");
            }
            "4"
        },
        5 => {
            proof {
                reveal_strlit("5");
            }
            "5"
        },
        6 => {
            proof {
                reveal_strlit("6");
            }
            "6"
        },
        7 => {
            proof {
                reveal_strlit("7");
            }
            "7"
        },
        8 => {
            proof {
                reveal_strlit("8");
            }
            "8"
        },
        _ => {
            proof {
                reveal_strlit("9");
            }
            "9"
        },
    };
    proof {
        assert(r@ =~= seq![digit_char(d as int)]);
    }
    r
}

/// The name of a mission's passenger dialogue: the letter p followed by the
/// mission number.
pub fn mission_dialogue_name(n: usize) -> (r: String)
    requires
        n <= 9,
    ensures
        r@ == seq!['p', digit_char(n as int)],
{
    proof {
        reveal_strlit("p");
    }
    let s = String::from_str("p");
    let d = digit_str(n);
    let r = s.concat(d);
    proof {
        assert(r@ =~= seq!['p', digit_char(n as int)]);
    }
    r
}

/// The decision a trigger collision makes. A trigger of the wrong phase is
/// ignored; one of the right phase steps the mission round to its next
/// target and names the dialogue to play.
pub fn handle_trigger(state: &mut MissionState, trigger: TriggerType) -> (r: Option<String>)
    requires
        old(state).target_idx is Some,
        old(state).target_idx->0 + 1 < mission_target_seq().len(),
    ensures
        !trigger_fires(trigger, old(state).mission_active) ==> *final(state) == *old(state)
            && r is None,
        trigger_fires(trigger, old(state).mission_active) ==> ({
            let idx = old(state).target_idx->0;
            &&& final(state).target_idx == Some((idx + 1) as usize)
            &&& final(state).mission_active == !old(state).mission_active
            &&& final(state).current_target == Some(mission_target_seq()[idx + 1])
            &&& match r {
                Some(name) => name@ == trigger_dialogue_name(trigger, idx as int),
                None => false,
            }
        }),
{
    match trigger {
        TriggerType::StartMission => {
            if state.mission_active {
                return None;
            }
            let n = state.next_target().unwrap();
            Some(mission_dialogue_name(n))
        },
        TriggerType::StopMission => {
            if !state.mission_active {
                return None;
            }
            state.next_target();
            Some(String::from_str("p-end"))
        },
    }
}

/// The kind of trigger that stands at the current target: a stop trigger
/// while a mission is underway, a start trigger otherwise.
pub fn target_trigger_type(state: &MissionState) -> (t: TriggerType)
    ensures
        t == (if state.mission_active {
            TriggerType::StopMission
        } else {
            TriggerType::StartMission
        }),
{
    if state.mission_active {
        TriggerType::StopMission
    } else {
        TriggerType::StartMission
    }
}

} // verus!
