use tango_driver::missions::{mission_targets, MissionState};

#[test]
fn the_round_has_twelve_targets() {
    let targets = mission_targets();
    assert_eq!(targets.len(), 12);
    assert_eq!(targets[0], (16000, 12500));
    assert_eq!(targets[5], (11450, 20600));
    assert_eq!(targets[6], (16000, 12500));
}

#[test]
fn the_round_starts_at_the_first_target() {
    let s = MissionState::default();
    assert_eq!(s.target_idx, Some(0));
    assert_eq!(s.current_target, Some((16000, 12500)));
    assert!(!s.mission_active);
}

#[test]
fn stepping_toggles_and_numbers_missions_in_pairs() {
    let mut s = MissionState::default();

    assert_eq!(s.next_target(), Some(1));
    assert_eq!(s.target_idx, Some(1));
    assert_eq!(s.current_target, Some((22500, 21000)));
    assert!(s.mission_active);

    assert_eq!(s.next_target(), Some(1));
    assert!(!s.mission_active);
    assert_eq!(s.next_target(), Some(2));
    assert_eq!(s.next_target(), Some(2));
    assert_eq!(s.next_target(), Some(3));
    assert_eq!(s.current_target, Some((11450, 20600)));
}
