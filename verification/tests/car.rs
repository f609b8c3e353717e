use tango_driver::car::{car_control, ControlKeys, SpeedGauge};

fn keys(up: bool, down: bool, left: bool, right: bool) -> ControlKeys {
    ControlKeys { up, down, left, right }
}

fn cruising() -> SpeedGauge {
    SpeedGauge { below_max_speed: true, moving_forward: true, above_reverse_limit: true }
}

#[test]
fn up_accelerates_below_top_speed() {
    let c = car_control(&keys(true, false, false, false), &cruising());
    assert_eq!((c.accel_units, c.brake, c.steer_units), (1, false, 0));
}

#[test]
fn up_does_nothing_at_top_speed() {
    let gauge = SpeedGauge { below_max_speed: false, ..cruising() };
    let c = car_control(&keys(true, false, false, false), &gauge);
    assert_eq!((c.accel_units, c.brake), (0, false));
}

#[test]
fn down_brakes_while_moving_forward() {
    let c = car_control(&keys(false, true, false, false), &cruising());
    assert_eq!((c.accel_units, c.brake), (0, true));
}

#[test]
fn down_backs_up_when_stopped() {
    let gauge = SpeedGauge { moving_forward: false, ..cruising() };
    let c = car_control(&keys(false, true, false, false), &gauge);
    assert_eq!((c.accel_units, c.brake), (-1, false));
}

#[test]
fn backing_stops_at_the_reverse_limit() {
    let gauge = SpeedGauge {
        moving_forward: false,
        above_reverse_limit: false,
        ..cruising()
    };
    let c = car_control(&keys(false, true, false, false), &gauge);
    assert_eq!((c.accel_units, c.brake), (0, false));
}

#[test]
fn up_and_down_combine() {
    // Both pedals while rolling forward: accelerate and brake at once.
    let c = car_control(&keys(true, true, false, false), &cruising());
    assert_eq!((c.accel_units, c.brake), (1, true));
}

#[test]
fn steering_cancels_out() {
    assert_eq!(car_control(&keys(false, false, true, false), &cruising()).steer_units, 1);
    assert_eq!(car_control(&keys(false, false, false, true), &cruising()).steer_units, -1);
    assert_eq!(car_control(&keys(false, false, true, true), &cruising()).steer_units, 0);
}
