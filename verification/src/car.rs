//! The car's control decision: what the arrow keys do to the tires, given
//! how fast the car already moves. The physics plugin turns the decision
//! into forces; this module only decides the multiples.

use vstd::prelude::*;

verus! {

/// Which arrow keys are held this frame.
#[derive(PartialEq, Eq, Structural, Debug, Clone, Copy)]
pub struct ControlKeys {
    pub up: bool,
    pub down: bool,
    pub left: bool,
    pub right: bool,
}

/// The car's forward velocity against the control thresholds: whether it is
/// still below the top speed, whether it moves forward at all, and whether
/// it still may back up faster.
#[derive(PartialEq, Eq, Structural, Debug, Clone, Copy)]
pub struct SpeedGauge {
    pub below_max_speed: bool,
    pub moving_forward: bool,
    pub above_reverse_limit: bool,
}

/// What the steered tires get this frame: a multiple of the acceleration
/// constant, whether the braking force applies, and a multiple of the
/// maximum steering angle.
#[derive(PartialEq, Eq, Structural, Debug, Clone, Copy)]
pub struct CarCommand {
    pub accel_units: i8,
    pub brake: bool,
    pub steer_units: i8,
}

/// Decides the frame's car command. Up accelerates only below the top
/// speed; down brakes while moving forward and otherwise backs up, but only
/// above the backing speed limit; left and right steer against each other.
pub fn car_control(keys: &ControlKeys, gauge: &SpeedGauge) -> (c: CarCommand)
    ensures
        c.accel_units as int == (if keys.up && gauge.below_max_speed {
            1int
        } else {
            0int
        }) + (if keys.down && !gauge.moving_forward && gauge.above_reverse_limit {
            -1int
        } else {
            0int
        }),
        c.brake == (keys.down && gauge.moving_forward),
        c.steer_units as int == (if keys.left {
            1int
        } else {
            0int
        }) - (if keys.right {
            1int
        } else {
            0int
        }),
{
    let mut accel_units: i8 = 0;
    let mut brake = false;
    if keys.up && gauge.below_max_speed {
        accel_units += 1;
    }
    if keys.down {
        if gauge.moving_forward {
            brake = true;
        } else if gauge.above_reverse_limit {
            accel_units -= 1;
        }
    }
    let mut steer_units: i8 = 0;
    if keys.left {
        steer_units += 1;
    }
    if keys.right {
        steer_units -= 1;
    }
    CarCommand { accel_units, brake, steer_units }
}

} // verus!
