use vstd::prelude::*;

verus! {

/// The electrical/functional mode a physical pin is configured for.
#[derive(Clone, Copy, Debug, PartialEq, Eq, Structural)]
pub enum PinRole {
    DigitalOutput,
    PwmOutput,
    DigitalInput,
    AnalogInput,
}

/// Pins of the board that can be driven or sampled as plain digital lines
/// (and bound to a PWM channel).
pub open spec fn is_digital_pin(pin: u8) -> bool {
    pin == 14 || pin == 25 || pin == 26 || pin == 33
}

/// Pins of the board that are wired to the analog converter.
pub open spec fn is_analog_pin(pin: u8) -> bool {
    pin == 32 || pin == 35
}

/// Whether the board can wire `pin` for `role`.
pub open spec fn supports(role: PinRole, pin: u8) -> bool {
    match role {
        PinRole::AnalogInput => is_analog_pin(pin),
        _ => is_digital_pin(pin),
    }
}

/// Whether the board can wire `pin` for `role`.
pub fn pin_supports_role(role: PinRole, pin: u8) -> (r: bool)
    ensures
        r == supports(role, pin),
{
    match role {
        PinRole::AnalogInput => pin == 32 || pin == 35,
        _ => pin == 14 || pin == 25 || pin == 26 || pin == 33,
    }
}

} // verus!
