use vstd::prelude::*;

use crate::roles::PinRole;
use crate::store::{
    lemma_write_then_read, role_of, value_of, written, PinSlot, PinStateStore, SlotWriter,
};

verus! {

/// The slot value that stands for "high" (on) on a digital pin.
pub const LEVEL_HIGH: u32 = 100;

/// The slot value that stands for "low" (off) on a digital pin.
pub const LEVEL_LOW: u32 = 0;

/// The output driver sets a pin high exactly when its slot holds `100`;
/// any other value drives it low.
pub open spec fn level_for(state: u32) -> bool {
    state == 100
}

/// The PWM duty programmed for a duty percentage `d` on a channel whose
/// maximum duty is `max_duty`: `d * max_duty / 100`, truncated, kept to the
/// channel's 16-bit register.
pub open spec fn duty_for(d: u32, max_duty: u16) -> u16 {
    ((d as int * max_duty as int / 100) % 65536) as u16
}

/// The slot value that the input sampler stores for a sampled level.
pub open spec fn state_for_level(high: bool) -> u32 {
    if high {
        100
    } else {
        0
    }
}

/// Whether the output driver sets a pin high for slot value `state`.
pub fn output_level(state: u32) -> (r: bool)
    ensures
        r == level_for(state),
{
    state == LEVEL_HIGH
}

/// The duty the PWM driver programs for duty percentage `state`.
pub fn pwm_duty(state: u32, max_duty: u16) -> (r: u16)
    ensures
        r == duty_for(state, max_duty),
        state <= 100 ==> r as int == state as int * max_duty as int / 100,
        state <= 100 ==> r <= max_duty,
{
    assert(state as u64 * max_duty as u64 <= 0xffff_ffff * 0xffff) by (nonlinear_arith);
    let product: u64 = state as u64 * max_duty as u64;
    let duty: u64 = (product / 100) % 65536;
    proof {
        if state <= 100 {
            assert(state as int * max_duty as int <= 100 * max_duty as int) by (nonlinear_arith)
                requires
                    state <= 100,
            ;
            assert(product / 100 <= max_duty);
        }
    }
    duty as u16
}

/// The slot value the input sampler stores for a sampled level.
pub fn input_state(high: bool) -> (r: u32)
    ensures
        r == state_for_level(high),
{
    if high {
        LEVEL_HIGH
    } else {
        LEVEL_LOW
    }
}

impl PinStateStore {
    /// One step of the output driver for `pin`: whether to drive it high.
    pub fn drive_level(&self, pin: u8) -> (r: bool)
        ensures
            r == level_for(value_of(self@, pin)),
    {
        output_level(self.read(pin))
    }

    /// One step of the PWM driver for `pin`: the duty to program.
    pub fn drive_duty(&self, pin: u8, max_duty: u16) -> (r: u16)
        ensures
            r == duty_for(value_of(self@, pin), max_duty),
    {
        pwm_duty(self.read(pin), max_duty)
    }

    /// One step of the input sampler: stores the level sampled on `pin`.
    /// Only a digital input slot takes it.
    pub fn record_input(&mut self, pin: u8, high: bool)
        ensures
            final(self)@ == written(old(self)@, pin, SlotWriter::InputSampler, state_for_level(high)),
            old(self).wf() ==> final(self).wf(),
    {
        let state = input_state(high);
        self.write(pin, SlotWriter::InputSampler, state);
    }

    /// One step of the analog sampler: stores a finished conversion for
    /// `pin`; a failed one (`None`) leaves the previous value in place.
    /// Only an analog input slot takes it.
    pub fn record_analog(&mut self, pin: u8, sample: Option<u16>)
        ensures
            final(self)@ == match sample {
                Some(v) => written(old(self)@, pin, SlotWriter::AnalogSampler, v as u32),
                None => old(self)@,
            },
            old(self).wf() ==> final(self).wf(),
    {
        if let Some(v) = sample {
            self.write(pin, SlotWriter::AnalogSampler, v as u32);
        }
    }
}

/// Round trip: once a command writes `value` to a digital output pin, the
/// output driver drives that pin high exactly when `value` is `100`.
pub proof fn lemma_command_round_trip(slots: Seq<PinSlot>, pin: u8, value: u32)
    requires
        role_of(slots, pin) == Some(PinRole::DigitalOutput),
    ensures
        level_for(value_of(written(slots, pin, SlotWriter::Command, value), pin)) == (value == 100),
{
    lemma_write_then_read(slots, pin, SlotWriter::Command, value);
}

} // verus!
